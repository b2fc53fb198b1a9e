//! Stealth browser settings and the browser extensions it presents.
use vstd::prelude::*;

use crate::random::{random_hex64, sample_positions};
use crate::table::Table;
use crate::text::str_eq;

verus! {

/// Challenge pages that can be met.
#[derive(PartialEq, Eq, Structural, Debug, Clone, Copy)]
pub enum ChallengeType {
    Cloudflare,
    Recaptcha,
    Hcaptcha,
    CustomJs,
}

/// Settings of the stealth browser; the timeout in milliseconds.
#[derive(PartialEq, Eq, Structural, Debug, Clone, Copy)]
pub struct StealthConfig {
    pub remove_webdriver_indicators: bool,
    pub spoof_canvas_fingerprint: bool,
    pub randomize_user_agent: bool,
    pub install_extensions: bool,
    pub enable_javascript: bool,
    pub block_images: bool,
    pub challenge_solving_timeout_ms: u64,
}

impl Default for StealthConfig {
    fn default() -> (r: StealthConfig)
        ensures
            r == (StealthConfig {
                remove_webdriver_indicators: true,
                spoof_canvas_fingerprint: true,
                randomize_user_agent: true,
                install_extensions: true,
                enable_javascript: true,
                block_images: false,
                challenge_solving_timeout_ms: 30000,
            }),
    {
        StealthConfig {
            remove_webdriver_indicators: true,
            spoof_canvas_fingerprint: true,
            randomize_user_agent: true,
            install_extensions: true,
            enable_javascript: true,
            block_images: false,
            challenge_solving_timeout_ms: 30000,
        }
    }
}

pub struct ExtensionManifest {
    pub permissions: Vec<String>,
    pub content_scripts: Vec<String>,
}

impl Default for ExtensionManifest {
    fn default() -> (r: ExtensionManifest)
        ensures
            r.permissions@.len() == 2,
            r.permissions@[0]@ == "storage"@,
            r.permissions@[1]@ == "tabs"@,
            r.content_scripts@.len() == 1,
            r.content_scripts@[0]@ == "content.js"@,
    {
        let mut permissions: Vec<String> = Vec::new();
        permissions.push(String::from_str("storage"));
        permissions.push(String::from_str("tabs"));
        let mut content_scripts: Vec<String> = Vec::new();
        content_scripts.push(String::from_str("content.js"));
        ExtensionManifest { permissions, content_scripts }
    }
}

impl ExtensionManifest {
    pub fn duplicate(&self) -> (r: ExtensionManifest)
        ensures
            r.permissions@ == self.permissions@,
            r.content_scripts@ == self.content_scripts@,
    {
        ExtensionManifest { permissions: dup_strings(&self.permissions), content_scripts: dup_strings(&self.content_scripts) }
    }
}

fn dup_strings(v: &Vec<String>) -> (r: Vec<String>)
    ensures
        r@ == v@,
{
    let mut out: Vec<String> = Vec::new();
    let mut i: usize = 0;
    while i < v.len()
        invariant
            i <= v@.len(),
            out@ == v@.subrange(0, i as int),
        decreases v@.len() - i,
    {
        out.push(v[i].clone());
        i = i + 1;
        assert(out@ =~= v@.subrange(0, i as int));
    }
    assert(out@ =~= v@);
    out
}

pub struct BrowserExtension {
    pub name: String,
    pub version: String,
    pub manifest: ExtensionManifest,
}

impl BrowserExtension {
    pub fn duplicate(&self) -> (r: BrowserExtension)
        ensures
            r.name == self.name,
            r.version == self.version,
            r.manifest.permissions@ == self.manifest.permissions@,
            r.manifest.content_scripts@ == self.manifest.content_scripts@,
    {
        BrowserExtension { name: self.name.clone(), version: self.version.clone(), manifest: self.manifest.duplicate() }
    }
}

fn extension(name: &str, version: &str) -> (r: BrowserExtension)
    ensures
        r.name@ == name@,
        r.version@ == version@,
{
    BrowserExtension { name: String::from_str(name), version: String::from_str(version), manifest: ExtensionManifest::default() }
}

/// The extensions a browser may present.
pub struct ExtensionManager {
    pub available_extensions: Vec<BrowserExtension>,
}

impl ExtensionManager {
    /// uBlock Origin, LastPass and Honey.
    pub fn new() -> (r: ExtensionManager)
        ensures
            r.available_extensions@.len() == 3,
            r.available_extensions@[0].name@ == "uBlock Origin"@,
            r.available_extensions@[0].version@ == "1.44.4"@,
            r.available_extensions@[1].name@ == "LastPass"@,
            r.available_extensions@[1].version@ == "4.95.0"@,
            r.available_extensions@[2].name@ == "Honey"@,
            r.available_extensions@[2].version@ == "13.8.3"@,
    {
        let mut available_extensions: Vec<BrowserExtension> = Vec::new();
        available_extensions.push(extension("uBlock Origin", "1.44.4"));
        available_extensions.push(extension("LastPass", "4.95.0"));
        available_extensions.push(extension("Honey", "13.8.3"));
        ExtensionManager { available_extensions }
    }

    /// The extensions at the given positions, in that order.
    pub fn extensions_at(&self, positions: &Vec<usize>) -> (r: Vec<BrowserExtension>)
        requires
            forall|i: int| 0 <= i < positions@.len() ==> positions@[i] < self.available_extensions@.len(),
        ensures
            r@.len() == positions@.len(),
            forall|i: int| 0 <= i < positions@.len() ==> (#[trigger] r@[i]).name == self.available_extensions@[positions@[i] as int].name,
    {
        let mut out: Vec<BrowserExtension> = Vec::new();
        let mut i: usize = 0;
        while i < positions.len()
            invariant
                i <= positions@.len(),
                forall|k: int| 0 <= k < positions@.len() ==> positions@[k] < self.available_extensions@.len(),
                out@.len() == i,
                forall|k: int| 0 <= k < i ==> (#[trigger] out@[k]).name == self.available_extensions@[positions@[k] as int].name,
            decreases positions@.len() - i,
        {
            out.push(self.available_extensions[positions[i]].duplicate());
            i = i + 1;
        }
        out
    }

    /// Two different extensions chosen at random.
    pub fn install_stealth_extensions(&self) -> (r: Vec<BrowserExtension>)
        requires
            self.available_extensions@.len() >= 2,
        ensures
            r@.len() == 2,
            exists|a: int, b: int| 0 <= a < self.available_extensions@.len() && 0 <= b < self.available_extensions@.len()
                && a != b && r@[0].name == self.available_extensions@[a].name && r@[1].name
                == self.available_extensions@[b].name,
    {
        let positions = sample_positions(self.available_extensions.len(), 2);
        let r = self.extensions_at(&positions);
        assert(r@[0].name == self.available_extensions@[positions@[0] as int].name);
        assert(r@[1].name == self.available_extensions@[positions@[1] as int].name);
        r
    }
}

/// Screen of a browser instance; the pixel ratio in thousandths.
#[derive(PartialEq, Eq, Structural, Debug, Clone, Copy)]
pub struct BrowserViewport {
    pub width: u32,
    pub height: u32,
    pub device_pixel_ratio_milli: u32,
}

pub open spec fn platform_user_agent(platform: Seq<char>) -> Seq<char> {
    if platform == "facebook"@ {
        "Mozilla/5.0 (Macintosh; Intel Mac OS X 10_15_7) AppleWebKit/537.36 (KHTML, like Gecko) Chrome/120.0.0.0 Safari/537.36"@
    } else if platform == "instagram"@ {
        "Mozilla/5.0 (iPhone; CPU iPhone OS 17_0 like Mac OS X) AppleWebKit/605.1.15 (KHTML, like Gecko) Version/17.0 Mobile/15E148 Safari/604.1"@
    } else if platform == "ebay"@ {
        "Mozilla/5.0 (Windows NT 10.0; Win64; x64; rv:109.0) Gecko/20100101 Firefox/121.0"@
    } else {
        "Mozilla/5.0 (Windows NT 10.0; Win64; x64) AppleWebKit/537.36 (KHTML, like Gecko) Chrome/120.0.0.0 Safari/537.36"@
    }
}

pub open spec fn platform_viewport(platform: Seq<char>) -> BrowserViewport {
    if platform == "instagram"@ {
        BrowserViewport { width: 375, height: 667, device_pixel_ratio_milli: 2000 }
    } else if platform == "facebook"@ {
        BrowserViewport { width: 1440, height: 900, device_pixel_ratio_milli: 1000 }
    } else {
        BrowserViewport { width: 1920, height: 1080, device_pixel_ratio_milli: 1000 }
    }
}

/// The user agent a platform's browsers present.
pub fn generate_platform_user_agent(platform: &str) -> (r: String)
    ensures
        r@ == platform_user_agent(platform@),
{
    if str_eq(platform, "facebook") {
        String::from_str("Mozilla/5.0 (Macintosh; Intel Mac OS X 10_15_7) AppleWebKit/537.36 (KHTML, like Gecko) Chrome/120.0.0.0 Safari/537.36")
    } else if str_eq(platform, "instagram") {
        String::from_str("Mozilla/5.0 (iPhone; CPU iPhone OS 17_0 like Mac OS X) AppleWebKit/605.1.15 (KHTML, like Gecko) Version/17.0 Mobile/15E148 Safari/604.1")
    } else if str_eq(platform, "ebay") {
        String::from_str("Mozilla/5.0 (Windows NT 10.0; Win64; x64; rv:109.0) Gecko/20100101 Firefox/121.0")
    } else {
        String::from_str("Mozilla/5.0 (Windows NT 10.0; Win64; x64) AppleWebKit/537.36 (KHTML, like Gecko) Chrome/120.0.0.0 Safari/537.36")
    }
}

/// The screen a platform's browsers present: a phone for Instagram, a
/// laptop for Facebook, a desktop otherwise.
pub fn generate_platform_viewport(platform: &str) -> (r: BrowserViewport)
    ensures
        r == platform_viewport(platform@),
{
    if str_eq(platform, "instagram") {
        BrowserViewport { width: 375, height: 667, device_pixel_ratio_milli: 2000 }
    } else if str_eq(platform, "facebook") {
        BrowserViewport { width: 1440, height: 900, device_pixel_ratio_milli: 1000 }
    } else {
        BrowserViewport { width: 1920, height: 1080, device_pixel_ratio_milli: 1000 }
    }
}

/// A fresh browser id: "browser_" and 16 random hex digits.
pub fn generate_browser_id() -> (r: String)
    ensures
        r@.len() == 24,
{
    let r = String::from_str("browser_").concat(random_hex64().as_str());
    proof {
        reveal_strlit("browser_");
    }
    r
}

/// One browser of the pool; times are clock readings in milliseconds.
pub struct StealthBrowserInstance {
    pub platform: String,
    pub browser_id: String,
    pub user_agent: String,
    pub viewport: BrowserViewport,
    pub extensions: Vec<BrowserExtension>,
    pub stealth_mode: bool,
    pub created_at_ms: u64,
    pub last_used_ms: u64,
    pub request_count: u32,
}

/// Refusal of a browser.
#[derive(PartialEq, Eq, Structural, Debug, Clone, Copy)]
pub enum BrowserPoolError {
    /// As many browsers are open as the pool allows.
    Exhausted,
}

/// Counts of the pool.
pub struct StealthBrowserStats {
    pub total_instances: u32,
    pub active_instances: u32,
    pub platform_distribution: Vec<(String, u32)>,
}

/// Idle browsers per platform, with a cap on open browsers.
pub struct BrowserPool {
    instances: Table<Vec<StealthBrowserInstance>>,
    max_instances_per_platform: usize,
    total_instances: usize,
}

/// How many browsers `platform` has idle in `m`.
pub open spec fn idle_count(m: Map<Seq<char>, Vec<StealthBrowserInstance>>, platform: Seq<char>) -> nat {
    if m.contains_key(platform) { m[platform]@.len() } else { 0 }
}

impl BrowserPool {
    pub closed spec fn wf(&self) -> bool {
        self.instances.wf() && 1 <= self.max_instances_per_platform <= usize::MAX / 4
    }

    pub closed spec fn idle(&self) -> Map<Seq<char>, Vec<StealthBrowserInstance>> {
        self.instances@
    }

    pub closed spec fn open(&self) -> nat {
        self.total_instances as nat
    }

    pub closed spec fn cap(&self) -> nat {
        self.max_instances_per_platform as nat
    }

    /// An empty pool keeping up to three idle browsers per platform and
    /// opening at most twelve.
    pub fn new() -> (r: BrowserPool)
        ensures
            r.wf(),
            r.idle().is_empty(),
            r.open() == 0,
            r.cap() == 3,
    {
        BrowserPool { instances: Table::new(), max_instances_per_platform: 3, total_instances: 0 }
    }

    /// A browser for `platform` opened at `now_ms` with the given id.
    pub fn create_new_instance(platform: &str, now_ms: u64, browser_id: String) -> (r: StealthBrowserInstance)
        ensures
            r.platform@ == platform@,
            r.browser_id == browser_id,
            r.user_agent@ == platform_user_agent(platform@),
            r.viewport == platform_viewport(platform@),
            r.extensions@.len() == 0,
            r.stealth_mode,
            r.created_at_ms == now_ms,
            r.last_used_ms == now_ms,
            r.request_count == 0,
    {
        StealthBrowserInstance {
            platform: platform.to_owned(),
            browser_id,
            user_agent: generate_platform_user_agent(platform),
            viewport: generate_platform_viewport(platform),
            extensions: Vec::new(),
            stealth_mode: true,
            created_at_ms: now_ms,
            last_used_ms: now_ms,
            request_count: 0,
        }
    }

    /// The most recently returned idle browser of `platform`; else a new one
    /// with the given id while fewer than four times the per-platform cap are
    /// open; else `Exhausted`.
    pub fn get_or_create_with(&mut self, platform: &str, now_ms: u64, browser_id: String) -> (r: Result<StealthBrowserInstance, BrowserPoolError>)
        requires
            old(self).wf(),
        ensures
            final(self).wf(),
            final(self).cap() == old(self).cap(),
            idle_count(old(self).idle(), platform@) > 0 ==> {
                &&& r matches Ok(b) && b == old(self).idle()[platform@]@.last()
                &&& final(self).open() == old(self).open()
                &&& final(self).idle().contains_key(platform@)
                &&& final(self).idle()[platform@]@ == old(self).idle()[platform@]@.drop_last()
                &&& final(self).idle().remove(platform@) == old(self).idle().remove(platform@)
            },
            idle_count(old(self).idle(), platform@) == 0 && old(self).open() < 4 * old(self).cap() ==> {
                &&& r matches Ok(b) && b.browser_id == browser_id && b.platform@ == platform@
                &&& final(self).open() == old(self).open() + 1
                &&& final(self).idle() == old(self).idle()
            },
            idle_count(old(self).idle(), platform@) == 0 && old(self).open() >= 4 * old(self).cap() ==> {
                &&& r == Err::<StealthBrowserInstance, BrowserPoolError>(BrowserPoolError::Exhausted)
                &&& final(self).open() == old(self).open()
                &&& final(self).idle() == old(self).idle()
            },
    {
        match self.instances.remove(platform) {
            Some(mut list) => {
                if list.len() > 0 {
                    let b = list.pop().unwrap();
                    self.instances.insert(platform, list);
                    proof {
                        assert(self.idle().remove(platform@) =~= old(self).idle().remove(platform@));
                    }
                    return Ok(b);
                }
                self.instances.insert(platform, list);
                proof {
                    assert(self.idle() =~= old(self).idle());
                }
            },
            None => {
                proof {
                    assert(self.idle() =~= old(self).idle());
                }
            },
        }
        if self.total_instances < self.max_instances_per_platform * 4 {
            self.total_instances = self.total_instances + 1;
            Ok(Self::create_new_instance(platform, now_ms, browser_id))
        } else {
            Err(BrowserPoolError::Exhausted)
        }
    }

    /// `get_or_create_with` with a fresh random id.
    pub fn get_or_create_browser(&mut self, platform: &str, now_ms: u64) -> (r: Result<StealthBrowserInstance, BrowserPoolError>)
        requires
            old(self).wf(),
        ensures
            final(self).wf(),
            idle_count(old(self).idle(), platform@) == 0 && old(self).open() >= 4 * old(self).cap() <==> r is Err,
    {
        self.get_or_create_with(platform, now_ms, generate_browser_id())
    }

    /// Takes a browser back: kept idle while its platform has fewer than the
    /// cap idle, otherwise closed.
    pub fn return_browser(&mut self, instance: StealthBrowserInstance)
        requires
            old(self).wf(),
            idle_count(old(self).idle(), instance.platform@) >= old(self).cap() ==> old(self).open() > 0,
        ensures
            final(self).wf(),
            final(self).cap() == old(self).cap(),
            idle_count(old(self).idle(), instance.platform@) < old(self).cap() ==> {
                &&& final(self).open() == old(self).open()
                &&& final(self).idle().contains_key(instance.platform@)
                &&& final(self).idle()[instance.platform@]@ == if old(self).idle().contains_key(instance.platform@) {
                    old(self).idle()[instance.platform@]@.push(instance)
                } else {
                    seq![instance]
                }
                &&& final(self).idle().remove(instance.platform@) == old(self).idle().remove(instance.platform@)
            },
            idle_count(old(self).idle(), instance.platform@) >= old(self).cap() ==> {
                &&& final(self).open() == old(self).open() - 1
                &&& final(self).idle() == old(self).idle()
            },
    {
        let platform = instance.platform.clone();
        let mut list = match self.instances.remove(platform.as_str()) {
            Some(l) => l,
            None => Vec::new(),
        };
        if list.len() < self.max_instances_per_platform {
            let ghost before = list@;
            list.push(instance);
            self.instances.insert(platform.as_str(), list);
            proof {
                assert(self.idle().remove(platform@) =~= old(self).idle().remove(platform@));
                if !old(self).idle().contains_key(platform@) {
                    assert(before.push(instance) =~= seq![instance]);
                }
            }
        } else {
            proof {
                assert(old(self).idle().contains_key(platform@));
            }
            self.instances.insert(platform.as_str(), list);
            proof {
                assert(self.idle() =~= old(self).idle());
            }
            self.total_instances = self.total_instances - 1;
        }
    }

    /// Open browsers, idle browsers, and idle browsers per platform in
    /// storage order.
    pub fn get_stats(&self) -> (r: StealthBrowserStats)
        requires
            self.wf(),
            self.open() <= u32::MAX,
        ensures
            r.total_instances == self.open(),
            r.platform_distribution@.len() == self.idle().len(),
            forall|i: int| 0 <= i < r.platform_distribution@.len() ==> {
                let k = (#[trigger] r.platform_distribution@[i]).0@;
                &&& self.idle().contains_key(k)
                &&& r.platform_distribution@[i].1 == if self.idle()[k]@.len() > u32::MAX { u32::MAX as nat } else { self.idle()[k]@.len() }
            },
    {
        proof {
            self.instances.lemma_entries();
        }
        let n = self.instances.len();
        let mut idle: u64 = 0;
        let mut per: Vec<(String, u32)> = Vec::new();
        let mut i: usize = 0;
        while i < n
            invariant
                n == self.instances.entries().len(),
                self.wf(),
                i <= n,
                per@.len() == i,
                forall|j: int| #![trigger self.instances.entries()[j]]
                    0 <= j < self.instances.entries().len() ==> self.instances@.contains_key(self.instances.entries()[j].0)
                        && self.instances@[self.instances.entries()[j].0] == self.instances.entries()[j].1,
                forall|j: int| 0 <= j < i ==> {
                    let k = (#[trigger] per@[j]).0@;
                    &&& k == self.instances.entries()[j].0
                    &&& per@[j].1 == if self.instances.entries()[j].1@.len() > u32::MAX { u32::MAX as nat } else { self.instances.entries()[j].1@.len() }
                },
            decreases n - i,
        {
            let count = self.instances.value_at(i).len();
            let c32: u32 = if count > u32::MAX as usize { u32::MAX } else { count as u32 };
            if idle <= u64::MAX - c32 as u64 {
                idle = idle + c32 as u64;
            }
            per.push((self.instances.key_at(i).clone(), c32));
            i = i + 1;
        }
        proof {
            assert forall|j: int| 0 <= j < per@.len() implies self.idle().contains_key((#[trigger] per@[j]).0@) by {
                assert(per@[j].0@ == self.instances.entries()[j].0);
            }
        }
        StealthBrowserStats {
            total_instances: self.total_instances as u32,
            active_instances: if idle > u32::MAX as u64 { u32::MAX } else { idle as u32 },
            platform_distribution: per,
        }
    }
}

} // verus!
