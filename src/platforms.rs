//! Which platform scraper handles a URL.
use vstd::prelude::*;

use crate::text::{contains, has_infix, has_prefix, starts_with};

verus! {

/// Settings shared by the platform scrapers.
pub struct ScraperConfig {
    pub max_concurrent: usize,
    pub timeout_secs: u64,
    /// Requests per second.
    pub rate_limit: u32,
    pub user_agent: String,
    pub headers: Vec<(String, String)>,
}

impl Default for ScraperConfig {
    fn default() -> (r: ScraperConfig)
        ensures
            r.max_concurrent == 10,
            r.timeout_secs == 30,
            r.rate_limit == 1,
            r.user_agent@ == "Mozilla/5.0 (X11; Linux x86_64; rv:91.0) Gecko/20100101 Firefox/91.0"@,
            r.headers@.len() == 4,
    {
        let mut headers: Vec<(String, String)> = Vec::new();
        headers.push((String::from_str("Accept"), String::from_str("text/html,application/xhtml+xml,application/xml;q=0.9,*/*;q=0.8")));
        headers.push((String::from_str("Accept-Language"), String::from_str("en-US,en;q=0.5")));
        headers.push((String::from_str("Accept-Encoding"), String::from_str("gzip, deflate")));
        headers.push((String::from_str("Cache-Control"), String::from_str("no-cache")));
        ScraperConfig {
            max_concurrent: 10,
            timeout_secs: 30,
            rate_limit: 1,
            user_agent: String::from_str("Mozilla/5.0 (X11; Linux x86_64; rv:91.0) Gecko/20100101 Firefox/91.0"),
            headers,
        }
    }
}

/// The platforms that have a scraper.
#[derive(PartialEq, Eq, Structural, Debug, Clone, Copy)]
pub enum PlatformKind {
    Facebook,
    Instagram,
    LinkedIn,
    Generic,
}

pub open spec fn handles(kind: PlatformKind, url: Seq<char>) -> bool {
    match kind {
        PlatformKind::Facebook => has_infix(url, "facebook.com"@) || has_infix(url, "fb.com"@),
        PlatformKind::Instagram => has_infix(url, "instagram.com"@),
        PlatformKind::LinkedIn => has_infix(url, "linkedin.com"@),
        PlatformKind::Generic => has_prefix(url, "http://"@) || has_prefix(url, "https://"@),
    }
}

impl PlatformKind {
    /// Whether this platform's scraper takes `url`.
    pub fn can_handle(&self, url: &str) -> (r: bool)
        ensures
            r == handles(*self, url@),
    {
        match self {
            PlatformKind::Facebook => contains(url, "facebook.com") || contains(url, "fb.com"),
            PlatformKind::Instagram => contains(url, "instagram.com"),
            PlatformKind::LinkedIn => contains(url, "linkedin.com"),
            PlatformKind::Generic => starts_with(url, "http://") || starts_with(url, "https://"),
        }
    }

    pub fn platform_name(&self) -> (r: &'static str)
        ensures
            r@ == match *self {
                PlatformKind::Facebook => "facebook"@,
                PlatformKind::Instagram => "instagram"@,
                PlatformKind::LinkedIn => "linkedin"@,
                PlatformKind::Generic => "generic"@,
            },
    {
        match self {
            PlatformKind::Facebook => "facebook",
            PlatformKind::Instagram => "instagram",
            PlatformKind::LinkedIn => "linkedin",
            PlatformKind::Generic => "generic",
        }
    }
}

/// The scraper for any http or https URL.
pub struct GenericScraper {
    pub config: ScraperConfig,
}

impl GenericScraper {
    pub fn new(config: ScraperConfig) -> (r: GenericScraper)
        ensures
            r.config == config,
    {
        GenericScraper { config }
    }

    pub fn can_handle(&self, url: &str) -> (r: bool)
        ensures
            r == handles(PlatformKind::Generic, url@),
    {
        PlatformKind::Generic.can_handle(url)
    }

    pub fn platform_name(&self) -> (r: &'static str)
        ensures
            r@ == "generic"@,
    {
        PlatformKind::Generic.platform_name()
    }
}

/// The scraper for Facebook pages.
pub struct FacebookScraper {
    pub config: ScraperConfig,
}

impl FacebookScraper {
    pub fn new(config: ScraperConfig) -> (r: FacebookScraper)
        ensures
            r.config == config,
    {
        FacebookScraper { config }
    }

    pub fn can_handle(&self, url: &str) -> (r: bool)
        ensures
            r == handles(PlatformKind::Facebook, url@),
    {
        PlatformKind::Facebook.can_handle(url)
    }

    pub fn platform_name(&self) -> (r: &'static str)
        ensures
            r@ == "facebook"@,
    {
        PlatformKind::Facebook.platform_name()
    }
}

/// The first registered platform that takes `url`, from position `k` on.
pub open spec fn first_handler(kinds: Seq<PlatformKind>, url: Seq<char>, k: nat) -> Option<PlatformKind>
    decreases kinds.len() - k,
{
    if k >= kinds.len() {
        None
    } else if handles(kinds[k as int], url) {
        Some(kinds[k as int])
    } else {
        first_handler(kinds, url, k + 1)
    }
}

/// Platform scrapers in the order they are tried.
pub struct ScraperRegistry {
    pub scrapers: Vec<PlatformKind>,
}

impl ScraperRegistry {
    pub fn new() -> (r: ScraperRegistry)
        ensures
            r.scrapers@.len() == 0,
    {
        ScraperRegistry { scrapers: Vec::new() }
    }

    pub fn register(&mut self, kind: PlatformKind)
        ensures
            final(self).scrapers@ == old(self).scrapers@.push(kind),
    {
        self.scrapers.push(kind);
    }

    /// The first registered platform whose scraper takes `url`.
    pub fn find_scraper(&self, url: &str) -> (r: Option<PlatformKind>)
        ensures
            r == first_handler(self.scrapers@, url@, 0),
    {
        let mut i: usize = 0;
        while i < self.scrapers.len()
            invariant
                i <= self.scrapers@.len(),
                first_handler(self.scrapers@, url@, 0) == first_handler(self.scrapers@, url@, i as nat),
            decreases self.scrapers@.len() - i,
        {
            if self.scrapers[i].can_handle(url) {
                return Some(self.scrapers[i]);
            }
            i = i + 1;
        }
        None
    }
}

impl Default for ScraperRegistry {
    /// The specialised scrapers first, the generic one last.
    fn default() -> (r: ScraperRegistry)
        ensures
            r.scrapers@ == seq![PlatformKind::Facebook, PlatformKind::Instagram, PlatformKind::LinkedIn, PlatformKind::Generic],
    {
        let mut r = ScraperRegistry::new();
        r.register(PlatformKind::Facebook);
        r.register(PlatformKind::Instagram);
        r.register(PlatformKind::LinkedIn);
        r.register(PlatformKind::Generic);
        assert(r.scrapers@ =~= seq![PlatformKind::Facebook, PlatformKind::Instagram, PlatformKind::LinkedIn, PlatformKind::Generic]);
        r
    }
}

} // verus!
