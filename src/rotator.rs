//! Regional proxy pools with sticky per-platform bindings.
use vstd::prelude::*;

use crate::proxy::{
    count_healthy, kept_proxies, probed, reported, count_true, PoolStats, PoolView, ProxyInfo,
    ProxyPool, ProxyType,
};
use crate::table::Table;
use crate::text::str_eq;

verus! {

/// Lifetime of a sticky binding, counted from its creation.
pub const SESSION_TTL_MS: u64 = 300000;

/// Region whose pool serves `platform`: marketplaces use "us", social
/// platforms and every other platform use "global".
pub open spec fn region_for(platform: Seq<char>) -> Seq<char> {
    if platform == "amazon"@ || platform == "ebay"@ {
        "us"@
    } else if platform == "facebook"@ || platform == "instagram"@ {
        "global"@
    } else {
        "global"@
    }
}

/// The region of the pool a platform is served from.
pub fn determine_optimal_region(platform: &str) -> (r: String)
    ensures
        r@ == region_for(platform@),
{
    if str_eq(platform, "amazon") || str_eq(platform, "ebay") {
        String::from_str("us")
    } else if str_eq(platform, "facebook") || str_eq(platform, "instagram") {
        String::from_str("global")
    } else {
        String::from_str("global")
    }
}

/// Which proxy a binding refers to: a pool's region and the proxy's address.
pub struct ProxyRef {
    pub region: String,
    pub host: String,
    pub port: u16,
}

/// A sticky binding of a platform to one proxy.
pub struct ProxySession {
    pub proxy: ProxyRef,
    pub created_at: u64,
    pub last_used: u64,
    pub request_count: u32,
    pub platform: String,
}

impl ProxySession {
    pub open spec fn expired_at(&self, now: u64) -> bool {
        now > self.created_at && now - self.created_at > SESSION_TTL_MS
    }

    /// Expired once more than `SESSION_TTL_MS` has passed since creation.
    pub fn is_expired(&self, now_ms: u64) -> (r: bool)
        ensures
            r == self.expired_at(now_ms),
    {
        now_ms > self.created_at && now_ms - self.created_at > SESSION_TTL_MS
    }
}

/// Rotation settings, durations in milliseconds and the failure rate in
/// parts per million.
pub struct ProxyConfig {
    pub rotation_interval_ms: u64,
    pub max_requests_per_session: u32,
    pub health_check_interval_ms: u64,
    pub max_failure_rate_ppm: u32,
}

impl Default for ProxyConfig {
    fn default() -> (r: ProxyConfig)
        ensures
            r.rotation_interval_ms == 300000,
            r.max_requests_per_session == 100,
            r.health_check_interval_ms == 60000,
            r.max_failure_rate_ppm == 200000,
    {
        ProxyConfig {
            rotation_interval_ms: 300000,
            max_requests_per_session: 100,
            health_check_interval_ms: 60000,
            max_failure_rate_ppm: 200000,
        }
    }
}

/// A configuration that cannot be run with.
#[derive(PartialEq, Eq, Structural, Debug, Clone, Copy)]
pub enum PoolConfigError {
    /// No pool holds a proxy.
    EmptyProxyList,
}

impl PoolConfigError {
    /// What was wrong, for people.
    pub fn message(&self) -> (r: &'static str)
        ensures
            r@ == "No proxy is configured in any pool"@,
    {
        "No proxy is configured in any pool"
    }
}

/// The built-in proxies of the global pool.
pub fn load_global_proxies() -> (r: Vec<ProxyInfo>)
    ensures
        r@.len() == 3,
        forall|i: int| 0 <= i < r@.len() ==> (#[trigger] r@[i]).wf() && r@[i].healthy(),
{
    let mut v: Vec<ProxyInfo> = Vec::new();
    v.push(ProxyInfo::new("192.168.1.100", 8080, ProxyType::Residential, "US", "Comcast"));
    v.push(ProxyInfo::new("192.168.1.101", 8080, ProxyType::Residential, "UK", "BT"));
    v.push(ProxyInfo::new("192.168.1.102", 8080, ProxyType::Residential, "DE", "Deutsche Telekom"));
    v
}

/// The built-in proxies of a region: two each for "US", "EU" and "ASIA",
/// none for any other.
pub fn load_regional_proxies(region: &str) -> (r: Vec<ProxyInfo>)
    ensures
        r@.len() == if region@ == "US"@ || region@ == "EU"@ || region@ == "ASIA"@ { 2int } else { 0int },
        forall|i: int| 0 <= i < r@.len() ==> (#[trigger] r@[i]).wf() && r@[i].healthy(),
{
    let mut v: Vec<ProxyInfo> = Vec::new();
    if str_eq(region, "US") {
        v.push(ProxyInfo::new("10.0.1.100", 8080, ProxyType::Residential, "US", "Verizon"));
        v.push(ProxyInfo::new("10.0.1.101", 8080, ProxyType::Residential, "US", "AT&T"));
    } else if str_eq(region, "EU") {
        v.push(ProxyInfo::new("10.0.2.100", 8080, ProxyType::Residential, "UK", "BT"));
        v.push(ProxyInfo::new("10.0.2.101", 8080, ProxyType::Residential, "DE", "Deutsche Telekom"));
    } else if str_eq(region, "ASIA") {
        v.push(ProxyInfo::new("10.0.3.100", 8080, ProxyType::Residential, "JP", "NTT"));
        v.push(ProxyInfo::new("10.0.3.101", 8080, ProxyType::Residential, "KR", "KT"));
    }
    v
}

/// Counts over all pools.
#[derive(Debug, Clone)]
pub struct ProxyStats {
    pub total_proxies: u32,
    pub healthy_proxies: u32,
    pub active_sessions: u32,
    pub rotation_count: u64,
    pub regional_stats: Vec<PoolStats>,
}

/// The first pool at or after `k` whose region is `r`, or the length.
pub open spec fn pool_index(pools: Seq<PoolView>, r: Seq<char>, k: nat) -> nat
    decreases pools.len() - k,
{
    if k >= pools.len() {
        pools.len()
    } else if pools[k as int].region == r {
        k
    } else {
        pool_index(pools, r, k + 1)
    }
}

/// The first proxy at or after `k` at `host:port`, or the length.
pub open spec fn proxy_index(ps: Seq<ProxyInfo>, host: Seq<char>, port: u16, k: nat) -> nat
    decreases ps.len() - k,
{
    if k >= ps.len() {
        ps.len()
    } else if ps[k as int].is_at(host, port) {
        k
    } else {
        proxy_index(ps, host, port, k + 1)
    }
}

pub open spec fn total_proxies(pools: Seq<PoolView>) -> nat
    decreases pools.len(),
{
    if pools.len() == 0 {
        0
    } else {
        total_proxies(pools.drop_last()) + pools.last().proxies.len()
    }
}

/// Abstract state of a `ProxyRotator`.
pub struct RotatorView {
    pub pools: Seq<PoolView>,
    pub sessions: Map<Seq<char>, ProxySession>,
    pub rotation_count: u64,
}

impl RotatorView {
    pub open spec fn wf(self) -> bool {
        forall|i: int| 0 <= i < self.pools.len() ==> #[trigger] self.pools[i].wf()
    }

    /// The live record of the proxy that `platform` is bound to, when the
    /// binding has not expired at `now` and that proxy is healthy.
    pub open spec fn sticky(self, platform: Seq<char>, now: u64) -> Option<ProxyInfo> {
        if self.sessions.contains_key(platform) {
            let s = self.sessions[platform];
            let pi = pool_index(self.pools, s.proxy.region@, 0);
            if !s.expired_at(now) && pi < self.pools.len() {
                let ps = self.pools[pi as int].proxies;
                let i = proxy_index(ps, s.proxy.host@, s.proxy.port, 0);
                if i < ps.len() && ps[i as int].healthy() {
                    Some(ps[i as int])
                } else {
                    None
                }
            } else {
                None
            }
        } else {
            None
        }
    }

    /// The state after an outcome for the proxy at `host:port` is folded
    /// into every pool.
    pub open spec fn after_report(self, host: Seq<char>, port: u16, success: bool, now: u64) -> RotatorView {
        RotatorView {
            pools: Seq::new(self.pools.len(), |i: int| PoolView {
                proxies: reported(self.pools[i].proxies, host, port, success, now),
                ..self.pools[i]
            }),
            ..self
        }
    }

    /// `new` is `self` after a rotation for `platform` at `now` that
    /// returned `r`: the next healthy proxy of the platform's pool is taken,
    /// and when there is one, the platform is bound to it afresh and the
    /// rotation is counted.
    pub open spec fn rotated(self, new: RotatorView, platform: Seq<char>, now: u64, r: Option<ProxyInfo>) -> bool {
        let pi = pool_index(self.pools, region_for(platform), 0);
        if pi >= self.pools.len() {
            r is None && new == self
        } else {
            let pv = self.pools[pi as int];
            &&& r == pv.pick()
            &&& new.pools == self.pools.update(pi as int, pv.after_pick())
            &&& match r {
                None => new.sessions == self.sessions && new.rotation_count == self.rotation_count,
                Some(p) => {
                    &&& new.sessions.contains_key(platform)
                    &&& new.sessions.remove(platform) == self.sessions.remove(platform)
                    &&& bound_to(new.sessions[platform], platform, region_for(platform), p, now)
                    &&& new.rotation_count == if self.rotation_count < u64::MAX {
                        (self.rotation_count + 1) as u64
                    } else {
                        self.rotation_count
                    }
                },
            }
        }
    }
}

/// `s` is a binding of `platform`, created at `now`, to proxy `p` of the
/// pool of `region`.
pub open spec fn bound_to(s: ProxySession, platform: Seq<char>, region: Seq<char>, p: ProxyInfo, now: u64) -> bool {
    &&& s.platform@ == platform
    &&& s.proxy.region@ == region
    &&& s.proxy.host@ == p.host@
    &&& s.proxy.port == p.port
    &&& s.created_at == now
    &&& s.last_used == now
    &&& s.request_count == 0
}

/// Regional proxy pools and the sticky bindings of platforms to proxies.
pub struct ProxyRotator {
    proxy_pools: Vec<ProxyPool>,
    active_sessions: Table<ProxySession>,
    rotation_count: u64,
    config: ProxyConfig,
}

impl View for ProxyRotator {
    type V = RotatorView;

    closed spec fn view(&self) -> RotatorView {
        RotatorView {
            pools: self.proxy_pools@.map_values(|p: ProxyPool| p@),
            sessions: self.active_sessions@,
            rotation_count: self.rotation_count,
        }
    }
}

impl ProxyRotator {
    pub closed spec fn wf(&self) -> bool {
        &&& self@.wf()
        &&& self.active_sessions.wf()
    }

    pub closed spec fn config_spec(&self) -> ProxyConfig {
        self.config
    }

    /// A rotator over `pools`, with no bindings; rejected when no pool holds
    /// a proxy.
    pub fn with_pools(pools: Vec<ProxyPool>, config: ProxyConfig) -> (r: Result<ProxyRotator, PoolConfigError>)
        requires
            forall|i: int| 0 <= i < pools@.len() ==> #[trigger] pools@[i]@.wf(),
        ensures
            (forall|i: int| 0 <= i < pools@.len() ==> (#[trigger] pools@[i])@.proxies.len() == 0) <==> r is Err,
            r matches Ok(rot) ==> {
                &&& rot.wf()
                &&& rot@.pools == pools@.map_values(|p: ProxyPool| p@)
                &&& rot@.sessions.is_empty()
                &&& rot@.rotation_count == 0
                &&& rot.config_spec() == config
            },
    {
        let mut i: usize = 0;
        let mut any = false;
        while i < pools.len()
            invariant
                i <= pools@.len(),
                any <==> exists|j: int| 0 <= j < i && (#[trigger] pools@[j])@.proxies.len() > 0,
            decreases pools@.len() - i,
        {
            if pools[i].len() > 0 {
                any = true;
            }
            i = i + 1;
        }
        if !any {
            return Err(PoolConfigError::EmptyProxyList);
        }
        Ok(ProxyRotator { proxy_pools: pools, active_sessions: Table::new(), rotation_count: 0, config })
    }

    /// A rotator over the built-in pools "global", "us", "eu" and "asia".
    pub fn new(now_ms: u64) -> (r: ProxyRotator)
        ensures
            r.wf(),
            r@.pools.len() == 4,
            r@.pools[0].region == "global"@,
            r@.pools[1].region == "us"@,
            r@.pools[2].region == "eu"@,
            r@.pools[3].region == "asia"@,
            r@.pools[0].proxies.len() == 3,
            r@.pools[1].proxies.len() == 2,
            r@.pools[2].proxies.len() == 2,
            r@.pools[3].proxies.len() == 2,
            r@.sessions.is_empty(),
            r@.rotation_count == 0,
    {
        let mut pools: Vec<ProxyPool> = Vec::new();
        pools.push(ProxyPool::new("global", load_global_proxies(), now_ms));
        pools.push(ProxyPool::new("us", load_regional_proxies("US"), now_ms));
        pools.push(ProxyPool::new("eu", load_regional_proxies("EU"), now_ms));
        pools.push(ProxyPool::new("asia", load_regional_proxies("ASIA"), now_ms));
        ProxyRotator {
            proxy_pools: pools,
            active_sessions: Table::new(),
            rotation_count: 0,
            config: ProxyConfig::default(),
        }
    }

    fn find_pool(&self, region: &str) -> (r: usize)
        ensures
            r == pool_index(self@.pools, region@, 0),
    {
        let n = self.proxy_pools.len();
        let mut i: usize = 0;
        while i < n
            invariant
                n == self@.pools.len(),
                i <= n,
                pool_index(self@.pools, region@, 0) == pool_index(self@.pools, region@, i as nat),
            decreases n - i,
        {
            if str_eq(self.proxy_pools[i].region(), region) {
                return i;
            }
            i = i + 1;
        }
        n
    }

    fn find_proxy(pool: &ProxyPool, host: &str, port: u16) -> (r: usize)
        ensures
            r == proxy_index(pool@.proxies, host@, port, 0),
    {
        let n = pool.len();
        let mut i: usize = 0;
        while i < n
            invariant
                n == pool@.proxies.len(),
                i <= n,
                proxy_index(pool@.proxies, host@, port, 0) == proxy_index(pool@.proxies, host@, port, i as nat),
            decreases n - i,
        {
            let p = pool.proxy(i);
            if p.port == port && str_eq(p.host.as_str(), host) {
                return i;
            }
            i = i + 1;
        }
        n
    }

    /// The live proxy bound to `platform`, if the binding is still valid and
    /// the proxy healthy.
    fn sticky_proxy(&self, platform: &str, now_ms: u64) -> (r: Option<ProxyInfo>)
        requires
            self.wf(),
        ensures
            r == self@.sticky(platform@, now_ms),
    {
        match self.active_sessions.get(platform) {
            None => None,
            Some(s) => {
                if s.is_expired(now_ms) {
                    return None;
                }
                let pi = self.find_pool(s.proxy.region.as_str());
                if pi >= self.proxy_pools.len() {
                    return None;
                }
                let pool = &self.proxy_pools[pi];
                let i = Self::find_proxy(pool, s.proxy.host.as_str(), s.proxy.port);
                if i < pool.len() && pool.proxy(i).is_healthy() {
                    Some(pool.proxy(i).duplicate())
                } else {
                    None
                }
            },
        }
    }

    /// Binds `platform` afresh to the next healthy proxy of its region's
    /// pool and returns that proxy; `None` when the region has no pool or
    /// its pool no healthy proxy.
    pub fn rotate_proxy_for_platform(&mut self, platform: &str, now_ms: u64) -> (r: Option<ProxyInfo>)
        requires
            old(self).wf(),
        ensures
            final(self).wf(),
            old(self)@.rotated(final(self)@, platform@, now_ms, r),
            final(self).config_spec() == old(self).config_spec(),
    {
        let region = determine_optimal_region(platform);
        let pi = self.find_pool(region.as_str());
        if pi >= self.proxy_pools.len() {
            return None;
        }
        let ghost before = self@;
        assert(self@.pools[pi as int] == self.proxy_pools@[pi as int]@);
        let picked = self.proxy_pools[pi].get_next_healthy_proxy();
        proof {
            assert(self@.pools =~= before.pools.update(pi as int, before.pools[pi as int].after_pick()));
        }
        match picked {
            None => None,
            Some(p) => {
                let session = ProxySession {
                    proxy: ProxyRef { region, host: p.host.clone(), port: p.port },
                    created_at: now_ms,
                    last_used: now_ms,
                    request_count: 0,
                    platform: platform.to_owned(),
                };
                self.active_sessions.insert(platform, session);
                if self.rotation_count < u64::MAX {
                    self.rotation_count = self.rotation_count + 1;
                }
                proof {
                    assert(self@.sessions.remove(platform@) =~= before.sessions.remove(platform@));
                }
                Some(p)
            },
        }
    }

    /// The proxy for `platform`: the bound one while its binding is valid
    /// and it is healthy, else the result of a rotation.
    pub fn get_current_proxy(&mut self, platform: &str, now_ms: u64) -> (r: Option<ProxyInfo>)
        requires
            old(self).wf(),
        ensures
            final(self).wf(),
            final(self).config_spec() == old(self).config_spec(),
            old(self)@.sticky(platform@, now_ms) is Some ==> r == old(self)@.sticky(platform@, now_ms)
                && final(self)@ == old(self)@,
            old(self)@.sticky(platform@, now_ms) is None ==> old(self)@.rotated(final(self)@, platform@, now_ms, r),
    {
        match self.sticky_proxy(platform, now_ms) {
            Some(p) => Some(p),
            None => self.rotate_proxy_for_platform(platform, now_ms),
        }
    }

    pub fn pool_count(&self) -> (r: usize)
        ensures
            r == self@.pools.len(),
    {
        self.proxy_pools.len()
    }

    /// The pool at position `i`.
    pub fn pool(&self, i: usize) -> (r: &ProxyPool)
        requires
            i < self@.pools.len(),
        ensures
            r@ == self@.pools[i as int],
    {
        &self.proxy_pools[i]
    }

    /// Number of rotations so far.
    pub fn get_rotation_count(&self) -> (r: u64)
        ensures
            r == self@.rotation_count,
    {
        self.rotation_count
    }

    pub fn get_config(&self) -> (r: &ProxyConfig)
        ensures
            *r == self.config_spec(),
    {
        &self.config
    }

    /// Appends `proxy` to the pool of `region`; nothing when there is none.
    pub fn add_proxy(&mut self, region: &str, proxy: ProxyInfo)
        requires
            old(self).wf(),
            proxy.wf(),
        ensures
            final(self).wf(),
            final(self).config_spec() == old(self).config_spec(),
            ({
                let pi = pool_index(old(self)@.pools, region@, 0);
                if pi < old(self)@.pools.len() {
                    let pv = old(self)@.pools[pi as int];
                    final(self)@ == (RotatorView {
                        pools: old(self)@.pools.update(pi as int, PoolView { proxies: pv.proxies.push(proxy), ..pv }),
                        ..old(self)@
                    })
                } else {
                    final(self)@ == old(self)@
                }
            }),
    {
        let pi = self.find_pool(region);
        if pi < self.proxy_pools.len() {
            let ghost before = self@;
            assert(self@.pools[pi as int] == self.proxy_pools@[pi as int]@);
            self.proxy_pools[pi].add_proxy(proxy);
            proof {
                let pv = before.pools[pi as int];
                assert(self@.pools =~= before.pools.update(pi as int, PoolView { proxies: pv.proxies.push(proxy), ..pv }));
            }
        }
    }

    /// Folds an outcome for the proxy at `host:port` into every pool that
    /// holds it.
    pub fn report(&mut self, host: &str, port: u16, success: bool, now_ms: u64)
        requires
            old(self).wf(),
        ensures
            final(self).wf(),
            final(self).config_spec() == old(self).config_spec(),
            final(self)@ == old(self)@.after_report(host@, port, success, now_ms),
    {
        let ghost v = self@;
        let n = self.proxy_pools.len();
        assert forall|j: int| 0 <= j < n implies #[trigger] self.proxy_pools@[j]@.wf() by {
            assert(v.pools[j] == self.proxy_pools@[j]@);
        }
        let mut i: usize = 0;
        while i < n
            invariant
                n == v.pools.len(),
                i <= n,
                v == old(self)@,
                v.wf(),
                self.config == old(self).config,
                self.active_sessions == old(self).active_sessions,
                self.rotation_count == old(self).rotation_count,
                self.proxy_pools@.len() == n,
                forall|j: int| 0 <= j < i ==> #[trigger] self.proxy_pools@[j]@ == (PoolView {
                    proxies: reported(v.pools[j].proxies, host@, port, success, now_ms),
                    ..v.pools[j]
                }),
                forall|j: int| i <= j < n ==> #[trigger] self.proxy_pools@[j]@ == v.pools[j],
                forall|j: int| 0 <= j < n ==> #[trigger] self.proxy_pools@[j]@.wf(),
            decreases n - i,
        {
            self.proxy_pools[i].report(host, port, success, now_ms);
            i = i + 1;
        }
        assert(self@.pools =~= v.after_report(host@, port, success, now_ms).pools);
    }

    /// Folds one connectivity probe result per proxy, pool by pool, into
    /// their health, and returns how many probes passed.
    pub fn health_check_all(&mut self, results: &Vec<Vec<bool>>, now_ms: u64) -> (r: u64)
        requires
            old(self).wf(),
            results@.len() == old(self)@.pools.len(),
            forall|i: int| 0 <= i < results@.len() ==> (#[trigger] results@[i])@.len() == old(self)@.pools[i].proxies.len(),
            total_proxies(old(self)@.pools) <= u32::MAX,
        ensures
            final(self).wf(),
            final(self).config_spec() == old(self).config_spec(),
            final(self)@.sessions == old(self)@.sessions,
            final(self)@.rotation_count == old(self)@.rotation_count,
            final(self)@.pools == Seq::new(old(self)@.pools.len(), |i: int| PoolView {
                proxies: probed(old(self)@.pools[i].proxies, results@[i]@, now_ms),
                last_health_check: now_ms,
                ..old(self)@.pools[i]
            }),
            r == passed_probes(results@, results@.len() as nat),
    {
        let ghost v = self@;
        let n = self.proxy_pools.len();
        assert forall|j: int| 0 <= j < n implies #[trigger] self.proxy_pools@[j]@.wf() by {
            assert(v.pools[j] == self.proxy_pools@[j]@);
        }
        let mut total: u64 = 0;
        let mut i: usize = 0;
        while i < n
            invariant
                n == v.pools.len(),
                n == results@.len(),
                i <= n,
                v == old(self)@,
                v.wf(),
                forall|j: int| 0 <= j < n ==> (#[trigger] results@[j])@.len() == v.pools[j].proxies.len(),
                total_proxies(v.pools) <= u32::MAX,
                total == passed_probes(results@, i as nat),
                total <= total_proxies(v.pools.subrange(0, i as int)),
                self.config == old(self).config,
                self.active_sessions == old(self).active_sessions,
                self.rotation_count == old(self).rotation_count,
                self.proxy_pools@.len() == n,
                forall|j: int| 0 <= j < i ==> #[trigger] self.proxy_pools@[j]@ == (PoolView {
                    proxies: probed(v.pools[j].proxies, results@[j]@, now_ms),
                    last_health_check: now_ms,
                    ..v.pools[j]
                }),
                forall|j: int| i <= j < n ==> #[trigger] self.proxy_pools@[j]@ == v.pools[j],
                forall|j: int| 0 <= j < n ==> #[trigger] self.proxy_pools@[j]@.wf(),
            decreases n - i,
        {
            proof {
                lemma_total_prefix(v.pools, i as int);
                lemma_total_prefix_le(v.pools, i as int + 1);
                lemma_count_true_le(results@[i as int]@);
            }
            let passed = self.proxy_pools[i].apply_health_results(&results[i], now_ms);
            total = total + passed as u64;
            i = i + 1;
        }
        assert(self@.pools =~= Seq::new(v.pools.len(), |i: int| PoolView {
            proxies: probed(v.pools[i].proxies, results@[i]@, now_ms),
            last_health_check: now_ms,
            ..v.pools[i]
        }));
        total
    }

    /// Drops from every pool the proxies whose score is at most one half and
    /// returns how many went.
    pub fn cleanup_unhealthy_proxies(&mut self) -> (r: u32)
        requires
            old(self).wf(),
            total_proxies(old(self)@.pools) <= u32::MAX,
        ensures
            final(self).wf(),
            final(self).config_spec() == old(self).config_spec(),
            final(self)@.sessions == old(self)@.sessions,
            final(self)@.rotation_count == old(self)@.rotation_count,
            final(self)@.pools.len() == old(self)@.pools.len(),
            forall|i: int| 0 <= i < old(self)@.pools.len() ==> {
                &&& (#[trigger] final(self)@.pools[i]).proxies == kept_proxies(old(self)@.pools[i].proxies)
                &&& final(self)@.pools[i].region == old(self)@.pools[i].region
                &&& final(self)@.pools[i].last_health_check == old(self)@.pools[i].last_health_check
            },
            r == total_proxies(old(self)@.pools) - total_proxies(final(self)@.pools),
    {
        let ghost v = self@;
        let n = self.proxy_pools.len();
        assert forall|j: int| 0 <= j < n implies #[trigger] self.proxy_pools@[j]@.wf() by {
            assert(v.pools[j] == self.proxy_pools@[j]@);
        }
        let mut removed: u32 = 0;
        let mut i: usize = 0;
        while i < n
            invariant
                n == v.pools.len(),
                i <= n,
                v == old(self)@,
                v.wf(),
                total_proxies(v.pools) <= u32::MAX,
                self.config == old(self).config,
                self.active_sessions == old(self).active_sessions,
                self.rotation_count == old(self).rotation_count,
                self.proxy_pools@.len() == n,
                forall|j: int| 0 <= j < i ==> {
                    &&& (#[trigger] self.proxy_pools@[j]@).proxies == kept_proxies(v.pools[j].proxies)
                    &&& self.proxy_pools@[j]@.region == v.pools[j].region
                    &&& self.proxy_pools@[j]@.last_health_check == v.pools[j].last_health_check
                },
                forall|j: int| i <= j < n ==> #[trigger] self.proxy_pools@[j]@ == v.pools[j],
                forall|j: int| 0 <= j < n ==> #[trigger] self.proxy_pools@[j]@.wf(),
                removed == total_proxies(v.pools.subrange(0, i as int)) - total_proxies(self@.pools.subrange(0, i as int)),
                total_proxies(self@.pools.subrange(0, i as int)) <= total_proxies(v.pools.subrange(0, i as int)),
            decreases n - i,
        {
            let ghost before = self@;
            proof {
                lemma_total_prefix(v.pools, i as int);
                lemma_total_prefix_le(v.pools, i as int + 1);
                lemma_kept_len(v.pools[i as int].proxies);
            }
            let k = self.proxy_pools[i].remove_unhealthy_proxies();
            proof {
                lemma_total_prefix(self@.pools, i as int);
                assert(self@.pools.subrange(0, i as int) =~= before.pools.subrange(0, i as int));
            }
            removed = removed + k;
            i = i + 1;
        }
        proof {
            assert(v.pools.subrange(0, n as int) =~= v.pools);
            assert(self@.pools.subrange(0, n as int) =~= self@.pools);
        }
        removed
    }

    /// Totals over all pools, with each pool's own counts.
    pub fn get_proxy_stats(&self) -> (r: ProxyStats)
        requires
            self.wf(),
            total_proxies(self@.pools) <= u32::MAX,
            self@.sessions.len() <= u32::MAX,
        ensures
            r.total_proxies == total_proxies(self@.pools),
            r.healthy_proxies == total_healthy(self@.pools),
            r.active_sessions == self@.sessions.len(),
            r.rotation_count == self@.rotation_count,
            r.regional_stats@.len() == self@.pools.len(),
            forall|i: int| 0 <= i < self@.pools.len() ==> {
                &&& (#[trigger] r.regional_stats@[i]).total_proxies == self@.pools[i].proxies.len()
                &&& r.regional_stats@[i].healthy_proxies == count_healthy(self@.pools[i].proxies)
                &&& r.regional_stats@[i].region@ == self@.pools[i].region
            },
    {
        let n = self.proxy_pools.len();
        let mut total: u32 = 0;
        let mut healthy: u32 = 0;
        let mut regional: Vec<PoolStats> = Vec::new();
        let mut i: usize = 0;
        while i < n
            invariant
                n == self@.pools.len(),
                i <= n,
                total_proxies(self@.pools) <= u32::MAX,
                total == total_proxies(self@.pools.subrange(0, i as int)),
                healthy == total_healthy(self@.pools.subrange(0, i as int)),
                healthy <= total,
                regional@.len() == i,
                forall|j: int| 0 <= j < i ==> {
                    &&& (#[trigger] regional@[j]).total_proxies == self@.pools[j].proxies.len()
                    &&& regional@[j].healthy_proxies == count_healthy(self@.pools[j].proxies)
                    &&& regional@[j].region@ == self@.pools[j].region
                },
            decreases n - i,
        {
            proof {
                lemma_total_prefix(self@.pools, i as int);
                lemma_total_prefix_le(self@.pools, i as int + 1);
                lemma_count_healthy_le(self@.pools[i as int].proxies);
                let s = self@.pools.subrange(0, i + 1);
                assert(s.drop_last() =~= self@.pools.subrange(0, i as int));
            }
            assert(self@.pools[i as int] == self.proxy_pools@[i as int]@);
            let ps = self.proxy_pools[i].get_stats();
            total = total + ps.total_proxies;
            healthy = healthy + ps.healthy_proxies;
            regional.push(ps);
            i = i + 1;
        }
        assert(self@.pools.subrange(0, n as int) =~= self@.pools);
        ProxyStats {
            total_proxies: total,
            healthy_proxies: healthy,
            active_sessions: self.active_sessions.len() as u32,
            rotation_count: self.rotation_count,
            regional_stats: regional,
        }
    }
}

/// Probes passed in the first `k` pools' results.
pub open spec fn passed_probes(results: Seq<Vec<bool>>, k: nat) -> nat
    decreases k,
{
    if k == 0 || k > results.len() {
        0
    } else {
        passed_probes(results, (k - 1) as nat) + count_true(results[k - 1]@)
    }
}

pub open spec fn total_healthy(pools: Seq<PoolView>) -> nat
    decreases pools.len(),
{
    if pools.len() == 0 {
        0
    } else {
        total_healthy(pools.drop_last()) + count_healthy(pools.last().proxies)
    }
}

proof fn lemma_total_prefix(pools: Seq<PoolView>, i: int)
    requires
        0 <= i < pools.len(),
    ensures
        total_proxies(pools.subrange(0, i + 1)) == total_proxies(pools.subrange(0, i)) + pools[i].proxies.len(),
        total_healthy(pools.subrange(0, i + 1)) == total_healthy(pools.subrange(0, i)) + count_healthy(pools[i].proxies),
{
    assert(pools.subrange(0, i + 1).drop_last() =~= pools.subrange(0, i));
}

proof fn lemma_total_prefix_le(pools: Seq<PoolView>, i: int)
    requires
        0 <= i <= pools.len(),
    ensures
        total_proxies(pools.subrange(0, i)) <= total_proxies(pools),
    decreases pools.len(),
{
    if i < pools.len() {
        lemma_total_prefix_le(pools.drop_last(), i);
        assert(pools.drop_last().subrange(0, i) =~= pools.subrange(0, i));
    } else {
        assert(pools.subrange(0, i) =~= pools);
    }
}

proof fn lemma_count_true_le(bs: Seq<bool>)
    ensures
        count_true(bs) <= bs.len(),
    decreases bs.len(),
{
    if bs.len() > 0 {
        lemma_count_true_le(bs.drop_last());
    }
}

proof fn lemma_count_healthy_le(ps: Seq<ProxyInfo>)
    ensures
        count_healthy(ps) <= ps.len(),
    decreases ps.len(),
{
    if ps.len() > 0 {
        lemma_count_healthy_le(ps.drop_last());
    }
}

proof fn lemma_kept_len(ps: Seq<ProxyInfo>)
    ensures
        kept_proxies(ps).len() <= ps.len(),
    decreases ps.len(),
{
    if ps.len() > 0 {
        lemma_kept_len(ps.drop_last());
    }
}

} // verus!
