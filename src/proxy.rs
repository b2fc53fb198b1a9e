//! Proxies, their health, and round-robin pools of them.
//!
//! A health score is held in parts per million: `HEALTH_SCALE` stands for a
//! score of 1.0 and `HEALTH_HALF` for 0.5. Each outcome moves it as an
//! exponential moving average, 0.9 old and 0.1 new, rounded down.
use vstd::prelude::*;

verus! {

pub const HEALTH_SCALE: u32 = 1000000;

pub const HEALTH_HALF: u32 = 500000;

/// Consecutive failures at which a proxy stops being healthy.
pub const MAX_FAILURES: u32 = 5;

/// One step of the health average.
pub open spec fn ema(score: int, success: bool) -> int {
    score * 9 / 10 + if success { HEALTH_SCALE / 10 } else { 0 }
}

#[derive(PartialEq, Eq, Structural, Debug, Clone, Copy)]
pub enum ProxyType {
    Residential,
    Datacenter,
    Mobile,
}

pub struct ProxyCredentials {
    pub username: String,
    pub password: String,
}

impl ProxyCredentials {
    pub fn duplicate(&self) -> (r: ProxyCredentials)
        ensures
            r == *self,
    {
        ProxyCredentials { username: self.username.clone(), password: self.password.clone() }
    }
}

/// A proxy's identity and its health record.
pub struct ProxyInfo {
    pub host: String,
    pub port: u16,
    pub proxy_type: ProxyType,
    pub country: String,
    pub isp: String,
    /// Health score in parts per million.
    pub health_score: u32,
    /// Clock reading (ms) of the last reported outcome.
    pub last_used: Option<u64>,
    pub success_count: u32,
    pub failure_count: u32,
    pub consecutive_failures: u32,
    pub credentials: Option<ProxyCredentials>,
}

impl ProxyInfo {
    pub open spec fn wf(&self) -> bool {
        self.health_score <= HEALTH_SCALE
    }

    pub open spec fn healthy(&self) -> bool {
        self.health_score > HEALTH_HALF && self.consecutive_failures < MAX_FAILURES
    }

    /// Whether this proxy is the one at `host:port`.
    pub open spec fn is_at(&self, host: Seq<char>, port: u16) -> bool {
        self.host@ == host && self.port == port
    }

    /// The record after one reported outcome at `now`.
    pub open spec fn after_report(&self, success: bool, now: u64) -> ProxyInfo {
        ProxyInfo {
            health_score: ema(self.health_score as int, success) as u32,
            last_used: Some(now),
            success_count: if success && self.success_count < u32::MAX {
                (self.success_count + 1) as u32
            } else {
                self.success_count
            },
            failure_count: if !success && self.failure_count < u32::MAX {
                (self.failure_count + 1) as u32
            } else {
                self.failure_count
            },
            consecutive_failures: if success {
                0
            } else if self.consecutive_failures < u32::MAX {
                (self.consecutive_failures + 1) as u32
            } else {
                self.consecutive_failures
            },
            ..*self
        }
    }

    /// A fresh proxy with full health and no outcomes.
    pub fn new(host: &str, port: u16, proxy_type: ProxyType, country: &str, isp: &str) -> (r:
        ProxyInfo)
        ensures
            r.host@ == host@,
            r.port == port,
            r.proxy_type == proxy_type,
            r.country@ == country@,
            r.isp@ == isp@,
            r.health_score == HEALTH_SCALE,
            r.last_used is None,
            r.success_count == 0,
            r.failure_count == 0,
            r.consecutive_failures == 0,
            r.credentials is None,
            r.wf(),
            r.healthy(),
    {
        ProxyInfo {
            host: host.to_owned(),
            port,
            proxy_type,
            country: country.to_owned(),
            isp: isp.to_owned(),
            health_score: HEALTH_SCALE,
            last_used: None,
            success_count: 0,
            failure_count: 0,
            consecutive_failures: 0,
            credentials: None,
        }
    }

    pub fn duplicate(&self) -> (r: ProxyInfo)
        ensures
            r == *self,
    {
        let credentials = match &self.credentials {
            Some(c) => Some(c.duplicate()),
            None => None,
        };
        ProxyInfo {
            host: self.host.clone(),
            port: self.port,
            proxy_type: self.proxy_type,
            country: self.country.clone(),
            isp: self.isp.clone(),
            health_score: self.health_score,
            last_used: self.last_used,
            success_count: self.success_count,
            failure_count: self.failure_count,
            consecutive_failures: self.consecutive_failures,
            credentials,
        }
    }

    /// Healthy: score above one half and fewer than `MAX_FAILURES`
    /// consecutive failures.
    pub fn is_healthy(&self) -> (r: bool)
        ensures
            r == self.healthy(),
    {
        self.health_score > HEALTH_HALF && self.consecutive_failures < MAX_FAILURES
    }

    /// Folds one outcome into the record: the score becomes
    /// `score * 0.9 + (success ? 0.1 : 0)`, the matching counter grows, and
    /// the outcome is stamped with `now_ms`.
    pub fn update_health(&mut self, success: bool, now_ms: u64)
        requires
            old(self).wf(),
        ensures
            *final(self) == old(self).after_report(success, now_ms),
            final(self).wf(),
    {
        let base = self.health_score * 9 / 10;
        if success {
            self.health_score = base + HEALTH_SCALE / 10;
            if self.success_count < u32::MAX {
                self.success_count = self.success_count + 1;
            }
            self.consecutive_failures = 0;
        } else {
            self.health_score = base;
            if self.failure_count < u32::MAX {
                self.failure_count = self.failure_count + 1;
            }
            if self.consecutive_failures < u32::MAX {
                self.consecutive_failures = self.consecutive_failures + 1;
            }
        }
        self.last_used = Some(now_ms);
    }
}

/// The score after `n` outcomes that are all `success`.
pub open spec fn ema_n(score: int, success: bool, n: nat) -> int
    decreases n,
{
    if n == 0 {
        score
    } else {
        ema(ema_n(score, success, (n - 1) as nat), success)
    }
}

proof fn lemma_ema_monotone(a: int, b: int, success: bool)
    requires
        0 <= a <= b,
    ensures
        0 <= ema(a, success) <= ema(b, success),
{
    assert(a * 9 / 10 <= b * 9 / 10) by (nonlinear_arith)
        requires
            0 <= a <= b,
    ;
}

proof fn lemma_failures_decrease(score: int, n: nat, m: nat)
    requires
        score >= 0,
        n <= m,
    ensures
        0 <= ema_n(score, false, m) <= ema_n(score, false, n),
    decreases m,
{
    if m > n {
        lemma_failures_decrease(score, n, (m - 1) as nat);
    }
    if m > 0 {
        lemma_failures_decrease(score, (m - 1) as nat, (m - 1) as nat);
    }
}

proof fn lemma_successes_monotone(a: int, b: int, n: nat)
    requires
        0 <= a <= b,
    ensures
        0 <= ema_n(a, true, n) <= ema_n(b, true, n),
    decreases n,
{
    if n > 0 {
        lemma_successes_monotone(a, b, (n - 1) as nat);
        lemma_ema_monotone(ema_n(a, true, (n - 1) as nat), ema_n(b, true, (n - 1) as nat), true);
    }
}

/// Health falls below one half after seven consecutive failures from full
/// health, and not before: the score stays above one half exactly while
/// fewer than seven failures have been folded in.
pub proof fn lemma_failures_cross_half(n: nat)
    ensures
        ema_n(HEALTH_SCALE as int, false, n) > HEALTH_HALF <==> n < 7,
{
    let s = HEALTH_SCALE as int;
    assert(ema_n(s, false, 0) == 1000000);
    assert(ema_n(s, false, 1) == 900000);
    assert(ema_n(s, false, 2) == 810000);
    assert(ema_n(s, false, 3) == 729000);
    assert(ema_n(s, false, 4) == 656100);
    assert(ema_n(s, false, 5) == 590490);
    assert(ema_n(s, false, 6) == 531441);
    assert(ema_n(s, false, 7) == 478296);
    if n < 7 {
        lemma_failures_decrease(s, n, 6);
    } else {
        lemma_failures_decrease(s, 7, n);
    }
}

/// From any score, seven consecutive successes bring health above one half.
pub proof fn lemma_successes_restore(score: int)
    requires
        0 <= score <= HEALTH_SCALE,
    ensures
        ema_n(score, true, 7) > HEALTH_HALF,
{
    assert(ema_n(0, true, 0) == 0);
    assert(ema_n(0, true, 1) == 100000);
    assert(ema_n(0, true, 2) == 190000);
    assert(ema_n(0, true, 3) == 271000);
    assert(ema_n(0, true, 4) == 343900);
    assert(ema_n(0, true, 5) == 409510);
    assert(ema_n(0, true, 6) == 468559);
    assert(ema_n(0, true, 7) == 521703);
    lemma_successes_monotone(0, score, 7);
}

/// Position `k` steps after `c` in a ring of `n` slots (`c < n`, `k <= n`).
pub open spec fn slot(c: int, k: int, n: int) -> int {
    if c + k < n { c + k } else { c + k - n }
}

/// The first offset at or after `k` from `start` whose proxy is healthy, or
/// the length when there is none.
pub open spec fn first_healthy(ps: Seq<ProxyInfo>, start: int, k: nat) -> nat
    decreases ps.len() - k,
{
    if k >= ps.len() {
        ps.len()
    } else if ps[slot(start, k as int, ps.len() as int)].healthy() {
        k
    } else {
        first_healthy(ps, start, k + 1)
    }
}

/// Abstract state of a `ProxyPool`.
pub struct PoolView {
    pub proxies: Seq<ProxyInfo>,
    pub cursor: int,
    pub region: Seq<char>,
    pub last_health_check: u64,
}

impl PoolView {
    pub open spec fn wf(self) -> bool {
        &&& if self.proxies.len() == 0 { self.cursor == 0 } else { 0 <= self.cursor < self.proxies.len() }
        &&& forall|i: int| 0 <= i < self.proxies.len() ==> #[trigger] self.proxies[i].wf()
    }

    pub open spec fn offset(self) -> nat {
        first_healthy(self.proxies, self.cursor, 0)
    }

    /// What the next selection returns.
    pub open spec fn pick(self) -> Option<ProxyInfo> {
        if self.offset() < self.proxies.len() {
            Some(self.proxies[slot(self.cursor, self.offset() as int, self.proxies.len() as int)])
        } else {
            None
        }
    }

    /// The pool after the next selection: the cursor moves one past the
    /// proxy returned, or around the whole ring when none is healthy.
    pub open spec fn after_pick(self) -> PoolView {
        if self.offset() < self.proxies.len() {
            PoolView {
                cursor: slot(self.cursor, (self.offset() + 1) as int, self.proxies.len() as int),
                ..self
            }
        } else {
            self
        }
    }
}

/// Every entry at `host:port` after one reported outcome.
pub open spec fn reported(ps: Seq<ProxyInfo>, host: Seq<char>, port: u16, success: bool, now: u64) -> Seq<ProxyInfo> {
    Seq::new(ps.len(), |i: int| if ps[i].is_at(host, port) { ps[i].after_report(success, now) } else { ps[i] })
}

/// Each proxy after its own probe result.
pub open spec fn probed(ps: Seq<ProxyInfo>, results: Seq<bool>, now: u64) -> Seq<ProxyInfo> {
    Seq::new(ps.len(), |i: int| ps[i].after_report(results[i], now))
}

pub open spec fn count_true(bs: Seq<bool>) -> nat
    decreases bs.len(),
{
    if bs.len() == 0 {
        0
    } else {
        count_true(bs.drop_last()) + if bs.last() { 1nat } else { 0nat }
    }
}

/// Counts of one pool.
#[derive(Debug, Clone)]
pub struct PoolStats {
    pub total_proxies: u32,
    pub healthy_proxies: u32,
    pub region: String,
}

pub open spec fn count_healthy(ps: Seq<ProxyInfo>) -> nat
    decreases ps.len(),
{
    if ps.len() == 0 {
        0
    } else {
        count_healthy(ps.drop_last()) + if ps.last().healthy() { 1nat } else { 0nat }
    }
}

/// The proxies whose score is above one half, in order.
pub open spec fn kept_proxies(ps: Seq<ProxyInfo>) -> Seq<ProxyInfo>
    decreases ps.len(),
{
    if ps.len() == 0 {
        ps
    } else if ps.last().health_score > HEALTH_HALF {
        kept_proxies(ps.drop_last()).push(ps.last())
    } else {
        kept_proxies(ps.drop_last())
    }
}

/// The proxies of one region, selected round-robin.
pub struct ProxyPool {
    proxies: Vec<ProxyInfo>,
    current_index: usize,
    region: String,
    last_health_check: u64,
}

impl View for ProxyPool {
    type V = PoolView;

    closed spec fn view(&self) -> PoolView {
        PoolView {
            proxies: self.proxies@,
            cursor: self.current_index as int,
            region: self.region@,
            last_health_check: self.last_health_check,
        }
    }
}

impl ProxyPool {
    /// A pool of `region` holding `proxies`, with the cursor at the first.
    pub fn new(region: &str, proxies: Vec<ProxyInfo>, now_ms: u64) -> (r: ProxyPool)
        requires
            forall|i: int| 0 <= i < proxies@.len() ==> #[trigger] proxies@[i].wf(),
        ensures
            r@ == (PoolView { proxies: proxies@, cursor: 0, region: region@, last_health_check: now_ms }),
            r@.wf(),
    {
        ProxyPool { proxies, current_index: 0, region: region.to_owned(), last_health_check: now_ms }
    }

    pub fn len(&self) -> (r: usize)
        ensures
            r == self@.proxies.len(),
    {
        self.proxies.len()
    }

    pub fn region(&self) -> (r: &str)
        ensures
            r@ == self@.region,
    {
        self.region.as_str()
    }

    /// Milliseconds from the last health check to `now_ms` (0 if the clock
    /// reads earlier).
    pub fn time_since_last_health_check(&self, now_ms: u64) -> (r: u64)
        ensures
            r == if now_ms >= self@.last_health_check { (now_ms - self@.last_health_check) as u64 } else { 0 },
    {
        if now_ms >= self.last_health_check {
            now_ms - self.last_health_check
        } else {
            0
        }
    }

    /// The proxy at position `i`.
    pub fn proxy(&self, i: usize) -> (r: &ProxyInfo)
        requires
            i < self@.proxies.len(),
        ensures
            *r == self@.proxies[i as int],
    {
        &self.proxies[i]
    }

    /// The next healthy proxy in round-robin order, starting at the cursor.
    /// The cursor moves past every proxy looked at, so unhealthy ones are
    /// skipped but come back once they recover; `None` after a full cycle
    /// without a healthy one.
    pub fn get_next_healthy_proxy(&mut self) -> (r: Option<ProxyInfo>)
        requires
            old(self)@.wf(),
        ensures
            r == old(self)@.pick(),
            final(self)@ == old(self)@.after_pick(),
            final(self)@.wf(),
    {
        let n = self.proxies.len();
        if n == 0 {
            return None;
        }
        let ghost v = self@;
        let start = self.current_index;
        let mut idx = start;
        let mut k: usize = 0;
        while k < n
            invariant
                n == v.proxies.len(),
                n > 0,
                self@ == v,
                v == old(self)@,
                v.wf(),
                start == v.cursor,
                start < n,
                k <= n,
                idx == slot(start as int, k as int, n as int),
                k < n ==> idx < n,
                first_healthy(v.proxies, start as int, 0) == first_healthy(v.proxies, start as int, k as nat),
            decreases n - k,
        {
            if self.proxies[idx].is_healthy() {
                assert(first_healthy(v.proxies, start as int, k as nat) == k);
                let r = self.proxies[idx].duplicate();
                self.current_index = if idx + 1 == n { 0 } else { idx + 1 };
                assert(self@ =~= v.after_pick());
                return Some(r);
            }
            idx = if idx + 1 == n { 0 } else { idx + 1 };
            k = k + 1;
        }
        None
    }

    /// Appends a proxy; a duplicate host and port is kept as a second entry.
    pub fn add_proxy(&mut self, proxy: ProxyInfo)
        requires
            old(self)@.wf(),
            proxy.wf(),
        ensures
            final(self)@ == (PoolView { proxies: old(self)@.proxies.push(proxy), ..old(self)@ }),
            final(self)@.wf(),
    {
        self.proxies.push(proxy);
    }

    /// Drops every proxy whose score is at most one half and returns how many
    /// went. The cursor stays where it was if still in range, else returns
    /// to the first proxy.
    pub fn remove_unhealthy_proxies(&mut self) -> (r: u32)
        requires
            old(self)@.wf(),
            old(self)@.proxies.len() <= u32::MAX,
        ensures
            final(self)@.proxies == kept_proxies(old(self)@.proxies),
            final(self)@.region == old(self)@.region,
            final(self)@.last_health_check == old(self)@.last_health_check,
            final(self)@.wf(),
            r == old(self)@.proxies.len() - final(self)@.proxies.len(),
    {
        let ghost ps = self.proxies@;
        let mut kept: Vec<ProxyInfo> = Vec::new();
        let mut i: usize = 0;
        assert(kept_proxies(ps.subrange(0, 0)) =~= Seq::<ProxyInfo>::empty());
        while i < self.proxies.len()
            invariant
                self.proxies@ == ps,
                old(self)@.wf(),
                ps == old(self)@.proxies,
                i <= ps.len(),
                kept@ == kept_proxies(ps.subrange(0, i as int)),
                kept@.len() <= i,
                forall|j: int| 0 <= j < kept@.len() ==> #[trigger] kept@[j].wf(),
            decreases ps.len() - i,
        {
            proof {
                assert(ps.subrange(0, i + 1).drop_last() =~= ps.subrange(0, i as int));
                assert(ps.subrange(0, i + 1).last() == ps[i as int]);
                assert(ps[i as int].wf());
            }
            if self.proxies[i].health_score > HEALTH_HALF {
                kept.push(self.proxies[i].duplicate());
            }
            i = i + 1;
        }
        assert(ps.subrange(0, ps.len() as int) =~= ps);
        let removed = (self.proxies.len() - kept.len()) as u32;
        self.proxies = kept;
        if self.current_index >= self.proxies.len() {
            self.current_index = 0;
        }
        removed
    }

    /// Folds an outcome into every entry at `host:port`.
    pub fn report(&mut self, host: &str, port: u16, success: bool, now_ms: u64)
        requires
            old(self)@.wf(),
        ensures
            final(self)@ == (PoolView { proxies: reported(old(self)@.proxies, host@, port, success, now_ms), ..old(self)@ }),
            final(self)@.wf(),
    {
        let ghost ps = self.proxies@;
        let n = self.proxies.len();
        let mut i: usize = 0;
        while i < n
            invariant
                n == ps.len(),
                i <= n,
                self.proxies@.len() == n,
                self@.cursor == old(self)@.cursor,
                self@.region == old(self)@.region,
                self@.last_health_check == old(self)@.last_health_check,
                ps == old(self)@.proxies,
                old(self)@.wf(),
                forall|j: int| 0 <= j < i ==> #[trigger] self.proxies@[j] == reported(ps, host@, port, success, now_ms)[j],
                forall|j: int| i <= j < n ==> #[trigger] self.proxies@[j] == ps[j],
                forall|j: int| 0 <= j < n ==> #[trigger] self.proxies@[j].wf(),
            decreases n - i,
        {
            assert(ps[i as int].wf());
            if self.proxies[i].port == port && crate::text::str_eq(self.proxies[i].host.as_str(), host) {
                self.proxies[i].update_health(success, now_ms);
            }
            i = i + 1;
        }
        assert(self.proxies@ =~= reported(ps, host@, port, success, now_ms));
    }

    /// Folds one probe result per proxy, in order, into their health, stamps
    /// the check with `now_ms`, and returns how many probes passed.
    pub fn apply_health_results(&mut self, results: &Vec<bool>, now_ms: u64) -> (r: u32)
        requires
            old(self)@.wf(),
            results@.len() == old(self)@.proxies.len(),
            results@.len() <= u32::MAX,
        ensures
            final(self)@ == (PoolView {
                proxies: probed(old(self)@.proxies, results@, now_ms),
                last_health_check: now_ms,
                ..old(self)@
            }),
            final(self)@.wf(),
            r == count_true(results@),
    {
        let ghost ps = self.proxies@;
        let n = self.proxies.len();
        let mut passed: u32 = 0;
        let mut i: usize = 0;
        while i < n
            invariant
                n == ps.len(),
                n == results@.len(),
                n <= u32::MAX,
                i <= n,
                passed <= i,
                passed == count_true(results@.subrange(0, i as int)),
                self.proxies@.len() == n,
                self@.cursor == old(self)@.cursor,
                self@.region == old(self)@.region,
                self@.last_health_check == old(self)@.last_health_check,
                ps == old(self)@.proxies,
                old(self)@.wf(),
                forall|j: int| 0 <= j < i ==> #[trigger] self.proxies@[j] == probed(ps, results@, now_ms)[j],
                forall|j: int| i <= j < n ==> #[trigger] self.proxies@[j] == ps[j],
                forall|j: int| 0 <= j < n ==> #[trigger] self.proxies@[j].wf(),
            decreases n - i,
        {
            assert(ps[i as int].wf());
            assert(results@.subrange(0, i + 1).drop_last() =~= results@.subrange(0, i as int));
            let ok = results[i];
            self.proxies[i].update_health(ok, now_ms);
            if ok {
                passed = passed + 1;
            }
            i = i + 1;
        }
        assert(results@.subrange(0, n as int) =~= results@);
        self.last_health_check = now_ms;
        assert(self.proxies@ =~= probed(ps, results@, now_ms));
        passed
    }

    /// Totals of the pool; healthy as `is_healthy` defines it.
    pub fn get_stats(&self) -> (r: PoolStats)
        requires
            self@.proxies.len() <= u32::MAX,
        ensures
            r.total_proxies == self@.proxies.len(),
            r.healthy_proxies == count_healthy(self@.proxies),
            r.region@ == self@.region,
    {
        let mut healthy: u32 = 0;
        let mut i: usize = 0;
        while i < self.proxies.len()
            invariant
                i <= self@.proxies.len() <= u32::MAX,
                healthy == count_healthy(self@.proxies.subrange(0, i as int)),
                healthy <= i,
            decreases self@.proxies.len() - i,
        {
            proof {
                let s = self@.proxies.subrange(0, i + 1);
                assert(s.drop_last() =~= self@.proxies.subrange(0, i as int));
            }
            if self.proxies[i].is_healthy() {
                healthy = healthy + 1;
            }
            i = i + 1;
        }
        assert(self@.proxies.subrange(0, i as int) =~= self@.proxies);
        PoolStats {
            total_proxies: self.proxies.len() as u32,
            healthy_proxies: healthy,
            region: self.region.clone(),
        }
    }
}

/// Exhaustion: when no proxy of a pool has a score above one half, the next
/// selection returns `None` and leaves the pool as it was.
pub proof fn lemma_exhausted_pool_yields_none(v: PoolView)
    requires
        v.wf(),
        forall|i: int| 0 <= i < v.proxies.len() ==> #[trigger] v.proxies[i].health_score <= HEALTH_HALF,
    ensures
        v.pick() is None,
        v.after_pick() == v,
{
    lemma_no_healthy_from(v, 0);
}

proof fn lemma_no_healthy_from(v: PoolView, k: nat)
    requires
        v.wf(),
        forall|i: int| 0 <= i < v.proxies.len() ==> !(#[trigger] v.proxies[i].healthy()),
    ensures
        k <= v.proxies.len() ==> first_healthy(v.proxies, v.cursor, k) == v.proxies.len(),
    decreases v.proxies.len() - k,
{
    if k < v.proxies.len() {
        let j = slot(v.cursor, k as int, v.proxies.len() as int);
        assert(!v.proxies[j].healthy());
        lemma_no_healthy_from(v, k + 1);
    }
}

/// Round-robin skip: in a pool of three whose second proxy is unhealthy,
/// selections from the first position return the first, then the third, and
/// the pool is back where it started, so the pair repeats.
pub proof fn lemma_round_robin_skip(v: PoolView)
    requires
        v.wf(),
        v.proxies.len() == 3,
        v.cursor == 0,
        v.proxies[0].healthy(),
        !v.proxies[1].healthy(),
        v.proxies[2].healthy(),
    ensures
        v.pick() == Some(v.proxies[0]),
        v.after_pick().pick() == Some(v.proxies[2]),
        v.after_pick().after_pick() == v,
{
    let w = v.after_pick();
    assert(first_healthy(v.proxies, 0, 0) == 0);
    assert(w.cursor == 1);
    assert(first_healthy(w.proxies, 1, 1) == 1);
    assert(first_healthy(w.proxies, 1, 0) == 1);
    assert(w.after_pick() =~= v);
}

/// Recovery: once all three proxies of such a pool are healthy again, a full
/// cycle from the first position returns each of them in turn.
pub proof fn lemma_recovered_proxy_rejoins(v: PoolView)
    requires
        v.wf(),
        v.proxies.len() == 3,
        v.cursor == 0,
        v.proxies[0].healthy(),
        v.proxies[1].healthy(),
        v.proxies[2].healthy(),
    ensures
        v.pick() == Some(v.proxies[0]),
        v.after_pick().pick() == Some(v.proxies[1]),
        v.after_pick().after_pick().pick() == Some(v.proxies[2]),
        v.after_pick().after_pick().after_pick() == v,
{
    let w1 = v.after_pick();
    assert(first_healthy(v.proxies, 0, 0) == 0);
    assert(first_healthy(w1.proxies, 1, 0) == 0);
    let w2 = w1.after_pick();
    assert(first_healthy(w2.proxies, 2, 0) == 0);
    assert(w2.after_pick() =~= v);
}

} // verus!
