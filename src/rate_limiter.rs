//! Token-bucket rate limiting, per destination domain and globally.
//!
//! Time is a millisecond clock reading supplied by the caller. A bucket keeps
//! its level in milli-tokens, so refilling at `quota` tokens per second adds
//! exactly `quota` milli-tokens per elapsed millisecond.
use vstd::prelude::*;

use crate::text::str_eq;

verus! {

/// Milli-tokens in one token; also the capacity of every bucket.
pub const TOKEN: u64 = 1000;

pub open spec fn min_int(a: int, b: int) -> int {
    if a <= b { a } else { b }
}

pub open spec fn max_int(a: int, b: int) -> int {
    if a >= b { a } else { b }
}

/// A token bucket holding at most one token, refilled continuously.
pub struct TokenBucket {
    /// Tokens per second.
    pub quota: u64,
    /// Available milli-tokens.
    pub level: u64,
    /// Clock reading of the last refill.
    pub last_ms: u64,
}

impl TokenBucket {
    pub open spec fn wf(&self) -> bool {
        &&& 1 <= self.quota <= u32::MAX
        &&& self.level <= TOKEN
    }

    /// Milli-tokens available at `now`.
    pub open spec fn level_at(&self, now: u64) -> int {
        if now <= self.last_ms {
            self.level as int
        } else {
            min_int(TOKEN as int, self.level + (now - self.last_ms) * self.quota)
        }
    }

    pub open spec fn clock_after(&self, now: u64) -> u64 {
        if now <= self.last_ms { self.last_ms } else { now }
    }

    pub open spec fn can_grant(&self, now: u64) -> bool {
        self.level_at(now) >= TOKEN
    }

    /// Milliseconds until a token is available, rounded up.
    pub open spec fn wait_at(&self, now: u64) -> int {
        if self.can_grant(now) {
            0
        } else {
            (TOKEN - self.level_at(now) + self.quota - 1) / (self.quota as int)
        }
    }

    /// The bucket after taking one token at `now`.
    pub open spec fn after_grant(&self, now: u64) -> TokenBucket {
        TokenBucket {
            quota: self.quota,
            level: (self.level_at(now) - TOKEN) as u64,
            last_ms: self.clock_after(now),
        }
    }

    /// A full bucket created at `now`.
    pub open spec fn fresh(quota: u64, now: u64) -> TokenBucket {
        TokenBucket { quota, level: TOKEN, last_ms: now }
    }

    pub fn new(quota: u32, now_ms: u64) -> (b: TokenBucket)
        requires
            quota >= 1,
        ensures
            b == TokenBucket::fresh(quota as u64, now_ms),
            b.wf(),
    {
        TokenBucket { quota: quota as u64, level: TOKEN, last_ms: now_ms }
    }

    fn current_level(&self, now_ms: u64) -> (r: u64)
        requires
            self.wf(),
        ensures
            r == self.level_at(now_ms),
            r <= TOKEN,
    {
        if now_ms <= self.last_ms {
            self.level
        } else {
            let elapsed = now_ms - self.last_ms;
            if elapsed >= TOKEN {
                assert(elapsed * self.quota >= TOKEN) by (nonlinear_arith)
                    requires
                        elapsed >= TOKEN,
                        self.quota >= 1,
                ;
                TOKEN
            } else {
                assert(elapsed * self.quota <= TOKEN * u32::MAX) by (nonlinear_arith)
                    requires
                        elapsed <= TOKEN,
                        self.quota <= u32::MAX,
                ;
                let gained = elapsed * self.quota;
                if self.level + gained >= TOKEN {
                    TOKEN
                } else {
                    self.level + gained
                }
            }
        }
    }

    /// Whether a token is available at `now_ms`.
    pub fn has_token(&self, now_ms: u64) -> (r: bool)
        requires
            self.wf(),
        ensures
            r == self.can_grant(now_ms),
    {
        self.current_level(now_ms) >= TOKEN
    }

    /// Milliseconds until a token is available at `now_ms` (0 when one is).
    pub fn wait_ms(&self, now_ms: u64) -> (r: u64)
        requires
            self.wf(),
        ensures
            r == self.wait_at(now_ms),
    {
        let lvl = self.current_level(now_ms);
        if lvl >= TOKEN {
            0
        } else {
            (TOKEN - lvl + self.quota - 1) / self.quota
        }
    }

    /// Takes one token; the caller has checked that one is available.
    pub fn take(&mut self, now_ms: u64)
        requires
            old(self).wf(),
            old(self).can_grant(now_ms),
        ensures
            *final(self) == old(self).after_grant(now_ms),
            final(self).wf(),
    {
        let lvl = self.current_level(now_ms);
        self.level = lvl - TOKEN;
        if now_ms > self.last_ms {
            self.last_ms = now_ms;
        }
    }
}

/// Whether `b` grants a token at each of `times` in turn.
pub open spec fn grants_all(b: TokenBucket, times: Seq<u64>) -> bool
    decreases times.len(),
{
    if times.len() == 0 {
        true
    } else {
        b.can_grant(times[0]) && grants_all(b.after_grant(times[0]), times.drop_first())
    }
}

pub open spec fn nondecreasing(times: Seq<u64>) -> bool {
    forall|i: int, j: int| 0 <= i <= j < times.len() ==> times[i] <= times[j]
}

/// Quota compliance: when a bucket with quota `Q` grants `N` tokens at
/// nondecreasing times, the first and last grant are at least `(N-1)/Q`
/// seconds apart.
pub proof fn lemma_quota_compliance(b: TokenBucket, times: Seq<u64>)
    requires
        b.wf(),
        times.len() >= 1,
        nondecreasing(times),
        b.last_ms <= times[0],
        grants_all(b, times),
    ensures
        (times.last() - times[0]) * b.quota >= (times.len() - 1) * TOKEN,
    decreases times.len(),
{
    if times.len() > 1 {
        let t0 = times[0];
        let t1 = times[1];
        let b1 = b.after_grant(t0);
        let rest = times.drop_first();
        assert(b1.level == 0);
        assert(b1.last_ms == t0);
        assert(rest[0] == t1);
        assert(nondecreasing(rest));
        assert(grants_all(b1, rest));
        assert(b1.can_grant(t1));
        assert((t1 - t0) * b.quota >= TOKEN);
        lemma_quota_compliance(b1, rest);
        assert(rest.last() == times.last());
        let a = times.last() - t1;
        let c = t1 - t0;
        assert((times.last() - t0) * b.quota == a * b.quota + c * b.quota) by (nonlinear_arith)
            requires
                a == times.last() - t1,
                c == t1 - t0,
        ;
    }
}

/// Outcome of one admission attempt.
#[derive(PartialEq, Eq, Structural, Debug, Clone, Copy)]
pub enum Admission {
    /// A token was taken from the domain bucket and from the global bucket.
    Granted,
    /// Nothing was taken; retry after this many milliseconds.
    Wait(u64),
}

/// Rejection of a quota at construction.
#[derive(PartialEq, Eq, Structural, Debug, Clone, Copy)]
pub enum RateLimitError {
    ZeroDomainQuota,
    ZeroGlobalQuota,
}

impl RateLimitError {
    /// What was wrong, for people.
    pub fn message(&self) -> (r: &'static str)
        ensures
            r@ == match *self {
                RateLimitError::ZeroDomainQuota => "Domain rate limit must be > 0"@,
                RateLimitError::ZeroGlobalQuota => "Global rate limit must be > 0"@,
            },
    {
        match self {
            RateLimitError::ZeroDomainQuota => "Domain rate limit must be > 0",
            RateLimitError::ZeroGlobalQuota => "Global rate limit must be > 0",
        }
    }
}

/// Snapshot of the limiter's configuration and size.
#[derive(Debug, Clone)]
pub struct RateLimiterStats {
    pub total_domains: usize,
    pub global_rate_limit: u32,
    pub domain_rate_limit: u32,
}

/// The bucket of one domain.
pub struct DomainBucket {
    pub domain: String,
    pub bucket: TokenBucket,
}

/// Abstract state of a `DistributedRateLimiter`.
pub struct LimiterView {
    pub domains: Map<Seq<char>, TokenBucket>,
    pub global: TokenBucket,
    pub per_domain: u32,
    pub per_global: u32,
}

impl LimiterView {
    pub open spec fn wf(self) -> bool {
        &&& self.per_domain >= 1
        &&& self.per_global >= 1
        &&& self.global.wf()
        &&& self.global.quota == self.per_global
        &&& forall|d: Seq<char>| #[trigger]
            self.domains.contains_key(d) ==> self.domains[d].wf() && self.domains[d].quota
                == self.per_domain
    }

    /// The bucket that an attempt for `d` at `now` uses: the tracked one, or a
    /// full one created then.
    pub open spec fn bucket_for(self, d: Seq<char>, now: u64) -> TokenBucket {
        if self.domains.contains_key(d) {
            self.domains[d]
        } else {
            TokenBucket::fresh(self.per_domain as u64, now)
        }
    }

    pub open spec fn admission(self, d: Seq<char>, now: u64) -> Admission {
        let db = self.bucket_for(d, now);
        if db.can_grant(now) && self.global.can_grant(now) {
            Admission::Granted
        } else {
            Admission::Wait(max_int(db.wait_at(now), self.global.wait_at(now)) as u64)
        }
    }

    /// The state after an attempt for `d` at `now`.
    pub open spec fn after(self, d: Seq<char>, now: u64) -> LimiterView {
        let db = self.bucket_for(d, now);
        if self.admission(d, now) == Admission::Granted {
            LimiterView {
                domains: self.domains.insert(d, db.after_grant(now)),
                global: self.global.after_grant(now),
                ..self
            }
        } else {
            LimiterView { domains: self.domains.insert(d, db), ..self }
        }
    }

    /// Whether every attempt of `reqs` (domain, clock reading), made in turn,
    /// is granted.
    pub open spec fn admits_all(self, reqs: Seq<(Seq<char>, u64)>) -> bool
        decreases reqs.len(),
    {
        if reqs.len() == 0 {
            true
        } else {
            self.admission(reqs[0].0, reqs[0].1) == Admission::Granted && self.after(
                reqs[0].0,
                reqs[0].1,
            ).admits_all(reqs.drop_first())
        }
    }
}

/// Per-domain and global token buckets; every admission passes both.
pub struct DistributedRateLimiter {
    domain_limiters: Vec<DomainBucket>,
    global_limiter: TokenBucket,
    requests_per_domain: u32,
    requests_per_second_global: u32,
}

impl View for DistributedRateLimiter {
    type V = LimiterView;

    closed spec fn view(&self) -> LimiterView {
        let e = self.domain_limiters@;
        LimiterView {
            domains: Map::new(
                |d: Seq<char>| exists|i: int| 0 <= i < e.len() && e[i].domain@ == d,
                |d: Seq<char>| e[choose|i: int| 0 <= i < e.len() && e[i].domain@ == d].bucket,
            ),
            global: self.global_limiter,
            per_domain: self.requests_per_domain,
            per_global: self.requests_per_second_global,
        }
    }
}

impl DistributedRateLimiter {
    pub closed spec fn wf(&self) -> bool {
        let e = self.domain_limiters@;
        &&& self@.wf()
        &&& forall|i: int, j: int|
            0 <= i < e.len() && 0 <= j < e.len() && e[i].domain@ == e[j].domain@ ==> i == j
        &&& forall|i: int|
            0 <= i < e.len() ==> e[i].bucket.wf() && e[i].bucket.quota
                == self.requests_per_domain
    }

    proof fn lemma_lookup(&self, i: int)
        requires
            self.wf(),
            0 <= i < self.domain_limiters@.len(),
        ensures
            self@.domains.contains_key(self.domain_limiters@[i].domain@),
            self@.domains[self.domain_limiters@[i].domain@] == self.domain_limiters@[i].bucket,
    {
        let e = self.domain_limiters@;
        let d = e[i].domain@;
        assert(exists|k: int| 0 <= k < e.len() && e[k].domain@ == d);
        let k = choose|k: int| 0 <= k < e.len() && e[k].domain@ == d;
        assert(k == i);
    }

    /// A limiter with `requests_per_domain` tokens per second for each
    /// domain and `requests_per_second_global` in all; a zero quota is
    /// rejected.
    pub fn new(requests_per_domain: u32, requests_per_second_global: u32, now_ms: u64) -> (r:
        Result<Self, RateLimitError>)
        ensures
            requests_per_second_global == 0 ==> r == Err::<Self, _>(
                RateLimitError::ZeroGlobalQuota,
            ),
            requests_per_second_global > 0 && requests_per_domain == 0 ==> r == Err::<Self, _>(
                RateLimitError::ZeroDomainQuota,
            ),
            requests_per_second_global > 0 && requests_per_domain > 0 ==> (r matches Ok(l) && l.wf()
                && l@.domains.is_empty() && l@.per_domain == requests_per_domain
                && l@.per_global == requests_per_second_global && l@.global == TokenBucket::fresh(
                requests_per_second_global as u64,
                now_ms,
            )),
    {
        if requests_per_second_global == 0 {
            return Err(RateLimitError::ZeroGlobalQuota);
        }
        if requests_per_domain == 0 {
            return Err(RateLimitError::ZeroDomainQuota);
        }
        let l = DistributedRateLimiter {
            domain_limiters: Vec::new(),
            global_limiter: TokenBucket::new(requests_per_second_global, now_ms),
            requests_per_domain,
            requests_per_second_global,
        };
        assert(l@.domains =~= Map::empty());
        Ok(l)
    }

    fn find(&self, domain: &str) -> (r: Option<usize>)
        requires
            self.wf(),
        ensures
            match r {
                Some(i) => i < self.domain_limiters@.len() && self.domain_limiters@[i as int].domain@
                    == domain@,
                None => !self@.domains.contains_key(domain@),
            },
    {
        let mut i: usize = 0;
        while i < self.domain_limiters.len()
            invariant
                i <= self.domain_limiters@.len(),
                forall|k: int| 0 <= k < i ==> self.domain_limiters@[k].domain@ != domain@,
            decreases self.domain_limiters@.len() - i,
        {
            if str_eq(self.domain_limiters[i].domain.as_str(), domain) {
                return Some(i);
            }
            i = i + 1;
        }
        None
    }

    /// One admission attempt for `domain` at `now_ms`. When both the domain
    /// bucket and the global bucket hold a token, one is taken from each;
    /// otherwise nothing is taken and the wait until both could grant is
    /// returned. The domain is tracked from its first attempt on.
    pub fn try_acquire(&mut self, domain: &str, now_ms: u64) -> (r: Admission)
        requires
            old(self).wf(),
        ensures
            final(self).wf(),
            r == old(self)@.admission(domain@, now_ms),
            final(self)@ == old(self)@.after(domain@, now_ms),
    {
        let ghost v = self@;
        let idx = match self.find(domain) {
            Some(i) => {
                proof {
                    self.lemma_lookup(i as int);
                }
                i
            },
            None => {
                let e = DomainBucket {
                    domain: domain.to_owned(),
                    bucket: TokenBucket::new(self.requests_per_domain, now_ms),
                };
                self.domain_limiters.push(e);
                let n = self.domain_limiters.len() - 1;
                proof {
                    assert(self@.domains =~= v.domains.insert(domain@, v.bucket_for(domain@, now_ms)))
                        by {
                        let e = self.domain_limiters@;
                        assert forall|d: Seq<char>| #[trigger]
                            self@.domains.contains_key(d) == (d == domain@ || v.domains.contains_key(d))
                            by {
                            if d != domain@ && self@.domains.contains_key(d) {
                                let k = choose|k: int| 0 <= k < e.len() && e[k].domain@ == d;
                                assert(k < n);
                                assert(old(self).domain_limiters@[k] == e[k]);
                            }
                            if d != domain@ && v.domains.contains_key(d) {
                                let k = choose|k: int| 0 <= k < old(self).domain_limiters@.len() && old(self).domain_limiters@[k].domain@ == d;
                                assert(e[k] == old(self).domain_limiters@[k]);
                            }
                            if d == domain@ {
                                assert(e[n as int].domain@ == d);
                            }
                        }
                        assert forall|d: Seq<char>| #[trigger]
                            self@.domains.contains_key(d) implies self@.domains[d] == v.domains.insert(domain@, v.bucket_for(domain@, now_ms))[d]
                            by {
                            let k = choose|k: int| 0 <= k < e.len() && e[k].domain@ == d;
                            if d != domain@ {
                                assert(k < n);
                                old(self).lemma_lookup(k);
                            } else {
                                assert(k == n);
                            }
                        }
                    }
                    self.lemma_lookup(n as int);
                }
                n
            },
        };
        let ghost mid = self@;
        assert(mid.bucket_for(domain@, now_ms) == v.bucket_for(domain@, now_ms));
        assert(mid.domains =~= v.domains.insert(domain@, v.bucket_for(domain@, now_ms)));
        let granted = self.domain_limiters[idx].bucket.has_token(now_ms)
            && self.global_limiter.has_token(now_ms);
        if granted {
            self.global_limiter.take(now_ms);
            let ghost before = self.domain_limiters@;
            self.domain_limiters[idx].bucket.take(now_ms);
            proof {
                let e = self.domain_limiters@;
                assert forall|k: int| 0 <= k < e.len() && k != idx implies e[k] == before[k] by {}
                assert(self@.domains =~= mid.domains.insert(domain@, mid.bucket_for(domain@, now_ms).after_grant(now_ms))) by {
                    assert forall|d: Seq<char>| #[trigger]
                        self@.domains.contains_key(d) == mid.domains.contains_key(d) by {
                        if self@.domains.contains_key(d) {
                            let k = choose|k: int| 0 <= k < e.len() && e[k].domain@ == d;
                            assert(before[k].domain@ == d);
                        }
                        if mid.domains.contains_key(d) {
                            let k = choose|k: int| 0 <= k < before.len() && before[k].domain@ == d;
                            assert(e[k].domain@ == d);
                        }
                    }
                    assert forall|d: Seq<char>| #[trigger]
                        self@.domains.contains_key(d) implies self@.domains[d] == mid.domains.insert(domain@, mid.bucket_for(domain@, now_ms).after_grant(now_ms))[d] by {
                        let k = choose|k: int| 0 <= k < e.len() && e[k].domain@ == d;
                        self.lemma_lookup(k);
                        if k != idx {
                            assert(e[k] == before[k]);
                            assert(d != domain@);
                            assert(mid.domains.contains_key(d));
                            let j = choose|j: int| 0 <= j < before.len() && before[j].domain@ == d;
                            assert(j == k);
                        } else {
                            assert(d == domain@);
                        }
                    }
                }
                assert(self@.domains =~= v.domains.insert(domain@, v.bucket_for(domain@, now_ms).after_grant(now_ms)));
            }
            Admission::Granted
        } else {
            let wd = self.domain_limiters[idx].bucket.wait_ms(now_ms);
            let wg = self.global_limiter.wait_ms(now_ms);
            if wd >= wg {
                Admission::Wait(wd)
            } else {
                Admission::Wait(wg)
            }
        }
    }

    /// Non-blocking peek at a tracked domain: the wait until its bucket and
    /// the global bucket could grant, or `None` when an attempt would be
    /// granted now or the domain is untracked. Takes no token.
    pub fn get_domain_status(&self, domain: &str, now_ms: u64) -> (r: Option<u64>)
        requires
            self.wf(),
        ensures
            !self@.domains.contains_key(domain@) ==> r is None,
            self@.domains.contains_key(domain@) ==> r == match self@.admission(domain@, now_ms) {
                Admission::Granted => None,
                Admission::Wait(ms) => Some(ms),
            },
    {
        match self.find(domain) {
            None => None,
            Some(i) => {
                proof {
                    self.lemma_lookup(i as int);
                }
                let b = &self.domain_limiters[i].bucket;
                if b.has_token(now_ms) && self.global_limiter.has_token(now_ms) {
                    None
                } else {
                    let wd = b.wait_ms(now_ms);
                    let wg = self.global_limiter.wait_ms(now_ms);
                    if wd >= wg {
                        Some(wd)
                    } else {
                        Some(wg)
                    }
                }
            },
        }
    }

    /// Forgets the bucket of `domain`; its next attempt starts with a full one.
    pub fn reset_domain(&mut self, domain: &str)
        requires
            old(self).wf(),
        ensures
            final(self).wf(),
            final(self)@ == (LimiterView { domains: old(self)@.domains.remove(domain@), ..old(self)@ }),
    {
        match self.find(domain) {
            None => {
                assert(self@.domains =~= self@.domains.remove(domain@));
            },
            Some(i) => {
                let ghost before = self.domain_limiters@;
                let ghost v = self@;
                self.domain_limiters.remove(i);
                proof {
                    let e = self.domain_limiters@;
                    assert forall|k: int| 0 <= k < e.len() implies e[k] == before[if k < i { k } else { k + 1 }] by {}
                    assert(self@.domains =~= v.domains.remove(domain@)) by {
                        assert forall|d: Seq<char>| #[trigger]
                            self@.domains.contains_key(d) == v.domains.remove(domain@).contains_key(d) by {
                            if self@.domains.contains_key(d) {
                                let k = choose|k: int| 0 <= k < e.len() && e[k].domain@ == d;
                                let j = if k < i { k } else { k + 1 };
                                assert(before[j].domain@ == d);
                            }
                            if v.domains.remove(domain@).contains_key(d) {
                                let j = choose|j: int| 0 <= j < before.len() && before[j].domain@ == d;
                                assert(j != i);
                                let k = if j < i { j } else { j - 1 };
                                assert(e[k].domain@ == d);
                            }
                        }
                        assert forall|d: Seq<char>| #[trigger]
                            self@.domains.contains_key(d) implies self@.domains[d] == v.domains[d] by {
                            let k = choose|k: int| 0 <= k < e.len() && e[k].domain@ == d;
                            let j = if k < i { k } else { k + 1 };
                            old(self).lemma_lookup(j);
                            self.lemma_lookup(k);
                        }
                    }
                }
            },
        }
    }

    /// Number of tracked domains and the two quotas.
    pub fn get_stats(&self) -> (r: RateLimiterStats)
        requires
            self.wf(),
        ensures
            r.total_domains == self@.domains.len(),
            r.global_rate_limit == self@.per_global,
            r.domain_rate_limit == self@.per_domain,
    {
        proof {
            self.lemma_domains_len();
        }
        RateLimiterStats {
            total_domains: self.domain_limiters.len(),
            global_rate_limit: self.requests_per_second_global,
            domain_rate_limit: self.requests_per_domain,
        }
    }

    proof fn lemma_domains_len(&self)
        requires
            self.wf(),
        ensures
            self@.domains.len() == self.domain_limiters@.len(),
    {
        let e = self.domain_limiters@;
        let keys = e.map_values(|x: DomainBucket| x.domain@);
        assert(self@.domains.dom() =~= keys.to_set()) by {
            assert forall|d: Seq<char>| #[trigger] keys.to_set().contains(d) implies self@.domains.contains_key(d) by {
                let k = choose|k: int| 0 <= k < keys.len() && keys[k] == d;
                assert(e[k].domain@ == d);
            }
            assert forall|d: Seq<char>| self@.domains.contains_key(d) implies #[trigger] keys.to_set().contains(d) by {
                let k = choose|k: int| 0 <= k < e.len() && e[k].domain@ == d;
                assert(keys[k] == d);
            }
        }
        assert(keys.no_duplicates()) by {
            assert forall|i: int, j: int| 0 <= i < keys.len() && 0 <= j < keys.len() && i != j implies keys[i] != keys[j] by {
                assert(keys[i] == e[i].domain@);
                assert(keys[j] == e[j].domain@);
            }
        }
        keys.unique_seq_to_set();
    }
}

pub open spec fn clock_readings(reqs: Seq<(Seq<char>, u64)>) -> Seq<u64> {
    reqs.map_values(|r: (Seq<char>, u64)| r.1)
}

proof fn lemma_admits_all_global(v: LimiterView, reqs: Seq<(Seq<char>, u64)>)
    requires
        v.admits_all(reqs),
    ensures
        grants_all(v.global, clock_readings(reqs)),
    decreases reqs.len(),
{
    if reqs.len() > 0 {
        let w = v.after(reqs[0].0, reqs[0].1);
        lemma_admits_all_global(w, reqs.drop_first());
        assert(clock_readings(reqs.drop_first()) =~= clock_readings(reqs).drop_first());
    }
}

proof fn lemma_admits_all_domain(v: LimiterView, d: Seq<char>, reqs: Seq<(Seq<char>, u64)>)
    requires
        reqs.len() >= 1,
        v.admits_all(reqs),
        forall|i: int| 0 <= i < reqs.len() ==> #[trigger] reqs[i].0 == d,
    ensures
        grants_all(v.bucket_for(d, reqs[0].1), clock_readings(reqs)),
    decreases reqs.len(),
{
    let w = v.after(d, reqs[0].1);
    let rest = reqs.drop_first();
    assert(reqs[0].0 == d);
    assert(clock_readings(rest) =~= clock_readings(reqs).drop_first());
    assert(clock_readings(reqs)[0] == reqs[0].1);
    assert(v.bucket_for(d, reqs[0].1).can_grant(reqs[0].1));
    assert(w.admits_all(rest));
    if rest.len() > 0 {
        assert(rest[0].0 == d);
        lemma_admits_all_domain(w, d, rest);
        assert(w.bucket_for(d, rest[0].1) == v.bucket_for(d, reqs[0].1).after_grant(reqs[0].1));
    }
    assert(grants_all(v.bucket_for(d, reqs[0].1).after_grant(reqs[0].1), clock_readings(rest)));
}

/// Global cap dominates: however the admitted attempts are spread over
/// domains, `N` admissions at nondecreasing times span at least
/// `(N-1)/Qg` seconds, `Qg` being the global quota.
pub proof fn lemma_global_cap_dominates(v: LimiterView, reqs: Seq<(Seq<char>, u64)>)
    requires
        v.wf(),
        reqs.len() >= 1,
        nondecreasing(clock_readings(reqs)),
        v.global.last_ms <= reqs[0].1,
        v.admits_all(reqs),
    ensures
        (reqs.last().1 - reqs[0].1) * v.per_global >= (reqs.len() - 1) * TOKEN,
{
    lemma_admits_all_global(v, reqs);
    let t = clock_readings(reqs);
    lemma_quota_compliance(v.global, t);
    assert(t.last() == reqs.last().1);
}

/// Quota compliance per domain: `N` admissions for one domain at
/// nondecreasing times span at least `(N-1)/Q` seconds, `Q` being the
/// domain quota.
pub proof fn lemma_domain_quota_compliance(
    v: LimiterView,
    d: Seq<char>,
    reqs: Seq<(Seq<char>, u64)>,
)
    requires
        v.wf(),
        reqs.len() >= 1,
        forall|i: int| 0 <= i < reqs.len() ==> #[trigger] reqs[i].0 == d,
        nondecreasing(clock_readings(reqs)),
        v.bucket_for(d, reqs[0].1).last_ms <= reqs[0].1,
        v.admits_all(reqs),
    ensures
        (reqs.last().1 - reqs[0].1) * v.per_domain >= (reqs.len() - 1) * TOKEN,
{
    lemma_admits_all_domain(v, d, reqs);
    let t = clock_readings(reqs);
    let b = v.bucket_for(d, reqs[0].1);
    assert(b.wf() && b.quota == v.per_domain);
    lemma_quota_compliance(b, t);
    assert(t.last() == reqs.last().1);
}

} // verus!
