//! The dispatcher: admission, session, proxy and delay for each request, and
//! the outcome fed back after it.
use vstd::prelude::*;

use crate::cookie::{jar_of, unexpired, Cookie};
use crate::proxy::ProxyInfo;
use crate::random::{random_below, generate_session_id};
use crate::rate_limiter::{
    Admission, DistributedRateLimiter, LimiterView, RateLimiterStats,
};
use crate::rotator::{ProxyRotator, ProxyStats, RotatorView};
use crate::session::{
    dup_pairs, generate_session_viewport, BrowserSession, ManagerView, SessionManager,
    SessionStats, Viewport,
};
use crate::table::Table;

verus! {

/// Delay and re-rotation settings; delays in milliseconds.
#[derive(PartialEq, Eq, Structural, Debug, Clone, Copy)]
pub struct DispatchConfig {
    pub base_delay_ms: u32,
    pub variance_ms: u32,
    pub min_delay_ms: u32,
    /// Consecutive failures on a platform after which its proxy binding is
    /// re-resolved on the next preparation.
    pub failure_threshold: u32,
}

/// The delay for a draw in `[0, 2 * variance]`: base plus the draw minus the
/// variance, never below the minimum.
pub open spec fn delay_for(c: DispatchConfig, draw: u64) -> int {
    let d = c.base_delay_ms + draw - c.variance_ms;
    if d < c.min_delay_ms { c.min_delay_ms as int } else { d }
}

/// The delay for `draw`.
pub fn compute_delay(config: &DispatchConfig, draw: u64) -> (r: u64)
    requires
        draw <= 2 * config.variance_ms,
    ensures
        r == delay_for(*config, draw),
{
    let plus = config.base_delay_ms as u64 + draw;
    if plus < config.variance_ms as u64 + config.min_delay_ms as u64 {
        config.min_delay_ms as u64
    } else {
        plus - config.variance_ms as u64
    }
}

/// What a worker needs for one request.
pub struct RequestDescriptor {
    /// `None` when the platform's pool has no healthy proxy.
    pub proxy: Option<ProxyInfo>,
    pub session: BrowserSession,
    pub headers: Vec<(String, String)>,
    pub cookies: Vec<Cookie>,
    pub delay_ms: u64,
}

/// Outcome of a preparation.
pub enum Prepared {
    /// Rate limited: nothing was taken or changed; retry after this many
    /// milliseconds.
    Wait(u64),
    Ready(RequestDescriptor),
}

/// Abstract state of a `Dispatcher`.
pub struct DispatchView {
    pub limiter: LimiterView,
    pub rotator: RotatorView,
    pub sessions: ManagerView,
    /// Consecutive failures per platform.
    pub streaks: Map<Seq<char>, u32>,
    /// Platforms whose binding is re-resolved on the next preparation.
    pub pending: Map<Seq<char>, bool>,
    pub config: DispatchConfig,
}

impl DispatchView {
    pub open spec fn rotation_pending(self, platform: Seq<char>) -> bool {
        self.pending.contains_key(platform) && self.pending[platform]
    }

    pub open spec fn streak(self, platform: Seq<char>) -> u32 {
        if self.streaks.contains_key(platform) { self.streaks[platform] } else { 0 }
    }

    /// The failure bookkeeping after an outcome for `platform`: a success
    /// clears the streak; a failure extends it, and once it reaches the
    /// threshold the binding is marked for re-resolution and the streak
    /// starts over.
    pub open spec fn after_streak(self, platform: Seq<char>, success: bool) -> (Map<Seq<char>, u32>, Map<Seq<char>, bool>) {
        if success {
            (self.streaks.insert(platform, 0), self.pending)
        } else {
            let s = if self.streak(platform) < u32::MAX { (self.streak(platform) + 1) as u32 } else { self.streak(platform) };
            if s >= self.config.failure_threshold {
                (self.streaks.insert(platform, 0), self.pending.insert(platform, true))
            } else {
                (self.streaks.insert(platform, s), self.pending)
            }
        }
    }
}

/// Composes the rate limiter, the proxy rotator and the session store.
pub struct Dispatcher {
    limiter: DistributedRateLimiter,
    rotator: ProxyRotator,
    sessions: SessionManager,
    streaks: Table<u32>,
    pending: Table<bool>,
    config: DispatchConfig,
}

impl View for Dispatcher {
    type V = DispatchView;

    closed spec fn view(&self) -> DispatchView {
        DispatchView {
            limiter: self.limiter@,
            rotator: self.rotator@,
            sessions: self.sessions@,
            streaks: self.streaks@,
            pending: self.pending@,
            config: self.config,
        }
    }
}

impl Dispatcher {
    pub closed spec fn wf(&self) -> bool {
        &&& self.limiter.wf()
        &&& self.rotator.wf()
        &&& self.sessions.wf()
        &&& self.streaks.wf()
        &&& self.pending.wf()
    }

    /// The sessions in storage order.
    pub closed spec fn session_entries(&self) -> Seq<(Seq<char>, BrowserSession)> {
        self.sessions.entries()
    }

    pub fn new(limiter: DistributedRateLimiter, rotator: ProxyRotator, sessions: SessionManager, config: DispatchConfig) -> (r: Dispatcher)
        requires
            limiter.wf(),
            rotator.wf(),
            sessions.wf(),
        ensures
            r.wf(),
            r@.limiter == limiter@,
            r@.rotator == rotator@,
            r@.sessions == sessions@,
            r@.streaks.is_empty(),
            r@.pending.is_empty(),
            r@.config == config,
    {
        Dispatcher { limiter, rotator, sessions, streaks: Table::new(), pending: Table::new(), config }
    }

    /// Prepares a request of `platform` to `domain` at `now_ms`, with the id
    /// and viewport a new session would take and the delay draw. When the
    /// limiter does not admit, nothing but the domain's tracking changes.
    /// Otherwise the platform's session is fetched or created, its proxy is
    /// the bound one (re-resolved if marked), and the cookies are the jar's
    /// unexpired ones.
    pub fn prepare_with(
        &mut self,
        platform: &str,
        domain: &str,
        now_ms: u64,
        session_id: String,
        viewport: Viewport,
        delay_draw: u64,
    ) -> (r: Prepared)
        requires
            old(self).wf(),
            delay_draw <= 2 * old(self)@.config.variance_ms,
        ensures
            final(self).wf(),
            final(self)@.limiter == old(self)@.limiter.after(domain@, now_ms),
            final(self)@.config == old(self)@.config,
            final(self)@.streaks == old(self)@.streaks,
            old(self)@.limiter.admission(domain@, now_ms) matches Admission::Wait(ms) ==> {
                &&& r == Prepared::Wait(ms)
                &&& final(self)@.rotator == old(self)@.rotator
                &&& final(self)@.sessions == old(self)@.sessions
                &&& final(self)@.pending == old(self)@.pending
            },
            old(self)@.limiter.admission(domain@, now_ms) == Admission::Granted ==> (r matches Prepared::Ready(d) && {
                &&& old(self)@.sessions.served(final(self)@.sessions, platform@, now_ms, d.session, session_id@, viewport)
                &&& d.headers@ == d.session.headers@
                &&& d.cookies@ == unexpired(jar_of(old(self)@.sessions.jars, platform@), now_ms)
                &&& d.delay_ms == delay_for(old(self)@.config, delay_draw)
                &&& if old(self)@.rotation_pending(platform@) {
                    &&& old(self)@.rotator.rotated(final(self)@.rotator, platform@, now_ms, d.proxy)
                    &&& final(self)@.pending == old(self)@.pending.remove(platform@)
                } else {
                    &&& final(self)@.pending == old(self)@.pending
                    &&& if old(self)@.rotator.sticky(platform@, now_ms) is Some {
                        d.proxy == old(self)@.rotator.sticky(platform@, now_ms) && final(self)@.rotator == old(self)@.rotator
                    } else {
                        old(self)@.rotator.rotated(final(self)@.rotator, platform@, now_ms, d.proxy)
                    }
                }
            }),
    {
        match self.limiter.try_acquire(domain, now_ms) {
            Admission::Wait(ms) => Prepared::Wait(ms),
            Admission::Granted => {
                let session = self.sessions.get_session_with(platform, now_ms, session_id, viewport);
                let pending = match self.pending.get(platform) {
                    Some(b) => *b,
                    None => false,
                };
                let proxy = if pending {
                    let _ = self.pending.remove(platform);
                    self.rotator.rotate_proxy_for_platform(platform, now_ms)
                } else {
                    self.rotator.get_current_proxy(platform, now_ms)
                };
                let cookies = self.sessions.get_cookies(platform, now_ms);
                let headers = dup_pairs(&session.headers);
                let delay_ms = compute_delay(&self.config, delay_draw);
                Prepared::Ready(RequestDescriptor { proxy, session, headers, cookies, delay_ms })
            },
        }
    }

    /// `prepare_with`, drawing the new session's id and viewport and the
    /// delay at random.
    pub fn prepare(&mut self, platform: &str, domain: &str, now_ms: u64) -> (r: Prepared)
        requires
            old(self).wf(),
        ensures
            final(self).wf(),
            final(self)@.limiter == old(self)@.limiter.after(domain@, now_ms),
            old(self)@.limiter.admission(domain@, now_ms) matches Admission::Wait(ms) ==> {
                &&& r == Prepared::Wait(ms)
                &&& final(self)@ == (DispatchView { limiter: final(self)@.limiter, ..old(self)@ })
            },
            old(self)@.limiter.admission(domain@, now_ms) == Admission::Granted ==> (r matches Prepared::Ready(d) && {
                &&& old(self)@.sessions.served(final(self)@.sessions, platform@, now_ms, d.session, d.session.session_id@, d.session.viewport)
                &&& d.cookies@ == unexpired(jar_of(old(self)@.sessions.jars, platform@), now_ms)
                &&& old(self)@.config.min_delay_ms <= d.delay_ms
            }),
    {
        let draw = random_below(2 * self.config.variance_ms as u64 + 1);
        if self.sessions.has_valid_session(platform, now_ms) {
            let unused = Viewport { width: 0, height: 0, device_pixel_ratio_milli: 0 };
            self.prepare_with(platform, domain, now_ms, String::new(), unused, draw)
        } else {
            let id = generate_session_id();
            let vp = generate_session_viewport();
            self.prepare_with(platform, domain, now_ms, id, vp, draw)
        }
    }

    /// Feeds a request's outcome back: the platform's session counts it, the
    /// proxy's health takes it, and the platform's failure streak moves.
    pub fn report(&mut self, platform: &str, host: &str, port: u16, success: bool, now_ms: u64)
        requires
            old(self).wf(),
        ensures
            final(self).wf(),
            final(self)@.limiter == old(self)@.limiter,
            final(self)@.sessions == old(self)@.sessions.after_outcome(platform@, success, now_ms),
            final(self)@.rotator == old(self)@.rotator.after_report(host@, port, success, now_ms),
            (final(self)@.streaks, final(self)@.pending) == old(self)@.after_streak(platform@, success),
            final(self)@.config == old(self)@.config,
    {
        self.sessions.update_session(platform, success, now_ms);
        self.rotator.report(host, port, success, now_ms);
        let streak = match self.streaks.get(platform) {
            Some(s) => *s,
            None => 0,
        };
        if success {
            self.streaks.insert(platform, 0);
        } else {
            let s = if streak < u32::MAX { streak + 1 } else { streak };
            if s >= self.config.failure_threshold {
                self.streaks.insert(platform, 0);
                self.pending.insert(platform, true);
            } else {
                self.streaks.insert(platform, s);
            }
        }
    }

    pub fn rotator(&self) -> (r: &ProxyRotator)
        ensures
            r@ == self@.rotator,
            r.wf() <== self.wf(),
    {
        &self.rotator
    }

    /// Folds connectivity probe results, one per proxy and pool by pool,
    /// into the proxies' health; returns how many passed.
    pub fn health_check_all(&mut self, results: &Vec<Vec<bool>>, now_ms: u64) -> (r: u64)
        requires
            old(self).wf(),
            results@.len() == old(self)@.rotator.pools.len(),
            forall|i: int| 0 <= i < results@.len() ==> (#[trigger] results@[i])@.len() == old(self)@.rotator.pools[i].proxies.len(),
            crate::rotator::total_proxies(old(self)@.rotator.pools) <= u32::MAX,
        ensures
            final(self).wf(),
            final(self)@ == (DispatchView { rotator: final(self)@.rotator, ..old(self)@ }),
            final(self)@.rotator.pools == Seq::new(old(self)@.rotator.pools.len(), |i: int| crate::proxy::PoolView {
                proxies: crate::proxy::probed(old(self)@.rotator.pools[i].proxies, results@[i]@, now_ms),
                last_health_check: now_ms,
                ..old(self)@.rotator.pools[i]
            }),
            final(self)@.rotator.sessions == old(self)@.rotator.sessions,
            final(self)@.rotator.rotation_count == old(self)@.rotator.rotation_count,
            r == crate::rotator::passed_probes(results@, results@.len() as nat),
    {
        self.rotator.health_check_all(results, now_ms)
    }

    /// Evicts the sessions expired at `now_ms`; returns how many went.
    pub fn cleanup_expired_sessions(&mut self, now_ms: u64) -> (r: u32)
        requires
            old(self).wf(),
            old(self)@.sessions.sessions.len() <= u32::MAX,
        ensures
            final(self).wf(),
            final(self)@ == (DispatchView { sessions: final(self)@.sessions, ..old(self)@ }),
            final(self)@.sessions.sessions == crate::session::live_sessions(
                old(self)@.sessions.sessions,
                now_ms,
                old(self)@.sessions.config.session_timeout_ms,
            ),
            r == old(self)@.sessions.sessions.len() - final(self)@.sessions.sessions.len(),
    {
        self.sessions.cleanup_expired_sessions(now_ms)
    }

    /// The statistics of the three components.
    pub fn get_stats(&self, now_ms: u64) -> (r: (RateLimiterStats, ProxyStats, SessionStats))
        requires
            self.wf(),
            crate::rotator::total_proxies(self@.rotator.pools) <= u32::MAX,
            self@.rotator.sessions.len() <= u32::MAX,
            self@.sessions.sessions.len() <= u32::MAX,
            crate::session::sum_requests(self.session_entries()) <= u64::MAX,
        ensures
            r.0.total_domains == self@.limiter.domains.len(),
            r.1.total_proxies == crate::rotator::total_proxies(self@.rotator.pools),
            r.1.healthy_proxies == crate::rotator::total_healthy(self@.rotator.pools),
            r.2.active_sessions == self@.sessions.sessions.len(),
            r.2.total_requests == crate::session::sum_requests(self.session_entries()),
    {
        (self.limiter.get_stats(), self.rotator.get_proxy_stats(), self.sessions.get_session_stats(now_ms))
    }
}

} // verus!
