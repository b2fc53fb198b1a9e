//! Per-platform browser sessions with expiry, outcome counters and cookie
//! jars.
use vstd::prelude::*;

use crate::cookie::{jar_of, stored, unexpired, Cookie, CookieStore};
use crate::random::{random_below, generate_session_id};
use crate::table::Table;
use crate::text::str_eq;

verus! {

/// Screen size and pixel ratio, the ratio in thousandths.
#[derive(PartialEq, Eq, Structural, Debug, Clone, Copy)]
pub struct Viewport {
    pub width: u32,
    pub height: u32,
    pub device_pixel_ratio_milli: u32,
}

/// Session settings; durations in milliseconds.
#[derive(PartialEq, Eq, Structural, Debug, Clone, Copy)]
pub struct SessionConfig {
    pub session_timeout_ms: u64,
    pub max_sessions_per_platform: u32,
    pub cookie_persistence: bool,
    pub auto_cleanup_interval_ms: u64,
}

impl Default for SessionConfig {
    fn default() -> (r: SessionConfig)
        ensures
            r.session_timeout_ms == 1800000,
            r.max_sessions_per_platform == 5,
            r.cookie_persistence,
            r.auto_cleanup_interval_ms == 300000,
    {
        SessionConfig {
            session_timeout_ms: 1800000,
            max_sessions_per_platform: 5,
            cookie_persistence: true,
            auto_cleanup_interval_ms: 300000,
        }
    }
}

/// The state kept for one platform.
pub struct BrowserSession {
    pub platform: String,
    pub session_id: String,
    pub created_at: u64,
    pub last_activity: u64,
    pub cookies: Vec<Cookie>,
    pub local_storage: Vec<(String, String)>,
    pub session_storage: Vec<(String, String)>,
    pub user_agent: String,
    pub viewport: Viewport,
    pub headers: Vec<(String, String)>,
    pub request_count: u64,
    pub success_count: u64,
    /// Opaque fingerprint profile, stored and handed back unchanged.
    pub fingerprint: Vec<u8>,
}

/// Expired once more than `timeout` has passed since the last activity.
pub open spec fn session_expired(s: BrowserSession, now: u64, timeout: u64) -> bool {
    now > s.last_activity && now - s.last_activity > timeout
}

/// Successes per million requests; 0 before the first request.
pub open spec fn rate_ppm(successes: u64, requests: u64) -> int {
    if requests == 0 { 0 } else { successes * 1000000 / requests as int }
}

pub open spec fn user_agent_for(platform: Seq<char>) -> Seq<char> {
    if platform == "facebook"@ {
        "Mozilla/5.0 (Macintosh; Intel Mac OS X 10_15_7) AppleWebKit/537.36 (KHTML, like Gecko) Chrome/120.0.0.0 Safari/537.36"@
    } else if platform == "instagram"@ {
        "Mozilla/5.0 (iPhone; CPU iPhone OS 17_0 like Mac OS X) AppleWebKit/605.1.15 (KHTML, like Gecko) Version/17.0 Mobile/15E148 Safari/604.1"@
    } else {
        "Mozilla/5.0 (Windows NT 10.0; Win64; x64) AppleWebKit/537.36 (KHTML, like Gecko) Chrome/120.0.0.0 Safari/537.36"@
    }
}

pub open spec fn pair_views(v: Seq<(String, String)>) -> Seq<(Seq<char>, Seq<char>)> {
    v.map_values(|p: (String, String)| (p.0@, p.1@))
}

pub open spec fn base_headers() -> Seq<(Seq<char>, Seq<char>)> {
    seq![
        ("Accept"@, "text/html,application/xhtml+xml,application/xml;q=0.9,image/avif,image/webp,*/*;q=0.8"@),
        ("Accept-Language"@, "en-US,en;q=0.5"@),
        ("Accept-Encoding"@, "gzip, deflate, br"@),
        ("DNT"@, "1"@),
        ("Connection"@, "keep-alive"@),
        ("Upgrade-Insecure-Requests"@, "1"@),
    ]
}

pub open spec fn fetch_headers() -> Seq<(Seq<char>, Seq<char>)> {
    seq![
        ("Sec-Fetch-Dest"@, "document"@),
        ("Sec-Fetch-Mode"@, "navigate"@),
        ("Sec-Fetch-Site"@, "none"@),
    ]
}

/// Default headers of a platform: the common set, and for the social
/// platforms the fetch-metadata headers after it.
pub open spec fn headers_for(platform: Seq<char>) -> Seq<(Seq<char>, Seq<char>)> {
    if platform == "facebook"@ || platform == "instagram"@ {
        base_headers() + fetch_headers()
    } else {
        base_headers()
    }
}

/// The common viewports, in order.
pub open spec fn common_viewport(i: int) -> (u32, u32) {
    if i == 0 {
        (1920, 1080)
    } else if i == 1 {
        (1366, 768)
    } else if i == 2 {
        (1440, 900)
    } else {
        (1536, 864)
    }
}

/// User agent of a platform's sessions.
pub fn generate_session_user_agent(platform: &str) -> (r: String)
    ensures
        r@ == user_agent_for(platform@),
{
    if str_eq(platform, "facebook") {
        String::from_str(
            "Mozilla/5.0 (Macintosh; Intel Mac OS X 10_15_7) AppleWebKit/537.36 (KHTML, like Gecko) Chrome/120.0.0.0 Safari/537.36",
        )
    } else if str_eq(platform, "instagram") {
        String::from_str(
            "Mozilla/5.0 (iPhone; CPU iPhone OS 17_0 like Mac OS X) AppleWebKit/605.1.15 (KHTML, like Gecko) Version/17.0 Mobile/15E148 Safari/604.1",
        )
    } else {
        String::from_str(
            "Mozilla/5.0 (Windows NT 10.0; Win64; x64) AppleWebKit/537.36 (KHTML, like Gecko) Chrome/120.0.0.0 Safari/537.36",
        )
    }
}

fn push_header(h: &mut Vec<(String, String)>, k: &str, v: &str)
    ensures
        pair_views(final(h)@) == pair_views(old(h)@).push((k@, v@)),
{
    h.push((String::from_str(k), String::from_str(v)));
    assert(pair_views(final(h)@) =~= pair_views(old(h)@).push((k@, v@)));
}

/// Default headers of a platform's sessions.
pub fn generate_session_headers(platform: &str) -> (r: Vec<(String, String)>)
    ensures
        pair_views(r@) == headers_for(platform@),
{
    let mut h: Vec<(String, String)> = Vec::new();
    push_header(
        &mut h,
        "Accept",
        "text/html,application/xhtml+xml,application/xml;q=0.9,image/avif,image/webp,*/*;q=0.8",
    );
    push_header(&mut h, "Accept-Language", "en-US,en;q=0.5");
    push_header(&mut h, "Accept-Encoding", "gzip, deflate, br");
    push_header(&mut h, "DNT", "1");
    push_header(&mut h, "Connection", "keep-alive");
    push_header(&mut h, "Upgrade-Insecure-Requests", "1");
    assert(pair_views(h@) =~= base_headers());
    if str_eq(platform, "facebook") || str_eq(platform, "instagram") {
        push_header(&mut h, "Sec-Fetch-Dest", "document");
        push_header(&mut h, "Sec-Fetch-Mode", "navigate");
        push_header(&mut h, "Sec-Fetch-Site", "none");
        assert(pair_views(h@) =~= base_headers() + fetch_headers());
    }
    h
}

/// The viewport for a draw: `choice` picks one of the common sizes and
/// `ratio_draw` (below 1000) sets the pixel ratio in [1.0, 2.0).
pub fn viewport_from_draw(choice: u64, ratio_draw: u64) -> (r: Viewport)
    requires
        choice < 4,
        ratio_draw < 1000,
    ensures
        (r.width, r.height) == common_viewport(choice as int),
        r.device_pixel_ratio_milli == 1000 + ratio_draw,
{
    let (w, h): (u32, u32) = if choice == 0 {
        (1920, 1080)
    } else if choice == 1 {
        (1366, 768)
    } else if choice == 2 {
        (1440, 900)
    } else {
        (1536, 864)
    };
    Viewport { width: w, height: h, device_pixel_ratio_milli: (1000 + ratio_draw) as u32 }
}

/// A randomly drawn common viewport.
pub fn generate_session_viewport() -> (r: Viewport)
    ensures
        exists|i: int| 0 <= i < 4 && (r.width, r.height) == #[trigger] common_viewport(i),
        1000 <= r.device_pixel_ratio_milli < 2000,
{
    let choice = random_below(4);
    let ratio = random_below(1000);
    viewport_from_draw(choice, ratio)
}

pub(crate) fn dup_pairs(v: &Vec<(String, String)>) -> (r: Vec<(String, String)>)
    ensures
        r@ == v@,
{
    let mut out: Vec<(String, String)> = Vec::new();
    let mut i: usize = 0;
    while i < v.len()
        invariant
            i <= v@.len(),
            out@ == v@.subrange(0, i as int),
        decreases v@.len() - i,
    {
        out.push((v[i].0.clone(), v[i].1.clone()));
        i = i + 1;
        assert(out@ =~= v@.subrange(0, i as int));
    }
    assert(out@ =~= v@);
    out
}

fn dup_cookies(v: &Vec<Cookie>) -> (r: Vec<Cookie>)
    ensures
        r@ == v@,
{
    let mut out: Vec<Cookie> = Vec::new();
    let mut i: usize = 0;
    while i < v.len()
        invariant
            i <= v@.len(),
            out@ == v@.subrange(0, i as int),
        decreases v@.len() - i,
    {
        out.push(v[i].duplicate());
        i = i + 1;
        assert(out@ =~= v@.subrange(0, i as int));
    }
    assert(out@ =~= v@);
    out
}

fn dup_bytes(v: &Vec<u8>) -> (r: Vec<u8>)
    ensures
        r@ == v@,
{
    let mut out: Vec<u8> = Vec::new();
    let mut i: usize = 0;
    while i < v.len()
        invariant
            i <= v@.len(),
            out@ == v@.subrange(0, i as int),
        decreases v@.len() - i,
    {
        out.push(v[i]);
        i = i + 1;
        assert(out@ =~= v@.subrange(0, i as int));
    }
    assert(out@ =~= v@);
    out
}

impl BrowserSession {
    pub open spec fn wf(&self) -> bool {
        self.success_count <= self.request_count
    }

    pub fn duplicate(&self) -> (r: BrowserSession)
        ensures
            r.platform == self.platform,
            r.session_id == self.session_id,
            r.created_at == self.created_at,
            r.last_activity == self.last_activity,
            r.cookies@ == self.cookies@,
            r.local_storage@ == self.local_storage@,
            r.session_storage@ == self.session_storage@,
            r.user_agent == self.user_agent,
            r.viewport == self.viewport,
            r.headers@ == self.headers@,
            r.request_count == self.request_count,
            r.success_count == self.success_count,
            r.fingerprint@ == self.fingerprint@,
    {
        BrowserSession {
            platform: self.platform.clone(),
            session_id: self.session_id.clone(),
            created_at: self.created_at,
            last_activity: self.last_activity,
            cookies: dup_cookies(&self.cookies),
            local_storage: dup_pairs(&self.local_storage),
            session_storage: dup_pairs(&self.session_storage),
            user_agent: self.user_agent.clone(),
            viewport: self.viewport,
            headers: dup_pairs(&self.headers),
            request_count: self.request_count,
            success_count: self.success_count,
            fingerprint: dup_bytes(&self.fingerprint),
        }
    }

    /// Expired under the default timeout of thirty minutes.
    pub fn is_expired(&self, now_ms: u64) -> (r: bool)
        ensures
            r == session_expired(*self, now_ms, 1800000),
    {
        now_ms > self.last_activity && now_ms - self.last_activity > 1800000
    }

    /// Expired under the timeout of `config`.
    pub fn is_expired_with_config(&self, config: &SessionConfig, now_ms: u64) -> (r: bool)
        ensures
            r == session_expired(*self, now_ms, config.session_timeout_ms),
    {
        now_ms > self.last_activity && now_ms - self.last_activity > config.session_timeout_ms
    }

    /// Successes per million requests; 0 when there were none.
    pub fn success_rate(&self) -> (r: u32)
        requires
            self.wf(),
        ensures
            r == rate_ppm(self.success_count, self.request_count),
            r <= 1000000,
    {
        rate_of(self.success_count, self.request_count)
    }
}

fn rate_of(successes: u64, requests: u64) -> (r: u32)
    requires
        successes <= requests,
    ensures
        r == rate_ppm(successes, requests),
        r <= 1000000,
{
    if requests == 0 {
        0
    } else {
        let q = (successes as u128) * 1000000 / (requests as u128);
        assert(q <= 1000000) by (nonlinear_arith)
            requires
                q == (successes as int) * 1000000 / (requests as int),
                successes <= requests,
                requests > 0,
        ;
        q as u32
    }
}

/// Two session records with the same contents.
pub open spec fn same_session(a: BrowserSession, b: BrowserSession) -> bool {
    &&& a.platform@ == b.platform@
    &&& a.session_id@ == b.session_id@
    &&& a.created_at == b.created_at
    &&& a.last_activity == b.last_activity
    &&& a.cookies@ == b.cookies@
    &&& a.local_storage@ == b.local_storage@
    &&& a.session_storage@ == b.session_storage@
    &&& a.user_agent@ == b.user_agent@
    &&& a.viewport == b.viewport
    &&& a.headers@ == b.headers@
    &&& a.request_count == b.request_count
    &&& a.success_count == b.success_count
    &&& a.fingerprint@ == b.fingerprint@
}

/// `s` is a session of `platform` created at `now` with id `id` and viewport
/// `vp`, and the platform's default user agent and headers.
pub open spec fn fresh_session(s: BrowserSession, platform: Seq<char>, now: u64, id: Seq<char>, vp: Viewport) -> bool {
    &&& s.platform@ == platform
    &&& s.session_id@ == id
    &&& s.created_at == now
    &&& s.last_activity == now
    &&& s.cookies@.len() == 0
    &&& s.local_storage@.len() == 0
    &&& s.session_storage@.len() == 0
    &&& s.user_agent@ == user_agent_for(platform)
    &&& s.viewport == vp
    &&& pair_views(s.headers@) == headers_for(platform)
    &&& s.request_count == 0
    &&& s.success_count == 0
    &&& s.fingerprint@.len() == 0
}

/// Abstract state of a `SessionManager`.
pub struct ManagerView {
    pub sessions: Map<Seq<char>, BrowserSession>,
    pub jars: Map<Seq<char>, Vec<Cookie>>,
    pub config: SessionConfig,
}

impl ManagerView {
    pub open spec fn wf(self) -> bool {
        forall|k: Seq<char>| #[trigger] self.sessions.contains_key(k) ==> self.sessions[k].wf()
    }

    /// `platform` has a session that has not expired at `now`.
    pub open spec fn valid(self, platform: Seq<char>, now: u64) -> bool {
        self.sessions.contains_key(platform) && !session_expired(
            self.sessions[platform],
            now,
            self.config.session_timeout_ms,
        )
    }

    /// The state after one outcome for `platform` at `now`: its session, if
    /// any, counts one more request (and success) and was last active then.
    pub open spec fn after_outcome(self, platform: Seq<char>, success: bool, now: u64) -> ManagerView {
        if self.sessions.contains_key(platform) {
            let s = self.sessions[platform];
            ManagerView {
                sessions: self.sessions.insert(platform, BrowserSession {
                    request_count: if s.request_count < u64::MAX {
                        (s.request_count + 1) as u64
                    } else {
                        s.request_count
                    },
                    success_count: if success && s.success_count < u64::MAX {
                        (s.success_count + 1) as u64
                    } else {
                        s.success_count
                    },
                    last_activity: now,
                    ..s
                }),
                ..self
            }
        } else {
            self
        }
    }

    /// `new` and `r` are `self` and the result after a get-or-create for
    /// `platform` at `now`, where a session created would get id `id` and
    /// viewport `vp`: a valid session is returned as it is and nothing
    /// changes; otherwise a fresh session replaces whatever was there.
    pub open spec fn served(self, new: ManagerView, platform: Seq<char>, now: u64, r: BrowserSession, id: Seq<char>, vp: Viewport) -> bool {
        if self.valid(platform, now) {
            new == self && same_session(r, self.sessions[platform])
        } else {
            &&& fresh_session(r, platform, now, id, vp)
            &&& new.sessions.contains_key(platform)
            &&& same_session(new.sessions[platform], r)
            &&& new.sessions.remove(platform) == self.sessions.remove(platform)
            &&& new.jars == self.jars
            &&& new.config == self.config
        }
    }
}

/// The sessions of `m` not expired at `now` under `timeout`.
pub open spec fn live_sessions(m: Map<Seq<char>, BrowserSession>, now: u64, timeout: u64) -> Map<Seq<char>, BrowserSession> {
    Map::new(|k: Seq<char>| m.contains_key(k) && !session_expired(m[k], now, timeout), |k: Seq<char>| m[k])
}

/// Counts of one platform's session.
#[derive(Debug, Clone)]
pub struct PlatformSessionStats {
    pub platform: String,
    pub request_count: u64,
    pub success_count: u64,
    pub success_rate_ppm: u32,
    pub session_age_ms: u64,
}

/// Counts over all sessions.
#[derive(Debug, Clone)]
pub struct SessionStats {
    pub active_sessions: u32,
    pub total_requests: u64,
    pub total_successes: u64,
    pub overall_success_rate_ppm: u32,
    pub platform_stats: Vec<PlatformSessionStats>,
}

pub open spec fn sum_requests(es: Seq<(Seq<char>, BrowserSession)>) -> nat
    decreases es.len(),
{
    if es.len() == 0 {
        0
    } else {
        sum_requests(es.drop_last()) + es.last().1.request_count as nat
    }
}

pub open spec fn sum_successes(es: Seq<(Seq<char>, BrowserSession)>) -> nat
    decreases es.len(),
{
    if es.len() == 0 {
        0
    } else {
        sum_successes(es.drop_last()) + es.last().1.success_count as nat
    }
}

proof fn lemma_sum_prefix_le(es: Seq<(Seq<char>, BrowserSession)>, i: int)
    requires
        0 <= i <= es.len(),
    ensures
        sum_requests(es.subrange(0, i)) <= sum_requests(es),
    decreases es.len(),
{
    if i < es.len() {
        lemma_sum_prefix_le(es.drop_last(), i);
        assert(es.drop_last().subrange(0, i) =~= es.subrange(0, i));
    } else {
        assert(es.subrange(0, i) =~= es);
    }
}

/// Sessions per platform, with the cookie jars and the configuration.
pub struct SessionManager {
    sessions: Table<BrowserSession>,
    cookie_store: CookieStore,
    config: SessionConfig,
}

impl View for SessionManager {
    type V = ManagerView;

    closed spec fn view(&self) -> ManagerView {
        ManagerView { sessions: self.sessions@, jars: self.cookie_store@, config: self.config }
    }
}

impl SessionManager {
    pub closed spec fn wf(&self) -> bool {
        &&& self@.wf()
        &&& self.sessions.wf()
        &&& self.cookie_store.wf()
    }

    /// The sessions in storage order.
    pub closed spec fn entries(&self) -> Seq<(Seq<char>, BrowserSession)> {
        self.sessions.entries()
    }

    pub fn new() -> (r: SessionManager)
        ensures
            r.wf(),
            r@.sessions.is_empty(),
            r@.jars.is_empty(),
            r@.config.session_timeout_ms == 1800000,
    {
        Self::new_with_config(SessionConfig::default())
    }

    pub fn new_with_config(config: SessionConfig) -> (r: SessionManager)
        ensures
            r.wf(),
            r@.sessions.is_empty(),
            r@.jars.is_empty(),
            r@.config == config,
    {
        SessionManager { sessions: Table::new(), cookie_store: CookieStore::new(), config }
    }

    pub fn get_config(&self) -> (r: SessionConfig)
        ensures
            r == self@.config,
    {
        self.config
    }

    pub fn update_config(&mut self, config: SessionConfig)
        requires
            old(self).wf(),
        ensures
            final(self).wf(),
            final(self)@ == (ManagerView { config, ..old(self)@ }),
    {
        self.config = config;
    }

    /// Whether `platform` has a session that has not expired at `now_ms`.
    pub fn has_valid_session(&self, platform: &str, now_ms: u64) -> (r: bool)
        requires
            self.wf(),
        ensures
            r == self@.valid(platform@, now_ms),
    {
        match self.sessions.get(platform) {
            Some(s) => !s.is_expired_with_config(&self.config, now_ms),
            None => false,
        }
    }

    /// Creates and stores a session for `platform` with the given id and
    /// viewport, replacing any earlier one.
    pub fn create_new_session(&mut self, platform: &str, now_ms: u64, session_id: String, viewport: Viewport) -> (r: BrowserSession)
        requires
            old(self).wf(),
        ensures
            final(self).wf(),
            fresh_session(r, platform@, now_ms, session_id@, viewport),
            final(self)@.sessions.contains_key(platform@),
            same_session(final(self)@.sessions[platform@], r),
            final(self)@.sessions.remove(platform@) == old(self)@.sessions.remove(platform@),
            final(self)@.jars == old(self)@.jars,
            final(self)@.config == old(self)@.config,
    {
        let session = BrowserSession {
            platform: platform.to_owned(),
            session_id,
            created_at: now_ms,
            last_activity: now_ms,
            cookies: Vec::new(),
            local_storage: Vec::new(),
            session_storage: Vec::new(),
            user_agent: generate_session_user_agent(platform),
            viewport,
            headers: generate_session_headers(platform),
            request_count: 0,
            success_count: 0,
            fingerprint: Vec::new(),
        };
        let r = session.duplicate();
        self.sessions.insert(platform, session);
        assert(self@.sessions.remove(platform@) =~= old(self)@.sessions.remove(platform@));
        r
    }

    /// Get-or-create with the id and viewport a new session would take.
    pub fn get_session_with(&mut self, platform: &str, now_ms: u64, session_id: String, viewport: Viewport) -> (r: BrowserSession)
        requires
            old(self).wf(),
        ensures
            final(self).wf(),
            old(self)@.served(final(self)@, platform@, now_ms, r, session_id@, viewport),
    {
        if let Some(s) = self.sessions.get(platform) {
            if !s.is_expired_with_config(&self.config, now_ms) {
                return s.duplicate();
            }
        }
        self.create_new_session(platform, now_ms, session_id, viewport)
    }

    /// The valid session of `platform`, or a new one with a random id and
    /// viewport.
    pub fn get_session(&mut self, platform: &str, now_ms: u64) -> (r: BrowserSession)
        requires
            old(self).wf(),
        ensures
            final(self).wf(),
            old(self)@.served(final(self)@, platform@, now_ms, r, r.session_id@, r.viewport),
            !old(self)@.valid(platform@, now_ms) ==> r.session_id@.len() == 21,
    {
        if self.has_valid_session(platform, now_ms) {
            self.get_session_with(platform, now_ms, String::new(), Viewport { width: 0, height: 0, device_pixel_ratio_milli: 0 })
        } else {
            let id = generate_session_id();
            let vp = generate_session_viewport();
            self.get_session_with(platform, now_ms, id, vp)
        }
    }

    /// Counts one request of `platform`'s session, and its success, and
    /// marks the session active at `now_ms`; nothing without a session.
    pub fn update_session(&mut self, platform: &str, success: bool, now_ms: u64)
        requires
            old(self).wf(),
        ensures
            final(self).wf(),
            final(self)@ == old(self)@.after_outcome(platform@, success, now_ms),
    {
        match self.sessions.remove(platform) {
            None => {
                assert(self@.sessions =~= old(self)@.sessions);
            },
            Some(mut s) => {
                if s.request_count < u64::MAX {
                    s.request_count = s.request_count + 1;
                }
                if success && s.success_count < u64::MAX {
                    s.success_count = s.success_count + 1;
                }
                s.last_activity = now_ms;
                self.sessions.insert(platform, s);
                assert(self@.sessions =~= old(self)@.sessions.insert(platform@, s));
            },
        }
    }

    /// Merges `cookies` into the jar of `platform`, and refreshes the
    /// session's copy of the jar when it has a session.
    pub fn store_cookies(&mut self, platform: &str, cookies: Vec<Cookie>, now_ms: u64)
        requires
            old(self).wf(),
        ensures
            final(self).wf(),
            final(self)@.jars.contains_key(platform@),
            jar_of(final(self)@.jars, platform@) == stored(jar_of(old(self)@.jars, platform@), cookies@, now_ms),
            final(self)@.jars.remove(platform@) == old(self)@.jars.remove(platform@),
            final(self)@.config == old(self)@.config,
            old(self)@.sessions.contains_key(platform@) ==> {
                &&& final(self)@.sessions.contains_key(platform@)
                &&& final(self)@.sessions[platform@] == BrowserSession {
                    cookies: final(self)@.sessions[platform@].cookies,
                    ..old(self)@.sessions[platform@]
                }
                &&& final(self)@.sessions[platform@].cookies@ == unexpired(jar_of(final(self)@.jars, platform@), now_ms)
                &&& final(self)@.sessions.remove(platform@) == old(self)@.sessions.remove(platform@)
            },
            !old(self)@.sessions.contains_key(platform@) ==> final(self)@.sessions == old(self)@.sessions,
    {
        self.cookie_store.store_cookies(platform, cookies, now_ms);
        match self.sessions.remove(platform) {
            None => {
                assert(self@.sessions =~= old(self)@.sessions);
            },
            Some(mut s) => {
                s.cookies = self.cookie_store.get_cookies(platform, now_ms);
                self.sessions.insert(platform, s);
                assert(self@.sessions.remove(platform@) =~= old(self)@.sessions.remove(platform@));
            },
        }
    }

    /// The cookies of `platform` not expired at `now_ms`.
    pub fn get_cookies(&self, platform: &str, now_ms: u64) -> (r: Vec<Cookie>)
        requires
            self.wf(),
        ensures
            r@ == unexpired(jar_of(self@.jars, platform@), now_ms),
    {
        self.cookie_store.get_cookies(platform, now_ms)
    }

    /// Evicts the sessions expired at `now_ms` and returns how many went.
    pub fn cleanup_expired_sessions(&mut self, now_ms: u64) -> (r: u32)
        requires
            old(self).wf(),
            old(self)@.sessions.len() <= u32::MAX,
        ensures
            final(self).wf(),
            final(self)@.sessions == live_sessions(old(self)@.sessions, now_ms, old(self)@.config.session_timeout_ms),
            final(self)@.jars == old(self)@.jars,
            final(self)@.config == old(self)@.config,
            r == old(self)@.sessions.len() - final(self)@.sessions.len(),
    {
        let ghost m = self@.sessions;
        let ghost timeout = self.config.session_timeout_ms;
        let before = self.sessions.len();
        proof {
            self.sessions.lemma_entries();
        }
        assert(before <= u32::MAX);
        let mut doomed: Vec<String> = Vec::new();
        let mut i: usize = 0;
        while i < before
            invariant
                before == self.sessions.entries().len(),
                self@ == old(self)@,
                self.cookie_store.wf(),
                self@.sessions == m,
                self.sessions.wf(),
                timeout == self.config.session_timeout_ms,
                i <= before,
                forall|j: int| #![trigger self.sessions.entries()[j]]
                    0 <= j < self.sessions.entries().len() ==> m.contains_key(self.sessions.entries()[j].0)
                        && m[self.sessions.entries()[j].0] == self.sessions.entries()[j].1,
                forall|j: int| 0 <= j < doomed@.len() ==> m.contains_key(#[trigger] doomed@[j]@)
                    && session_expired(m[doomed@[j]@], now_ms, timeout),
                forall|j: int| 0 <= j < i && session_expired(#[trigger] self.sessions.entries()[j].1, now_ms, timeout)
                    ==> exists|d: int| 0 <= d < doomed@.len() && doomed@[d]@ == self.sessions.entries()[j].0,
            decreases before - i,
        {
            let expired = self.sessions.value_at(i).is_expired_with_config(&self.config, now_ms);
            if expired {
                let ghost old_doomed = doomed@;
                doomed.push(self.sessions.key_at(i).clone());
                proof {
                    assert forall|j: int| 0 <= j < i && session_expired(#[trigger] self.sessions.entries()[j].1, now_ms, timeout)
                        implies exists|d: int| 0 <= d < doomed@.len() && doomed@[d]@ == self.sessions.entries()[j].0 by {
                        let d = choose|d: int| 0 <= d < old_doomed.len() && old_doomed[d]@ == self.sessions.entries()[j].0;
                        assert(doomed@[d] == old_doomed[d]);
                    }
                    assert(doomed@[old_doomed.len() as int]@ == self.sessions.entries()[i as int].0);
                }
            }
            i = i + 1;
        }
        let ghost gone = Set::new(|key: Seq<char>| exists|d: int| 0 <= d < doomed@.len() && doomed@[d]@ == key);
        let mut k: usize = 0;
        while k < doomed.len()
            invariant
                k <= doomed@.len(),
                self.sessions.wf(),
                self.cookie_store.wf(),
                self.sessions.entries().len() <= before,
                before <= u32::MAX,
                self@.jars == old(self)@.jars,
                self@.config == old(self)@.config,
                self@.sessions == m.remove_keys(Set::new(|key: Seq<char>| exists|d: int| 0 <= d < k && doomed@[d]@ == key)),
            decreases doomed@.len() - k,
        {
            let _ = self.sessions.remove(doomed[k].as_str());
            proof {
                assert(Set::new(|key: Seq<char>| exists|d: int| 0 <= d < k + 1 && doomed@[d]@ == key)
                    =~= Set::new(|key: Seq<char>| exists|d: int| 0 <= d < k && doomed@[d]@ == key).insert(doomed@[k as int]@));
                assert(self@.sessions =~= m.remove_keys(Set::new(|key: Seq<char>| exists|d: int| 0 <= d < k + 1 && doomed@[d]@ == key)));
            }
            k = k + 1;
        }
        proof {
            assert(Set::new(|key: Seq<char>| exists|d: int| 0 <= d < k && doomed@[d]@ == key) =~= gone);
            assert(self@.sessions =~= live_sessions(m, now_ms, timeout)) by {
                assert forall|key: Seq<char>| #[trigger] m.contains_key(key) && session_expired(m[key], now_ms, timeout) implies gone.contains(key) by {
                    let j = choose|j: int| 0 <= j < old(self).sessions.entries().len() && old(self).sessions.entries()[j].0 == key;
                    assert(self.sessions.entries().len() >= 0);
                    assert(session_expired(old(self).sessions.entries()[j].1, now_ms, timeout));
                }
            }
            assert forall|key: Seq<char>| #[trigger] self@.sessions.contains_key(key) implies self@.sessions[key].wf() by {
                assert(m.contains_key(key));
            }
        }
        let after = self.sessions.len();
        (before - after) as u32
    }

    /// Totals over all sessions at `now_ms`, with one entry per session in
    /// storage order.
    pub fn get_session_stats(&self, now_ms: u64) -> (r: SessionStats)
        requires
            self.wf(),
            self@.sessions.len() <= u32::MAX,
            sum_requests(self.entries()) <= u64::MAX,
        ensures
            r.active_sessions == self@.sessions.len(),
            r.total_requests == sum_requests(self.entries()),
            r.total_successes == sum_successes(self.entries()),
            r.overall_success_rate_ppm == rate_ppm(r.total_successes, r.total_requests),
            r.platform_stats@.len() == self.entries().len(),
            forall|i: int| 0 <= i < self.entries().len() ==> {
                let e = self.entries()[i];
                &&& (#[trigger] r.platform_stats@[i]).platform@ == e.0
                &&& r.platform_stats@[i].request_count == e.1.request_count
                &&& r.platform_stats@[i].success_count == e.1.success_count
                &&& r.platform_stats@[i].success_rate_ppm == rate_ppm(e.1.success_count, e.1.request_count)
                &&& r.platform_stats@[i].session_age_ms == if now_ms >= e.1.created_at { (now_ms - e.1.created_at) as u64 } else { 0u64 }
            },
            self.entries().len() == self@.sessions.len(),
    {
        proof {
            self.sessions.lemma_entries();
        }
        let n = self.sessions.len();
        let ghost es = self.entries();
        let mut total_requests: u64 = 0;
        let mut total_successes: u64 = 0;
        let mut per: Vec<PlatformSessionStats> = Vec::new();
        let mut i: usize = 0;
        while i < n
            invariant
                n == es.len(),
                es == self.entries(),
                self.wf(),
                i <= n,
                sum_requests(es) <= u64::MAX,
                forall|j: int| 0 <= j < es.len() ==> (#[trigger] es[j]).1.wf(),
                total_requests == sum_requests(es.subrange(0, i as int)),
                total_successes == sum_successes(es.subrange(0, i as int)),
                total_successes <= total_requests,
                per@.len() == i,
                forall|j: int| 0 <= j < i ==> {
                    let e = es[j];
                    &&& (#[trigger] per@[j]).platform@ == e.0
                    &&& per@[j].request_count == e.1.request_count
                    &&& per@[j].success_count == e.1.success_count
                    &&& per@[j].success_rate_ppm == rate_ppm(e.1.success_count, e.1.request_count)
                    &&& per@[j].session_age_ms == if now_ms >= e.1.created_at { (now_ms - e.1.created_at) as u64 } else { 0u64 }
                },
            decreases n - i,
        {
            proof {
                assert(es.subrange(0, i + 1).drop_last() =~= es.subrange(0, i as int));
                lemma_sum_prefix_le(es, i as int + 1);
            }
            let s = self.sessions.value_at(i);
            total_requests = total_requests + s.request_count;
            total_successes = total_successes + s.success_count;
            let age = if now_ms >= s.created_at { now_ms - s.created_at } else { 0 };
            per.push(PlatformSessionStats {
                platform: self.sessions.key_at(i).clone(),
                request_count: s.request_count,
                success_count: s.success_count,
                success_rate_ppm: s.success_rate(),
                session_age_ms: age,
            });
            i = i + 1;
        }
        assert(es.subrange(0, n as int) =~= es);
        SessionStats {
            active_sessions: n as u32,
            total_requests,
            total_successes,
            overall_success_rate_ppm: rate_of(total_successes, total_requests),
            platform_stats: per,
        }
    }

    /// Stores an opaque fingerprint profile in `platform`'s session.
    pub fn attach_fingerprint(&mut self, platform: &str, profile: Vec<u8>)
        requires
            old(self).wf(),
        ensures
            final(self).wf(),
            old(self)@.sessions.contains_key(platform@) ==> final(self)@ == (ManagerView {
                sessions: old(self)@.sessions.insert(platform@, BrowserSession { fingerprint: profile, ..old(self)@.sessions[platform@] }),
                ..old(self)@
            }),
            !old(self)@.sessions.contains_key(platform@) ==> final(self)@ == old(self)@,
    {
        match self.sessions.remove(platform) {
            None => {
                assert(self@.sessions =~= old(self)@.sessions);
            },
            Some(mut s) => {
                s.fingerprint = profile;
                self.sessions.insert(platform, s);
                assert(self@.sessions =~= old(self)@.sessions.insert(platform@, s));
            },
        }
    }
}

/// Session affinity: get-or-create calls for one platform at one instant
/// all return the session of the first, and only the first can change the
/// state, whatever ids and viewports the later calls would have used.
pub proof fn lemma_session_affinity(
    ms: Seq<ManagerView>,
    rs: Seq<BrowserSession>,
    ids: Seq<Seq<char>>,
    vps: Seq<Viewport>,
    platform: Seq<char>,
    now: u64,
)
    requires
        rs.len() >= 1,
        ms.len() == rs.len() + 1,
        ids.len() == rs.len(),
        vps.len() == rs.len(),
        forall|i: int| #![trigger rs[i]] 0 <= i < rs.len() ==> ms[i].served(ms[i + 1], platform, now, rs[i], ids[i], vps[i]),
    ensures
        forall|i: int| 0 <= i < rs.len() ==> (#[trigger] rs[i]).session_id@ == rs[0].session_id@,
        forall|i: int| 1 <= i < ms.len() ==> #[trigger] ms[i] == ms[1],
{
    let r0 = rs[0];
    assert(ms[0].served(ms[1], platform, now, r0, ids[0], vps[0]));
    assert(same_session(r0, ms[1].sessions[platform]));
    assert(ms[1].valid(platform, now));
    assert forall|i: int| 1 <= i < ms.len() implies #[trigger] ms[i] == ms[1] && (i < rs.len() ==> same_session(rs[i], ms[1].sessions[platform])) by {
        lemma_affinity_step(ms, rs, ids, vps, platform, now, i);
    }
    assert forall|i: int| 0 <= i < rs.len() implies (#[trigger] rs[i]).session_id@ == rs[0].session_id@ by {
        if i > 0 {
            lemma_affinity_step(ms, rs, ids, vps, platform, now, i);
            assert(same_session(rs[i], ms[1].sessions[platform]));
        }
    }
}

proof fn lemma_affinity_step(
    ms: Seq<ManagerView>,
    rs: Seq<BrowserSession>,
    ids: Seq<Seq<char>>,
    vps: Seq<Viewport>,
    platform: Seq<char>,
    now: u64,
    i: int,
)
    requires
        rs.len() >= 1,
        ms.len() == rs.len() + 1,
        ids.len() == rs.len(),
        vps.len() == rs.len(),
        forall|j: int| #![trigger rs[j]] 0 <= j < rs.len() ==> ms[j].served(ms[j + 1], platform, now, rs[j], ids[j], vps[j]),
        1 <= i < ms.len(),
        ms[1].valid(platform, now),
    ensures
        ms[i] == ms[1],
        i < rs.len() ==> same_session(rs[i], ms[1].sessions[platform]),
    decreases i,
{
    if i > 1 {
        lemma_affinity_step(ms, rs, ids, vps, platform, now, i - 1);
        let r = rs[i - 1];
        assert(ms[i - 1].served(ms[i], platform, now, r, ids[i - 1], vps[i - 1]));
    }
    if i < rs.len() {
        let r = rs[i];
        assert(ms[i].served(ms[i + 1], platform, now, r, ids[i], vps[i]));
    }
}

/// Session expiry: a session idle for longer than the timeout is not
/// returned; a fresh one, with the new id, takes its place.
pub proof fn lemma_expired_session_replaced(
    m: ManagerView,
    new: ManagerView,
    platform: Seq<char>,
    now: u64,
    r: BrowserSession,
    id: Seq<char>,
    vp: Viewport,
)
    requires
        m.sessions.contains_key(platform),
        now > m.sessions[platform].last_activity,
        now - m.sessions[platform].last_activity > m.config.session_timeout_ms,
        m.served(new, platform, now, r, id, vp),
    ensures
        r.session_id@ == id,
        r.created_at == now,
        r.request_count == 0,
        same_session(new.sessions[platform], r),
{
}

} // verus!
