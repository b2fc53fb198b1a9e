//! URL helpers, bot-protection detection and a simple request pacer.
use vstd::prelude::*;

use crate::text::{chars_of, contains, has_infix, has_prefix, starts_with, string_of};

verus! {

/// Characters of a URL up to, not including, its first '#'; all of them
/// when there is none.
pub open spec fn without_fragment(url: Seq<char>) -> Seq<char> {
    if exists|i: int| 0 <= i < url.len() && url[i] == '#' {
        url.subrange(0, choose|i: int| 0 <= i < url.len() && url[i] == '#' && forall|j: int| 0 <= j < i ==> url[j] != '#')
    } else {
        url
    }
}

/// Drops the fragment of a URL.
pub fn normalize_url(url: &str) -> (r: String)
    ensures
        r@ == without_fragment(url@),
{
    let cs = chars_of(url);
    let mut i: usize = 0;
    while i < cs.len()
        invariant
            cs@ == url@,
            i <= cs@.len(),
            forall|j: int| 0 <= j < i ==> cs@[j] != '#',
        decreases cs@.len() - i,
    {
        if cs[i] == '#' {
            let r = string_of(&cs, 0, i);
            proof {
                let k = choose|k: int| 0 <= k < url@.len() && url@[k] == '#' && forall|j: int| 0 <= j < k ==> url@[j] != '#';
                assert(k == i) by {
                    if k < i {
                        assert(cs@[k] != '#');
                    }
                    if k > i {
                        assert(url@[i as int] == '#');
                    }
                }
                assert(cs@.subrange(0, i as int) =~= url@.subrange(0, i as int));
            }
            return r;
        }
        i = i + 1;
    }
    assert(cs@.subrange(0, cs@.len() as int) =~= url@);
    string_of(&cs, 0, cs.len())
}

pub open spec fn is_web_url(url: Seq<char>) -> bool {
    has_prefix(url, "http://"@) || has_prefix(url, "https://"@)
}

/// Whether a URL uses http or https.
pub fn is_valid_url(url: &str) -> (r: bool)
    ensures
        r == is_web_url(url@),
{
    starts_with(url, "http://") || starts_with(url, "https://")
}

/// The default user agent of plain HTTP fetches.
pub fn generate_user_agent() -> (r: String)
    ensures
        r@ == "Mozilla/5.0 (X11; Linux x86_64; rv:91.0) Gecko/20100101 Firefox/91.0"@,
{
    String::from_str("Mozilla/5.0 (X11; Linux x86_64; rv:91.0) Gecko/20100101 Firefox/91.0")
}

/// What `str::to_lowercase` returns for a string.
pub uninterp spec fn lower_of(s: Seq<char>) -> Seq<char>;

/// Relies on str::to_lowercase: the result depends on the characters alone.
#[verifier::external_body]
pub(crate) fn lowercase(s: &str) -> (r: String)
    ensures
        r@ == lower_of(s@),
{
    s.to_lowercase()
}

/// Whether lower-cased page text carries a marker of bot protection.
pub open spec fn bot_markers(lower: Seq<char>) -> bool {
    ||| has_infix(lower, "captcha"@)
    ||| has_infix(lower, "cloudflare"@)
    ||| has_infix(lower, "access denied"@)
    ||| has_infix(lower, "blocked"@)
    ||| (has_infix(lower, "robot"@) && has_infix(lower, "detected"@))
}

/// Marker check on text that is already lower case.
pub fn has_bot_markers(lower: &str) -> (r: bool)
    ensures
        r == bot_markers(lower@),
{
    contains(lower, "captcha") || contains(lower, "cloudflare") || contains(lower, "access denied")
        || contains(lower, "blocked") || (contains(lower, "robot") && contains(lower, "detected"))
}

/// Whether a page is likely bot-protected, ignoring case.
pub fn is_bot_protected(html: &str) -> (r: bool)
    ensures
        r == bot_markers(lower_of(html@)),
{
    let lower = lowercase(html);
    has_bot_markers(lower.as_str())
}

/// What the `url` crate makes of a text: `None` when it does not parse,
/// else the host, if the URL has one.
pub uninterp spec fn parsed_host(url: Seq<char>) -> Option<Option<Seq<char>>>;

#[verifier::external_type_specification]
#[verifier::external_body]
pub struct ExUrlParseError(url::ParseError);

/// Relies on url::Url::parse and Url::host_str: the outcome depends on the
/// text alone.
#[verifier::external_body]
fn url_host(url: &str) -> (r: Result<Option<String>, url::ParseError>)
    ensures
        r is Ok <==> parsed_host(url@) is Some,
        r matches Ok(h) ==> parsed_host(url@) == Some(
            match h {
                Some(s) => Some(s@),
                None => None::<Seq<char>>,
            },
        ),
{
    match url::Url::parse(url) {
        Ok(u) => Ok(u.host_str().map(String::from)),
        Err(e) => Err(e),
    }
}

/// A URL that the `url` crate rejects.
#[derive(PartialEq, Eq, Structural, Debug, Clone, Copy)]
pub enum UrlError {
    Malformed,
}

/// The host of a URL (empty when it has none), or an error when it does
/// not parse.
pub fn extract_domain(url: &str) -> (r: Result<String, UrlError>)
    ensures
        match parsed_host(url@) {
            Some(Some(h)) => r matches Ok(d) && d@ == h,
            Some(None) => r matches Ok(d) && d@.len() == 0,
            None => r == Err::<String, UrlError>(UrlError::Malformed),
        },
{
    match url_host(url) {
        Ok(Some(h)) => Ok(h),
        Ok(None) => Ok(String::new()),
        Err(_) => Err(UrlError::Malformed),
    }
}

/// Paces requests to at most `requests_per_second`; the clock is read by the
/// caller, in milliseconds.
pub struct RateLimiter {
    min_interval_ms: u64,
    /// Earliest clock reading of the next request; 0 before the first.
    next_allowed: u64,
}

pub open spec fn sat_add(a: u64, b: u64) -> u64 {
    if a + b > u64::MAX { u64::MAX } else { (a + b) as u64 }
}

impl RateLimiter {
    pub closed spec fn interval(&self) -> u64 {
        self.min_interval_ms
    }

    pub closed spec fn next_allowed(&self) -> u64 {
        self.next_allowed
    }

    pub fn new(requests_per_second: u32) -> (r: RateLimiter)
        requires
            requests_per_second > 0,
        ensures
            r.interval() == 1000int / (requests_per_second as int),
            r.next_allowed() == 0,
    {
        RateLimiter { min_interval_ms: 1000 / requests_per_second as u64, next_allowed: 0 }
    }

    /// How long to wait at `now_ms` before the next request; the request
    /// counts as made when that wait ends, and the one after it may follow
    /// one interval later.
    pub fn wait_if_needed(&mut self, now_ms: u64) -> (r: u64)
        ensures
            r == if old(self).next_allowed() > now_ms { (old(self).next_allowed() - now_ms) as u64 } else { 0 },
            final(self).next_allowed() == sat_add(
                if old(self).next_allowed() > now_ms { old(self).next_allowed() } else { now_ms },
                old(self).interval(),
            ),
            final(self).interval() == old(self).interval(),
    {
        let start = if self.next_allowed > now_ms { self.next_allowed } else { now_ms };
        let wait = start - now_ms;
        self.next_allowed = if self.min_interval_ms <= u64::MAX - start {
            start + self.min_interval_ms
        } else {
            u64::MAX
        };
        wait
    }
}

} // verus!
