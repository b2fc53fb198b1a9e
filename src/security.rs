//! URL safety policy: allowed schemes, blocked hosts and private addresses.
use vstd::prelude::*;

use crate::robots::{all_digits, decimal, find_char, find_char_in};
use crate::text::{chars_of, contains, has_infix, str_eq};

verus! {

/// Why a URL is refused.
#[derive(Debug)]
pub enum SecurityError {
    InvalidScheme { scheme: String },
    PrivateIP { ip: String },
    BlockedDomain { domain: String },
    ValidationFailed { reason: String },
    InvalidPort { port: u16 },
    MalformedUrl { details: String },
}

/// The policy that URLs are checked against.
pub struct UrlValidator {
    pub allowed_schemes: Vec<String>,
    pub blocked_domains: Vec<String>,
    pub allow_private_ips: bool,
}

pub open spec fn default_schemes() -> Seq<Seq<char>> {
    seq!["http"@, "https"@]
}

pub open spec fn default_blocked() -> Seq<Seq<char>> {
    seq!["localhost"@, "127.0.0.1"@, "0.0.0.0"@, "169.254.169.254"@]
}

pub open spec fn string_views(v: Seq<String>) -> Seq<Seq<char>> {
    v.map_values(|s: String| s@)
}

impl Default for UrlValidator {
    fn default() -> (r: UrlValidator)
        ensures
            string_views(r.allowed_schemes@) == default_schemes(),
            string_views(r.blocked_domains@) == default_blocked(),
            !r.allow_private_ips,
    {
        UrlValidator::new(false)
    }
}

impl UrlValidator {
    /// The default policy: http and https only, local and cloud-metadata
    /// hosts blocked, private addresses allowed only when asked.
    pub fn new(allow_private_ips: bool) -> (r: UrlValidator)
        ensures
            string_views(r.allowed_schemes@) == default_schemes(),
            string_views(r.blocked_domains@) == default_blocked(),
            r.allow_private_ips == allow_private_ips,
    {
        let mut allowed_schemes: Vec<String> = Vec::new();
        allowed_schemes.push(String::from_str("http"));
        allowed_schemes.push(String::from_str("https"));
        let mut blocked_domains: Vec<String> = Vec::new();
        blocked_domains.push(String::from_str("localhost"));
        blocked_domains.push(String::from_str("127.0.0.1"));
        blocked_domains.push(String::from_str("0.0.0.0"));
        blocked_domains.push(String::from_str("169.254.169.254"));
        assert(string_views(allowed_schemes@) =~= default_schemes());
        assert(string_views(blocked_domains@) =~= default_blocked());
        UrlValidator { allowed_schemes, blocked_domains, allow_private_ips }
    }
}

/// The pieces of `s` between occurrences of `c`, as `str::split` gives them.
pub open spec fn pieces(s: Seq<char>, c: char) -> Seq<Seq<char>>
    decreases s.len(),
{
    let e = find_char(s, c, 0);
    if e >= s.len() {
        seq![s]
    } else {
        seq![s.subrange(0, e as int)] + pieces(s.subrange((e + 1) as int, s.len() as int), c)
    }
}

/// A decimal octet as IPv4 text writes it: one to three digits, no leading
/// zero, at most 255.
pub open spec fn octet_ok(p: Seq<char>) -> bool {
    &&& 1 <= p.len() <= 3
    &&& all_digits(p)
    &&& (p.len() == 1 || p[0] != '0')
    &&& decimal(p) <= 255
}

/// The four octets of a dotted-quad IPv4 address, if `s` is one.
pub open spec fn ipv4_of(s: Seq<char>) -> Option<(int, int, int, int)> {
    let ps = pieces(s, '.');
    if ps.len() == 4 && octet_ok(ps[0]) && octet_ok(ps[1]) && octet_ok(ps[2]) && octet_ok(ps[3]) {
        Some((decimal(ps[0]), decimal(ps[1]), decimal(ps[2]), decimal(ps[3])))
    } else {
        None
    }
}

/// Addresses that must not be fetched: private, loopback, link-local
/// (cloud metadata among them), broadcast, documentation and multicast.
pub open spec fn restricted_v4(a: int, b: int, c: int, d: int) -> bool {
    ||| a == 10
    ||| (a == 172 && 16 <= b <= 31)
    ||| (a == 192 && b == 168)
    ||| a == 127
    ||| (a == 169 && b == 254)
    ||| (a == 255 && b == 255 && c == 255 && d == 255)
    ||| (a == 192 && b == 0 && c == 2)
    ||| (a == 198 && b == 51 && c == 100)
    ||| (a == 203 && b == 0 && c == 113)
    ||| (224 <= a <= 239)
}

/// Whether a host is an IPv4 address in a restricted range; names and
/// bracketed IPv6 literals are not.
pub open spec fn private_host(host: Seq<char>) -> bool {
    match ipv4_of(host) {
        Some((a, b, c, d)) => restricted_v4(a, b, c, d),
        None => false,
    }
}

pub(crate) fn split_ranges(s: &Vec<char>, c: char) -> (r: Vec<(usize, usize)>)
    ensures
        r@.len() == pieces(s@, c).len(),
        forall|i: int| 0 <= i < r@.len() ==> {
            &&& (#[trigger] r@[i]).0 <= r@[i].1 <= s@.len()
            &&& s@.subrange(r@[i].0 as int, r@[i].1 as int) == pieces(s@, c)[i]
        },
{
    let n = s.len();
    let mut out: Vec<(usize, usize)> = Vec::new();
    let mut k: usize = 0;
    assert(s@.subrange(0, n as int) =~= s@);
    assert(Seq::new(out@.len(), |i: int| s@.subrange(out@[i].0 as int, out@[i].1 as int)) =~= Seq::<Seq<char>>::empty());
    loop
        invariant
            n == s@.len(),
            k <= n,
            pieces(s@, c) == Seq::new(out@.len(), |i: int| s@.subrange(out@[i].0 as int, out@[i].1 as int))
                + pieces(s@.subrange(k as int, n as int), c),
            forall|i: int| 0 <= i < out@.len() ==> (#[trigger] out@[i]).0 <= out@[i].1 <= n,
        ensures
            out@.len() == pieces(s@, c).len(),
            forall|i: int| 0 <= i < out@.len() ==> {
                &&& (#[trigger] out@[i]).0 <= out@[i].1 <= s@.len()
                &&& s@.subrange(out@[i].0 as int, out@[i].1 as int) == pieces(s@, c)[i]
            },
        decreases n - k,
    {
        let ghost rest = s@.subrange(k as int, n as int);
        let ghost before = Seq::new(out@.len(), |i: int| s@.subrange(out@[i].0 as int, out@[i].1 as int));
        let e = find_char_in(s, c, k, n);
        out.push((k, e));
        let ghost after = Seq::new(out@.len(), |i: int| s@.subrange(out@[i].0 as int, out@[i].1 as int));
        assert(after =~= before.push(s@.subrange(k as int, e as int)));
        assert(rest.subrange(0, (e - k) as int) =~= s@.subrange(k as int, e as int));
        if e >= n {
            assert(pieces(rest, c) =~= seq![s@.subrange(k as int, e as int)]);
            assert(pieces(s@, c) =~= after);
            return out;
        }
        assert(rest.subrange((e - k + 1) as int, rest.len() as int) =~= s@.subrange(e + 1, n as int));
        assert(pieces(s@, c) =~= after + pieces(s@.subrange(e + 1, n as int), c));
        k = e + 1;
    }
}

/// The octet that `s[from..to]` writes, if it is one.
fn octet_at(s: &Vec<char>, from: usize, to: usize) -> (r: Option<u8>)
    requires
        from <= to <= s@.len(),
    ensures
        octet_ok(s@.subrange(from as int, to as int)) ==> r == Some(decimal(s@.subrange(from as int, to as int)) as u8),
        octet_ok(s@.subrange(from as int, to as int)) ==> 0 <= decimal(s@.subrange(from as int, to as int)) <= 255,
        !octet_ok(s@.subrange(from as int, to as int)) ==> r is None,
{
    let ghost p = s@.subrange(from as int, to as int);
    if to - from < 1 || to - from > 3 {
        return None;
    }
    if to - from > 1 && s[from] == '0' {
        assert(p[0] == s@[from as int]);
        return None;
    }
    let mut v: u32 = 0;
    let mut i = from;
    while i < to
        invariant
            from <= i <= to <= s@.len(),
            to - from <= 3,
            p == s@.subrange(from as int, to as int),
            all_digits(s@.subrange(from as int, i as int)),
            v == decimal(s@.subrange(from as int, i as int)),
            v < 1000int,
            i - from <= 3,
        decreases to - i,
    {
        let ch = s[i];
        if !('0' <= ch && ch <= '9') {
            assert(p[i - from] == ch);
            return None;
        }
        let ghost q = s@.subrange(from as int, i + 1);
        assert(q.drop_last() =~= s@.subrange(from as int, i as int));
        assert(all_digits(q));
        assert(v * 10 + 9 < 10000) by (nonlinear_arith)
            requires
                v < 1000,
        ;
        v = v * 10 + (ch as u32 - '0' as u32);
        proof {
            lemma_decimal_small(q);
        }
        i = i + 1;
    }
    assert(p =~= s@.subrange(from as int, i as int));
    proof {
        lemma_decimal_small(p);
    }
    if v > 255 {
        None
    } else {
        assert(p.len() == 1 || p[0] == s@[from as int]);
        Some(v as u8)
    }
}

proof fn lemma_decimal_small(q: Seq<char>)
    requires
        all_digits(q),
        q.len() <= 3,
    ensures
        0 <= decimal(q) < 1000,
        q.len() <= 2 ==> decimal(q) < 100,
        q.len() <= 1 ==> decimal(q) < 10,
    decreases q.len(),
{
    if q.len() > 0 {
        assert(all_digits(q.drop_last())) by {
            assert forall|i: int| 0 <= i < q.drop_last().len() implies '0' <= #[trigger] q.drop_last()[i] && q.drop_last()[i] <= '9' by {
                assert(q.drop_last()[i] == q[i]);
            }
        }
        lemma_decimal_small(q.drop_last());
        assert('0' <= q[q.len() - 1] && q[q.len() - 1] <= '9');
    }
}

fn in_range(x: u8, lo: u8, hi: u8) -> (r: bool)
    ensures
        r == (lo <= x && x <= hi),
{
    lo <= x && x <= hi
}

/// Whether `host` is an IPv4 address in a restricted range.
pub fn is_private_host(host: &str) -> (r: bool)
    ensures
        r == private_host(host@),
{
    let s = chars_of(host);
    let parts = split_ranges(&s, '.');
    if parts.len() != 4 {
        return false;
    }
    let o0 = octet_at(&s, parts[0].0, parts[0].1);
    let o1 = octet_at(&s, parts[1].0, parts[1].1);
    let o2 = octet_at(&s, parts[2].0, parts[2].1);
    let o3 = octet_at(&s, parts[3].0, parts[3].1);
    match (o0, o1, o2, o3) {
        (Some(a), Some(b), Some(c), Some(d)) => {
            a == 10 || (a == 172 && in_range(b, 16, 31)) || (a == 192 && b == 168) || a == 127
                || (a == 169 && b == 254) || (a == 255 && b == 255 && c == 255 && d == 255)
                || (a == 192 && b == 0 && c == 2) || (a == 198 && b == 51 && c == 100)
                || (a == 203 && b == 0 && c == 113) || in_range(a, 224, 239)
        },
        _ => false,
    }
}

#[verifier::external_type_specification]
#[verifier::external_body]
pub struct ExUri(http::Uri);

#[verifier::external_type_specification]
#[verifier::external_body]
pub struct ExInvalidUri(http::uri::InvalidUri);

/// What `http::Uri` makes of a text: `None` when it does not parse, else
/// its scheme and its host, each if present.
pub uninterp spec fn uri_parts(url: Seq<char>) -> Option<(Option<Seq<char>>, Option<Seq<char>>)>;

pub open spec fn opt_view(o: Option<String>) -> Option<Seq<char>> {
    match o {
        Some(s) => Some(s@),
        None => None,
    }
}

/// Relies on http::Uri's FromStr with Uri::scheme_str and Uri::host: the
/// outcome depends on the text alone.
#[verifier::external_body]
fn parse_uri(url: &str) -> (r: Result<(http::Uri, Option<String>, Option<String>), http::uri::InvalidUri>)
    ensures
        r is Ok <==> uri_parts(url@) is Some,
        r matches Ok((_, s, h)) ==> uri_parts(url@) == Some((opt_view(s), opt_view(h))),
{
    match url.parse::<http::Uri>() {
        Ok(u) => {
            let scheme = u.scheme_str().map(String::from);
            let host = u.host().map(String::from);
            Ok((u, scheme, host))
        },
        Err(e) => Err(e),
    }
}

/// Relies on InvalidUri's Display: a description of why a text is no URI.
#[verifier::external_body]
fn invalid_uri_text(e: &http::uri::InvalidUri) -> (r: String) {
    e.to_string()
}

impl UrlValidator {
    /// Whether one of the blocked names occurs in `host`.
    pub open spec fn blocks(&self, host: Seq<char>) -> bool {
        exists|i: int| 0 <= i < self.blocked_domains@.len() && has_infix(host, #[trigger] self.blocked_domains@[i]@)
    }

    /// The verdict on a URL: it must parse, use an allowed scheme, name no
    /// blocked host and, unless allowed, no restricted IPv4 address.
    #[verifier::loop_isolation(false)]
    pub fn validate_url(&self, url: &str) -> (r: Result<http::Uri, SecurityError>)
        ensures
            match uri_parts(url@) {
                None => r matches Err(SecurityError::ValidationFailed { .. }),
                Some((s, h)) => {
                    let scheme = match s {
                        Some(x) => x,
                        None => Seq::<char>::empty(),
                    };
                    if !string_views(self.allowed_schemes@).contains(scheme) {
                        r matches Err(SecurityError::InvalidScheme { scheme: e }) && e@ == scheme
                    } else {
                        match h {
                            None => r is Ok,
                            Some(host) => if self.blocks(host) {
                                r matches Err(SecurityError::BlockedDomain { domain }) && domain@ == host
                            } else if !self.allow_private_ips && private_host(host) {
                                r matches Err(SecurityError::PrivateIP { ip }) && ip@ == host
                            } else {
                                r is Ok
                            },
                        }
                    }
                },
            },
    {
        let (uri, scheme, host) = match parse_uri(url) {
            Ok(t) => t,
            Err(e) => {
                let reason = String::from_str("Parse error: ").concat(invalid_uri_text(&e).as_str());
                return Err(SecurityError::ValidationFailed { reason });
            },
        };
        let scheme = match scheme {
            Some(x) => x,
            None => String::new(),
        };
        let mut allowed = false;
        let mut i: usize = 0;
        while i < self.allowed_schemes.len()
            invariant
                i <= self.allowed_schemes@.len(),
                allowed <==> exists|j: int| 0 <= j < i && self.allowed_schemes@[j]@ == scheme@,
            decreases self.allowed_schemes@.len() - i,
        {
            if str_eq(self.allowed_schemes[i].as_str(), scheme.as_str()) {
                allowed = true;
            }
            i = i + 1;
        }
        proof {
            let v = string_views(self.allowed_schemes@);
            if allowed {
                let j = choose|j: int| 0 <= j < self.allowed_schemes@.len() && self.allowed_schemes@[j]@ == scheme@;
                assert(v[j] == scheme@);
            } else {
                assert forall|j: int| 0 <= j < v.len() implies v[j] != scheme@ by {
                    assert(v[j] == self.allowed_schemes@[j]@);
                }
            }
        }
        if !allowed {
            return Err(SecurityError::InvalidScheme { scheme });
        }
        match host {
            None => Ok(uri),
            Some(h) => {
                let mut k: usize = 0;
                while k < self.blocked_domains.len()
                    invariant
                        k <= self.blocked_domains@.len(),
                        forall|j: int| 0 <= j < k ==> !has_infix(h@, #[trigger] self.blocked_domains@[j]@),
                    decreases self.blocked_domains@.len() - k,
                {
                    if contains(h.as_str(), self.blocked_domains[k].as_str()) {
                        assert(has_infix(h@, self.blocked_domains@[k as int]@));
                        return Err(SecurityError::BlockedDomain { domain: h });
                    }
                    k = k + 1;
                }
                if !self.allow_private_ips && is_private_host(h.as_str()) {
                    return Err(SecurityError::PrivateIP { ip: h });
                }
                Ok(uri)
            },
        }
    }
}

} // verus!
