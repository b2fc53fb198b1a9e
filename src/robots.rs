//! robots.txt: parsing into directives, and path checks against them.
//!
//! The text is split into lines at '\n' (a '\r' before it is dropped). Each
//! line is trimmed of white space; empty lines and '#' comments are skipped.
//! A line `directive: value` with a directive of `user-agent`, `disallow`,
//! `allow` or `crawl-delay` (in any case) sets or adds the trimmed value;
//! other lines are ignored.
use vstd::prelude::*;

use crate::text::{chars_of, has_prefix, starts_with, string_of};

verus! {

pub open spec fn is_space(c: char) -> bool {
    c == ' ' || c == '\t' || c == '\n' || c == '\r' || c == '\x0b' || c == '\x0c'
}

pub open spec fn trim_start(s: Seq<char>) -> Seq<char>
    decreases s.len(),
{
    if s.len() > 0 && is_space(s[0]) { trim_start(s.drop_first()) } else { s }
}

pub open spec fn trim_end(s: Seq<char>) -> Seq<char>
    decreases s.len(),
{
    if s.len() > 0 && is_space(s.last()) { trim_end(s.drop_last()) } else { s }
}

/// `s` without leading and trailing white space.
pub open spec fn trim(s: Seq<char>) -> Seq<char> {
    trim_end(trim_start(s))
}

/// Index of the first `c` at or after `k`, or the length.
pub open spec fn find_char(s: Seq<char>, c: char, k: nat) -> nat
    decreases s.len() - k,
{
    if k >= s.len() {
        s.len()
    } else if s[k as int] == c {
        k
    } else {
        find_char(s, c, k + 1)
    }
}

/// `s` equals the lower-case word `w` when ASCII letters of `s` are
/// lowered.
pub open spec fn ascii_ci_eq(s: Seq<char>, w: Seq<char>) -> bool {
    &&& s.len() == w.len()
    &&& forall|i: int| 0 <= i < s.len() ==> #[trigger] s[i] == w[i] || ('a' <= w[i] && w[i] <= 'z'
        && s[i] as u32 + 32 == w[i] as u32)
}

pub open spec fn digit_value(c: char) -> int {
    (c as u32) - ('0' as u32)
}

pub open spec fn all_digits(s: Seq<char>) -> bool {
    forall|i: int| 0 <= i < s.len() ==> '0' <= #[trigger] s[i] && s[i] <= '9'
}

/// The number that decimal digits `s` spell.
pub open spec fn decimal(s: Seq<char>) -> int
    decreases s.len(),
{
    if s.len() == 0 {
        0
    } else {
        decimal(s.drop_last()) * 10 + digit_value(s.last())
    }
}

/// What `u64::from_str` gives: an optional '+' and one or more decimal
/// digits whose value fits.
pub open spec fn parse_u64_spec(s: Seq<char>) -> Option<u64> {
    let d = if s.len() > 0 && s[0] == '+' { s.drop_first() } else { s };
    if d.len() > 0 && all_digits(d) && decimal(d) <= u64::MAX {
        Some(decimal(d) as u64)
    } else {
        None
    }
}

/// Abstract content of a `RobotsTxt`.
pub struct RobotsView {
    pub user_agent: Option<Seq<char>>,
    pub disallow: Seq<Seq<char>>,
    pub allow: Seq<Seq<char>>,
    pub crawl_delay: Option<u64>,
}

/// `r` after one line of the file.
pub open spec fn apply_line(r: RobotsView, line: Seq<char>) -> RobotsView {
    let t = trim(line);
    let c = find_char(t, ':', 0);
    if t.len() == 0 || t[0] == '#' || c >= t.len() {
        r
    } else {
        let directive = trim(t.subrange(0, c as int));
        let value = trim(t.subrange((c + 1) as int, t.len() as int));
        if ascii_ci_eq(directive, "user-agent"@) {
            RobotsView { user_agent: Some(value), ..r }
        } else if ascii_ci_eq(directive, "disallow"@) {
            RobotsView { disallow: r.disallow.push(value), ..r }
        } else if ascii_ci_eq(directive, "allow"@) {
            RobotsView { allow: r.allow.push(value), ..r }
        } else if ascii_ci_eq(directive, "crawl-delay"@) {
            match parse_u64_spec(value) {
                Some(d) => RobotsView { crawl_delay: Some(d), ..r },
                None => r,
            }
        } else {
            r
        }
    }
}

/// The first line of `s`: up to the first '\n', without a '\r' just
/// before it.
pub open spec fn first_line(s: Seq<char>) -> Seq<char> {
    let e = find_char(s, '\n', 0);
    let raw = s.subrange(0, e as int);
    if e < s.len() && raw.len() > 0 && raw.last() == '\r' { raw.drop_last() } else { raw }
}

/// What follows the first line of `s` and its '\n'.
pub open spec fn after_first_line(s: Seq<char>) -> Seq<char> {
    let e = find_char(s, '\n', 0);
    if e < s.len() { s.subrange((e + 1) as int, s.len() as int) } else { Seq::empty() }
}

/// `r` after each line of `s` in turn.
pub open spec fn parse_from(r: RobotsView, s: Seq<char>) -> RobotsView
    decreases s.len(),
{
    if s.len() == 0 {
        r
    } else {
        parse_from(apply_line(r, first_line(s)), after_first_line(s))
    }
}

pub open spec fn empty_robots() -> RobotsView {
    RobotsView { user_agent: None, disallow: Seq::empty(), allow: Seq::empty(), crawl_delay: None }
}

pub open spec fn robots_of(content: Seq<char>) -> RobotsView {
    parse_from(empty_robots(), content)
}

/// Whether `path` may be fetched: not when it starts with a disallowed
/// prefix, else yes.
pub open spec fn allowed(r: RobotsView, path: Seq<char>) -> bool {
    !(exists|i: int| 0 <= i < r.disallow.len() && has_prefix(path, #[trigger] r.disallow[i]))
}

/// Directives of a robots.txt file.
pub struct RobotsTxt {
    pub user_agent: Option<String>,
    pub disallow: Vec<String>,
    pub allow: Vec<String>,
    pub crawl_delay: Option<u64>,
}

pub open spec fn views(v: Seq<String>) -> Seq<Seq<char>> {
    v.map_values(|s: String| s@)
}

impl View for RobotsTxt {
    type V = RobotsView;

    open spec fn view(&self) -> RobotsView {
        RobotsView {
            user_agent: match self.user_agent {
                Some(u) => Some(u@),
                None => None,
            },
            disallow: views(self.disallow@),
            allow: views(self.allow@),
            crawl_delay: self.crawl_delay,
        }
    }
}

impl RobotsTxt {
    pub fn new() -> (r: RobotsTxt)
        ensures
            r@ == empty_robots(),
    {
        let r = RobotsTxt { user_agent: None, disallow: Vec::new(), allow: Vec::new(), crawl_delay: None };
        assert(r@.disallow =~= Seq::<Seq<char>>::empty());
        assert(r@.allow =~= Seq::<Seq<char>>::empty());
        r
    }

    /// A path is refused when it starts with a disallowed prefix and allowed
    /// otherwise; an allow rule only confirms the default.
    pub fn is_allowed(&self, path: &str) -> (r: bool)
        ensures
            r == allowed(self@, path@),
    {
        let mut i: usize = 0;
        while i < self.disallow.len()
            invariant
                i <= self.disallow@.len(),
                forall|j: int| 0 <= j < i ==> !has_prefix(path@, #[trigger] self@.disallow[j]),
            decreases self.disallow@.len() - i,
        {
            if starts_with(path, self.disallow[i].as_str()) {
                assert(has_prefix(path@, self@.disallow[i as int]));
                return false;
            }
            i = i + 1;
        }
        true
    }
}

impl Default for RobotsTxt {
    fn default() -> (r: RobotsTxt)
        ensures
            r@ == empty_robots(),
    {
        RobotsTxt::new()
    }
}

fn is_space_char(c: char) -> (r: bool)
    ensures
        r == is_space(c),
{
    c == ' ' || c == '\t' || c == '\n' || c == '\r' || c == '\x0b' || c == '\x0c'
}

/// Bounds of `s[from..to]` without leading and trailing white space.
pub(crate) fn trimmed(s: &Vec<char>, from: usize, to: usize) -> (r: (usize, usize))
    requires
        from <= to <= s@.len(),
    ensures
        from <= r.0 <= r.1 <= to,
        s@.subrange(r.0 as int, r.1 as int) == trim(s@.subrange(from as int, to as int)),
{
    let mut a = from;
    while a < to && is_space_char(s[a])
        invariant
            from <= a <= to <= s@.len(),
            trim_start(s@.subrange(from as int, to as int)) == trim_start(s@.subrange(a as int, to as int)),
        decreases to - a,
    {
        assert(s@.subrange(a as int, to as int).drop_first() =~= s@.subrange(a + 1, to as int));
        a = a + 1;
    }
    let mut b = to;
    while b > a && is_space_char(s[b - 1])
        invariant
            from <= a <= b <= to <= s@.len(),
            trim_start(s@.subrange(from as int, to as int)) == s@.subrange(a as int, to as int),
            trim_end(s@.subrange(a as int, to as int)) == trim_end(s@.subrange(a as int, b as int)),
        decreases b,
    {
        assert(s@.subrange(a as int, b as int).drop_last() =~= s@.subrange(a as int, b - 1));
        b = b - 1;
    }
    (a, b)
}

/// `from` plus the offset of the first `c` in `s[from..to]`, or `to`.
pub(crate) fn find_char_in(s: &Vec<char>, c: char, from: usize, to: usize) -> (r: usize)
    requires
        from <= to <= s@.len(),
    ensures
        r == from + find_char(s@.subrange(from as int, to as int), c, 0),
        from <= r <= to,
{
    let ghost t = s@.subrange(from as int, to as int);
    let mut i = from;
    while i < to
        invariant
            from <= i <= to <= s@.len(),
            t == s@.subrange(from as int, to as int),
            find_char(t, c, 0) == find_char(t, c, (i - from) as nat),
        decreases to - i,
    {
        assert(t[i - from] == s@[i as int]);
        if s[i] == c {
            return i;
        }
        i = i + 1;
    }
    to
}

/// Whether `s[from..to]` equals the lower-case word `w` up to ASCII case.
fn ci_eq(s: &Vec<char>, from: usize, to: usize, w: &str) -> (r: bool)
    requires
        from <= to <= s@.len(),
    ensures
        r == ascii_ci_eq(s@.subrange(from as int, to as int), w@),
{
    let ghost t = s@.subrange(from as int, to as int);
    let n = w.unicode_len();
    if to - from != n {
        return false;
    }
    let mut i: usize = 0;
    while i < n
        invariant
            n == w@.len(),
            to - from == n,
            from <= to <= s@.len(),
            t == s@.subrange(from as int, to as int),
            i <= n,
            forall|j: int| 0 <= j < i ==> #[trigger] t[j] == w@[j] || ('a' <= w@[j] && w@[j] <= 'z'
                && t[j] as u32 + 32 == w@[j] as u32),
        decreases n - i,
    {
        let x = s[from + i];
        let y = w.get_char(i);
        assert(t[i as int] == x);
        if !(x == y || ('a' <= y && y <= 'z' && x as u32 == y as u32 - 32)) {
            return false;
        }
        i = i + 1;
    }
    true
}

proof fn lemma_decimal_grows(x: Seq<char>)
    requires
        x.len() > 0,
        all_digits(x),
    ensures
        decimal(x) >= decimal(x.drop_last()),
        decimal(x.drop_last()) >= 0,
{
    assert(all_digits(x.drop_last())) by {
        assert forall|i: int| 0 <= i < x.drop_last().len() implies '0' <= #[trigger] x.drop_last()[i] && x.drop_last()[i] <= '9' by {
            assert(x.drop_last()[i] == x[i]);
        }
    }
    lemma_decimal_nonneg(x.drop_last());
    assert('0' <= x[x.len() - 1]);
}

proof fn lemma_decimal_nonneg(x: Seq<char>)
    ensures
        all_digits(x) ==> decimal(x) >= 0,
    decreases x.len(),
{
    if x.len() > 0 {
        lemma_decimal_nonneg(x.drop_last());
        if all_digits(x) {
            assert(all_digits(x.drop_last())) by {
                assert forall|i: int| 0 <= i < x.drop_last().len() implies '0' <= #[trigger] x.drop_last()[i] && x.drop_last()[i] <= '9' by {
                    assert(x.drop_last()[i] == x[i]);
                }
            }
            assert('0' <= x[x.len() - 1]);
        }
    }
}

/// The number `s[from..to]` spells as `u64::from_str` reads it.
pub(crate) fn parse_u64_at(s: &Vec<char>, from: usize, to: usize) -> (r: Option<u64>)
    requires
        from <= to <= s@.len(),
    ensures
        r == parse_u64_spec(s@.subrange(from as int, to as int)),
{
    let ghost t = s@.subrange(from as int, to as int);
    let start = if from < to && s[from] == '+' { from + 1 } else { from };
    let ghost d = s@.subrange(start as int, to as int);
    assert(d == (if t.len() > 0 && t[0] == '+' { t.drop_first() } else { t }));
    if start == to {
        return None;
    }
    let mut acc: u64 = 0;
    let mut over = false;
    let mut i = start;
    while i < to
        invariant
            start <= i <= to <= s@.len(),
            from <= start,
            start < to,
            t == s@.subrange(from as int, to as int),
            d == s@.subrange(start as int, to as int),
            d == (if t.len() > 0 && t[0] == '+' { t.drop_first() } else { t }),
            all_digits(s@.subrange(start as int, i as int)),
            !over ==> acc == decimal(s@.subrange(start as int, i as int)),
            over ==> decimal(s@.subrange(start as int, i as int)) > u64::MAX,
        decreases to - i,
    {
        let c = s[i];
        if !('0' <= c && c <= '9') {
            assert(d[i - start] == c);
            return None;
        }
        let ghost p = s@.subrange(start as int, i as int);
        let ghost q = s@.subrange(start as int, i + 1);
        assert(q.drop_last() =~= p);
        assert(q.last() == c);
        assert(all_digits(q));
        proof {
            lemma_decimal_grows(q);
        }
        let v = (c as u32 - '0' as u32) as u64;
        if !over {
            if acc <= (u64::MAX - v) / 10 {
                acc = acc * 10 + v;
            } else {
                over = true;
            }
        }
        i = i + 1;
    }
    assert(s@.subrange(start as int, i as int) == d);
    if over {
        None
    } else {
        Some(acc)
    }
}

/// `r` after the line `s[from..to]`.
fn apply_line_exec(r: &mut RobotsTxt, s: &Vec<char>, from: usize, to: usize)
    requires
        from <= to <= s@.len(),
    ensures
        final(r)@ == apply_line(old(r)@, s@.subrange(from as int, to as int)),
{
    let (a, b) = trimmed(s, from, to);
    let ghost t = s@.subrange(a as int, b as int);
    if a == b {
        return;
    }
    assert(t[0] == s@[a as int]);
    if s[a] == '#' {
        return;
    }
    let c = find_char_in(s, ':', a, b);
    if c >= b {
        return;
    }
    assert(t.subrange(0, c - a) =~= s@.subrange(a as int, c as int));
    assert(t.subrange(c - a + 1, t.len() as int) =~= s@.subrange(c + 1, b as int));
    let (da, db) = trimmed(s, a, c);
    let (va, vb) = trimmed(s, c + 1, b);
    if ci_eq(s, da, db, "user-agent") {
        r.user_agent = Some(string_of(s, va, vb));
    } else if ci_eq(s, da, db, "disallow") {
        let v = string_of(s, va, vb);
        let ghost before = r.disallow@;
        r.disallow.push(v);
        assert(views(r.disallow@) =~= views(before).push(v@));
    } else if ci_eq(s, da, db, "allow") {
        let v = string_of(s, va, vb);
        let ghost before = r.allow@;
        r.allow.push(v);
        assert(views(r.allow@) =~= views(before).push(v@));
    } else if ci_eq(s, da, db, "crawl-delay") {
        match parse_u64_at(s, va, vb) {
            Some(d) => {
                r.crawl_delay = Some(d);
            },
            None => {},
        }
    }
}

/// Parses robots.txt text into its directives.
pub fn parse_robots_txt(content: &str) -> (r: RobotsTxt)
    ensures
        r@ == robots_of(content@),
{
    let s = chars_of(content);
    let n = s.len();
    let mut r = RobotsTxt::new();
    let mut k: usize = 0;
    assert(s@.subrange(0, n as int) =~= content@);
    while k < n
        invariant
            k <= n,
            n == s@.len(),
            s@ == content@,
            parse_from(r@, s@.subrange(k as int, n as int)) == robots_of(content@),
        decreases n - k,
    {
        let ghost rest = s@.subrange(k as int, n as int);
        let e = find_char_in(&s, '\n', k, n);
        let mut le = e;
        if e < n && le > k && s[le - 1] == '\r' {
            le = le - 1;
        }
        proof {
            let raw = rest.subrange(0, (e - k) as int);
            assert(raw =~= s@.subrange(k as int, e as int));
            if e < n && e > k && s@[e - 1] == '\r' {
                assert(raw.drop_last() =~= s@.subrange(k as int, le as int));
            }
            assert(first_line(rest) == s@.subrange(k as int, le as int));
        }
        apply_line_exec(&mut r, &s, k, le);
        let next = if e < n { e + 1 } else { n };
        proof {
            if e < n {
                assert(after_first_line(rest) =~= s@.subrange(next as int, n as int));
            } else {
                assert(after_first_line(rest) =~= s@.subrange(next as int, n as int));
            }
        }
        k = next;
    }
    r
}

} // verus!
