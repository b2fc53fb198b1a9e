//! Cookies and per-platform cookie jars.
//!
//! A jar holds at most one cookie per (name, domain, path). Storing a cookie
//! replaces the one with its key; a cookie already expired is not stored, and
//! expired cookies are dropped on every merge and never read.
use vstd::prelude::*;

use crate::table::Table;
use crate::text::str_eq;

verus! {

#[derive(PartialEq, Eq, Structural, Debug, Clone, Copy)]
pub enum SameSite {
    Strict,
    Lax,
    /// The attribute value `None`: sent with cross-site requests.
    NoRestriction,
}

pub struct Cookie {
    pub name: String,
    pub value: String,
    pub domain: String,
    pub path: String,
    /// Clock reading (ms) from which the cookie is expired.
    pub expires: Option<u64>,
    pub secure: bool,
    pub http_only: bool,
    pub same_site: Option<SameSite>,
}

pub open spec fn expired_at(c: Cookie, now: u64) -> bool {
    match c.expires {
        Some(t) => t <= now,
        None => false,
    }
}

pub open spec fn same_key(a: Cookie, b: Cookie) -> bool {
    a.name@ == b.name@ && a.domain@ == b.domain@ && a.path@ == b.path@
}

/// The cookies of `jar` not expired at `now`, in order.
pub open spec fn unexpired(jar: Seq<Cookie>, now: u64) -> Seq<Cookie>
    decreases jar.len(),
{
    if jar.len() == 0 {
        jar
    } else if expired_at(jar.last(), now) {
        unexpired(jar.drop_last(), now)
    } else {
        unexpired(jar.drop_last(), now).push(jar.last())
    }
}

/// The cookies of `jar` whose key differs from that of `c`, in order.
pub open spec fn without_key(jar: Seq<Cookie>, c: Cookie) -> Seq<Cookie>
    decreases jar.len(),
{
    if jar.len() == 0 {
        jar
    } else if same_key(jar.last(), c) {
        without_key(jar.drop_last(), c)
    } else {
        without_key(jar.drop_last(), c).push(jar.last())
    }
}

/// `jar` after storing `c` at `now`.
pub open spec fn merge_one(jar: Seq<Cookie>, c: Cookie, now: u64) -> Seq<Cookie> {
    if expired_at(c, now) {
        jar
    } else {
        without_key(jar, c).push(c)
    }
}

/// `jar` after storing `cs`, in order, into it.
pub open spec fn merge_all(jar: Seq<Cookie>, cs: Seq<Cookie>, now: u64) -> Seq<Cookie>
    decreases cs.len(),
{
    if cs.len() == 0 {
        jar
    } else {
        merge_one(merge_all(jar, cs.drop_last(), now), cs.last(), now)
    }
}

/// A jar after a store of `cs` at `now`: expired cookies dropped, then each
/// of `cs` merged in.
pub open spec fn stored(jar: Seq<Cookie>, cs: Seq<Cookie>, now: u64) -> Seq<Cookie> {
    merge_all(unexpired(jar, now), cs, now)
}

/// How many cookies of `jar` have the key of `c`.
pub open spec fn count_key(jar: Seq<Cookie>, c: Cookie) -> nat
    decreases jar.len(),
{
    if jar.len() == 0 {
        0
    } else {
        count_key(jar.drop_last(), c) + if same_key(jar.last(), c) { 1nat } else { 0nat }
    }
}

impl Cookie {
    /// Expired once the clock has reached its expiry time.
    pub fn is_expired(&self, now_ms: u64) -> (r: bool)
        ensures
            r == expired_at(*self, now_ms),
    {
        match self.expires {
            Some(t) => t <= now_ms,
            None => false,
        }
    }

    pub fn duplicate(&self) -> (r: Cookie)
        ensures
            r == *self,
    {
        Cookie {
            name: self.name.clone(),
            value: self.value.clone(),
            domain: self.domain.clone(),
            path: self.path.clone(),
            expires: self.expires,
            secure: self.secure,
            http_only: self.http_only,
            same_site: self.same_site,
        }
    }

    fn has_key_of(&self, c: &Cookie) -> (r: bool)
        ensures
            r == same_key(*self, *c),
    {
        str_eq(self.name.as_str(), c.name.as_str()) && str_eq(self.domain.as_str(), c.domain.as_str())
            && str_eq(self.path.as_str(), c.path.as_str())
    }
}

/// The cookies of `jar` not expired at `now_ms`.
pub fn unexpired_cookies(jar: &Vec<Cookie>, now_ms: u64) -> (r: Vec<Cookie>)
    ensures
        r@ == unexpired(jar@, now_ms),
{
    let mut out: Vec<Cookie> = Vec::new();
    let mut i: usize = 0;
    while i < jar.len()
        invariant
            i <= jar@.len(),
            out@ == unexpired(jar@.subrange(0, i as int), now_ms),
        decreases jar@.len() - i,
    {
        proof {
            assert(jar@.subrange(0, i + 1).drop_last() =~= jar@.subrange(0, i as int));
        }
        if !jar[i].is_expired(now_ms) {
            out.push(jar[i].duplicate());
        }
        i = i + 1;
    }
    assert(jar@.subrange(0, i as int) =~= jar@);
    out
}

/// Stores `c` into `jar` at `now_ms`.
fn merge_cookie(jar: Vec<Cookie>, c: Cookie, now_ms: u64) -> (r: Vec<Cookie>)
    ensures
        r@ == merge_one(jar@, c, now_ms),
{
    if c.is_expired(now_ms) {
        return jar;
    }
    let mut out: Vec<Cookie> = Vec::new();
    let mut i: usize = 0;
    while i < jar.len()
        invariant
            i <= jar@.len(),
            out@ == without_key(jar@.subrange(0, i as int), c),
        decreases jar@.len() - i,
    {
        proof {
            assert(jar@.subrange(0, i + 1).drop_last() =~= jar@.subrange(0, i as int));
        }
        if !jar[i].has_key_of(&c) {
            out.push(jar[i].duplicate());
        }
        i = i + 1;
    }
    assert(jar@.subrange(0, i as int) =~= jar@);
    out.push(c);
    out
}

/// Cookie jars, one per platform.
pub struct CookieStore {
    cookies: Table<Vec<Cookie>>,
}

/// A platform's jar in a store's view; empty when it has none.
pub open spec fn jar_of(m: Map<Seq<char>, Vec<Cookie>>, platform: Seq<char>) -> Seq<Cookie> {
    if m.contains_key(platform) { m[platform]@ } else { Seq::empty() }
}

impl View for CookieStore {
    type V = Map<Seq<char>, Vec<Cookie>>;

    closed spec fn view(&self) -> Map<Seq<char>, Vec<Cookie>> {
        self.cookies@
    }
}

impl CookieStore {
    pub closed spec fn wf(&self) -> bool {
        self.cookies.wf()
    }

    pub fn new() -> (r: CookieStore)
        ensures
            r.wf(),
            r@.is_empty(),
    {
        CookieStore { cookies: Table::new() }
    }

    /// Merges `cookies`, in order, into the jar of `platform`.
    pub fn store_cookies(&mut self, platform: &str, cookies: Vec<Cookie>, now_ms: u64)
        requires
            old(self).wf(),
        ensures
            final(self).wf(),
            final(self)@.contains_key(platform@),
            jar_of(final(self)@, platform@) == stored(jar_of(old(self)@, platform@), cookies@, now_ms),
            final(self)@.remove(platform@) == old(self)@.remove(platform@),
    {
        let mut jar = match self.cookies.remove(platform) {
            Some(j) => unexpired_cookies(&j, now_ms),
            None => Vec::new(),
        };
        let ghost start = jar@;
        let mut i: usize = 0;
        while i < cookies.len()
            invariant
                i <= cookies@.len(),
                jar@ == merge_all(start, cookies@.subrange(0, i as int), now_ms),
            decreases cookies@.len() - i,
        {
            proof {
                assert(cookies@.subrange(0, i + 1).drop_last() =~= cookies@.subrange(0, i as int));
            }
            jar = merge_cookie(jar, cookies[i].duplicate(), now_ms);
            i = i + 1;
        }
        assert(cookies@.subrange(0, i as int) =~= cookies@);
        self.cookies.insert(platform, jar);
        assert(final(self)@.remove(platform@) =~= old(self)@.remove(platform@));
    }

    /// The cookies of `platform` not expired at `now_ms`.
    pub fn get_cookies(&self, platform: &str, now_ms: u64) -> (r: Vec<Cookie>)
        requires
            self.wf(),
        ensures
            r@ == unexpired(jar_of(self@, platform@), now_ms),
    {
        match self.cookies.get(platform) {
            Some(j) => unexpired_cookies(j, now_ms),
            None => Vec::new(),
        }
    }
}

proof fn lemma_without_key_drops_key(jar: Seq<Cookie>, c: Cookie)
    ensures
        count_key(without_key(jar, c), c) == 0,
    decreases jar.len(),
{
    if jar.len() > 0 {
        lemma_without_key_drops_key(jar.drop_last(), c);
        let w = without_key(jar.drop_last(), c);
        if !same_key(jar.last(), c) {
            assert(w.push(jar.last()).drop_last() =~= w);
        }
    }
}

proof fn lemma_unexpired_idempotent(jar: Seq<Cookie>, now: u64)
    ensures
        unexpired(unexpired(jar, now), now) == unexpired(jar, now),
    decreases jar.len(),
{
    if jar.len() > 0 {
        lemma_unexpired_idempotent(jar.drop_last(), now);
        let u = unexpired(jar.drop_last(), now);
        if !expired_at(jar.last(), now) {
            assert(u.push(jar.last()).drop_last() =~= u);
        }
    }
}

/// Storing a cookie twice under one key, with different values, leaves
/// exactly one cookie under that key: the one stored last.
pub proof fn lemma_cookie_merge_idempotence(jar: Seq<Cookie>, c1: Cookie, c2: Cookie, now: u64)
    requires
        same_key(c1, c2),
        !expired_at(c2, now),
    ensures
        count_key(stored(stored(jar, seq![c1], now), seq![c2], now), c1) == 1,
        stored(stored(jar, seq![c1], now), seq![c2], now).last() == c2,
        unexpired(stored(stored(jar, seq![c1], now), seq![c2], now), now).last() == c2,
{
    let j1 = stored(jar, seq![c1], now);
    let u = unexpired(j1, now);
    let one = seq![c2];
    assert(one.drop_last() =~= Seq::<Cookie>::empty());
    assert(merge_all(u, one.drop_last(), now) == u);
    assert(one.last() == c2);
    assert(merge_all(u, one, now) == merge_one(u, c2, now));
    let w = without_key(u, c2);
    lemma_without_key_drops_key(u, c2);
    assert(w.push(c2).drop_last() =~= w);
    assert(count_key(without_key(u, c2), c1) == count_key(without_key(u, c2), c2)) by {
        lemma_same_key_count(without_key(u, c2), c1, c2);
    }
    assert(w.push(c2).drop_last() =~= w);
}

proof fn lemma_same_key_count(jar: Seq<Cookie>, a: Cookie, b: Cookie)
    requires
        same_key(a, b),
    ensures
        count_key(jar, a) == count_key(jar, b),
    decreases jar.len(),
{
    if jar.len() > 0 {
        lemma_same_key_count(jar.drop_last(), a, b);
    }
}

/// Storing a cookie that is already expired changes nothing that a read
/// returns.
pub proof fn lemma_expired_cookie_not_stored(jar: Seq<Cookie>, c: Cookie, now: u64)
    requires
        expired_at(c, now),
    ensures
        unexpired(stored(jar, seq![c], now), now) == unexpired(jar, now),
{
    let one = seq![c];
    let u = unexpired(jar, now);
    assert(one.drop_last() =~= Seq::<Cookie>::empty());
    assert(merge_all(u, one.drop_last(), now) == u);
    assert(one.last() == c);
    assert(stored(jar, one, now) == u);
    lemma_unexpired_idempotent(jar, now);
}

} // verus!
