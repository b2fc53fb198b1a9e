//! Safety checks on extracted page data.
use vstd::prelude::*;

use crate::text::{byte_count, chars_of, contains, has_infix};
use crate::utils::{lower_of, lowercase};

verus! {

/// What `char::is_alphanumeric` says of a character.
pub uninterp spec fn alphanumeric(c: char) -> bool;

/// Relies on char::is_alphanumeric: Unicode alphabetic or numeric, a
/// property of the character alone.
#[verifier::external_body]
fn is_alnum(c: char) -> (r: bool)
    ensures
        r == alphanumeric(c),
{
    c.is_alphanumeric()
}

pub open spec fn key_char_ok(c: char) -> bool {
    alphanumeric(c) || c == '-' || c == '_' || c == ':'
}

/// A metadata key is safe when it holds only letters, digits, '-', '_' and
/// ':'.
pub fn is_safe_metadata_key(key: &str) -> (r: bool)
    ensures
        r == forall|i: int| 0 <= i < key@.len() ==> key_char_ok(#[trigger] key@[i]),
{
    let cs = chars_of(key);
    let mut i: usize = 0;
    while i < cs.len()
        invariant
            cs@ == key@,
            i <= cs@.len(),
            forall|j: int| 0 <= j < i ==> key_char_ok(#[trigger] key@[j]),
        decreases cs@.len() - i,
    {
        let c = cs[i];
        if !(is_alnum(c) || c == '-' || c == '_' || c == ':') {
            return false;
        }
        i = i + 1;
    }
    true
}

/// Content is safe when, ignoring case, it has no script tag or script,
/// data or vbscript URL, and is shorter than 1000 bytes.
pub open spec fn content_ok(lower: Seq<char>, bytes: nat) -> bool {
    &&& !has_infix(lower, "<script"@)
    &&& !has_infix(lower, "javascript:"@)
    &&& !has_infix(lower, "data:"@)
    &&& !has_infix(lower, "vbscript:"@)
    &&& bytes < 1000
}

/// The check on lower-cased content of the given byte length.
pub fn is_safe_lowered(lower: &str, bytes: usize) -> (r: bool)
    ensures
        r == content_ok(lower@, bytes as nat),
{
    !contains(lower, "<script") && !contains(lower, "javascript:") && !contains(lower, "data:")
        && !contains(lower, "vbscript:") && bytes < 1000
}

pub fn is_safe_content(content: &str) -> (r: bool)
    ensures
        r == content_ok(lower_of(content@), byte_count(content@)),
{
    let lower = lowercase(content);
    is_safe_lowered(lower.as_str(), content.len())
}

} // verus!
