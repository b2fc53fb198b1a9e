//! Randomness drawn from the `rand` crate's thread-local generator.
use vstd::prelude::*;

use rand::seq::SliceRandom;
use rand::Rng;

verus! {

/// Relies on rand::Rng::gen_range over `0..n` on the thread-local generator:
/// a value below `n`. It panics on an empty range, hence `n > 0`.
#[verifier::external_body]
pub(crate) fn random_below(n: u64) -> (r: u64)
    requires
        n > 0,
    ensures
        r < n,
{
    rand::thread_rng().gen_range(0..n)
}

/// Relies on rand::random::<u64>, written by std's `{:016x}` formatting:
/// 16 lower-case hex digits (a `u64` never needs more).
#[verifier::external_body]
pub(crate) fn random_hex64() -> (r: String)
    ensures
        r@.len() == 16,
{
    format!("{:016x}", rand::random::<u64>())
}

/// A fresh session id: "sess_" and 16 random hex digits.
pub(crate) fn generate_session_id() -> (r: String)
    ensures
        r@.len() == 21,
        r@.subrange(0, 5) == "sess_"@,
{
    let r = String::from_str("sess_").concat(random_hex64().as_str());
    proof {
        reveal_strlit("sess_");
        assert(r@.subrange(0, 5) =~= "sess_"@);
    }
    r
}

/// Relies on rand::seq::SliceRandom::choose_multiple over the positions
/// `0..n`: `amount` of them, without repetition.
#[verifier::external_body]
pub(crate) fn sample_positions(n: usize, amount: usize) -> (r: Vec<usize>)
    requires
        amount <= n,
    ensures
        r@.len() == amount,
        forall|i: int| 0 <= i < r@.len() ==> r@[i] < n,
        forall|i: int, j: int| 0 <= i < r@.len() && 0 <= j < r@.len() && i != j ==> r@[i] != r@[j],
{
    let positions: Vec<usize> = (0..n).collect();
    positions.choose_multiple(&mut rand::thread_rng(), amount).cloned().collect()
}

/// Relies on rand::Rng::gen_ratio on the thread-local generator: `true`
/// with probability `numerator / denominator`. It panics when the
/// denominator is zero or below the numerator.
#[verifier::external_body]
pub(crate) fn chance(numerator: u32, denominator: u32) -> (r: bool)
    requires
        0 < denominator,
        numerator <= denominator,
{
    rand::thread_rng().gen_ratio(numerator, denominator)
}

} // verus!
