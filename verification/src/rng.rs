//! Trusted boundary to the process random number generator.
//!
//! Every draw of randomness the library makes goes through one of the
//! functions here; nothing is assumed of a draw beyond its range.

use vstd::prelude::*;

use rand::distributions::DistString;
use rand::Rng;

use crate::utils::is_alphanumeric_byte;

verus! {

/// Relies on `rand::Rng::gen_range` over `lo..=hi`: it returns a value
/// inside the inclusive range and panics only on an empty range, which
/// the precondition rules out.
#[verifier::external_body]
pub(crate) fn rand_usize_between(lo: usize, hi: usize) -> (r: usize)
    requires
        lo <= hi,
    ensures
        lo <= r <= hi,
{
    rand::thread_rng().gen_range(lo..=hi)
}

/// Relies on `rand::Rng::gen_range` over `0..n`: it returns a value
/// below `n` and panics only on an empty range, which the precondition
/// rules out.
#[verifier::external_body]
pub(crate) fn rand_u64_below(n: u64) -> (r: u64)
    requires
        n > 0,
    ensures
        r < n,
{
    rand::thread_rng().gen_range(0..n)
}

/// Relies on `rand::distributions::Alphanumeric` through
/// `DistString::sample_string`: the sample is a string of exactly `len`
/// characters, each drawn from `0-9`, `A-Z`, `a-z`.
#[verifier::external_body]
pub(crate) fn rand_alphanumeric_bytes(len: usize) -> (v: Vec<u8>)
    ensures
        v@.len() == len,
        forall|i: int| 0 <= i < v@.len() ==> is_alphanumeric_byte(v@[i]),
{
    rand::distributions::Alphanumeric.sample_string(&mut rand::thread_rng(), len).into_bytes()
}

} // verus!
