//! The draws that a passphrase is made of.
//!
//! Every draw comes from the `rand` crate and its thread-local generator.
//! Nothing is proved of these functions: each contract states what the
//! crate's source shows of every value that can come back, which is the
//! range it lies in.
//!
//! The generator is seeded by the operating system when a thread draws for
//! the first time. Where the system gives no seed, the `rand` crate ends the
//! program; what these functions are given has no part in that.

use rand::distributions::{Distribution, Uniform};
use rand::Rng;
use vstd::prelude::*;

verus! {

/// An index below `bound`, drawn from `rand::distributions::Uniform` over
/// `0..bound` with `rand::thread_rng()`. The distribution samples in the
/// half-open range, so the index lies below `bound`; it refuses an empty
/// range, so `bound` must not be zero.
#[verifier::external_body]
pub(crate) fn uniform_index(bound: usize) -> (index: usize)
    requires
        bound > 0,
    ensures
        index < bound,
{
    Uniform::from(0..bound).sample(&mut rand::thread_rng())
}

/// A number from `low` up to, and without, `high`, drawn from
/// `rand::distributions::Uniform` over `low..high` with `rand::thread_rng()`.
/// The distribution refuses an empty range, so `low` must lie below `high`.
#[verifier::external_body]
pub(crate) fn uniform_u64(low: u64, high: u64) -> (number: u64)
    requires
        low < high,
    ensures
        low <= number < high,
{
    Uniform::from(low..high).sample(&mut rand::thread_rng())
}

/// An index below `bound`, drawn by `rand::Rng::gen_range` over `0..bound`
/// on `rand::thread_rng()`. The call refuses an empty range, so `bound` must
/// not be zero.
#[verifier::external_body]
pub(crate) fn gen_index(bound: usize) -> (index: usize)
    requires
        bound > 0,
    ensures
        index < bound,
{
    rand::thread_rng().gen_range(0..bound)
}

} // verus!
