//! The two ambient inputs the engine draws on: the local wall-clock hour and
//! uniform random sampling. Both are trusted wrappers; everything done with
//! their results is verified for every value they can hand back.

use vstd::prelude::*;

verus! {

/// Relies on chrono's `Local::now` and `Timelike::hour`: the hour number of
/// the local time is always in the range 0 to 23.
#[verifier::external_body]
pub fn current_hour() -> (h: u8)
    ensures
        h < 24,
{
    chrono::Timelike::hour(&chrono::Local::now()) as u8
}

/// Relies on rand's `thread_rng` and `Rng::gen_range`: a sample from the
/// half-open range below `n` lies below `n`. The range is never empty.
#[verifier::external_body]
pub fn rand_below(n: usize) -> (r: usize)
    requires
        n >= 1,
    ensures
        r < n,
{
    rand::Rng::gen_range(&mut rand::thread_rng(), 0..n)
}

} // verus!
