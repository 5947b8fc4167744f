//! Per-request decisions of the benchmark server that are not admission:
//! how long a request's simulated work lasts.

use rand::Rng;
use vstd::prelude::*;

verus! {

/// Shortest simulated processing time, in milliseconds.
pub const MIN_PROCESSING_MS: u64 = 100;

/// Longest simulated processing time, in milliseconds.
pub const MAX_PROCESSING_MS: u64 = 500;

/// Relies on rand's `Rng::gen_range` over `thread_rng()`: the value is drawn
/// from the inclusive range `lo..=hi`. `gen_range` panics only on an empty
/// range, which `requires` rules out.
#[verifier::external_body]
fn random_in_range(lo: u64, hi: u64) -> (r: u64)
    requires
        lo <= hi,
    ensures
        lo <= r <= hi,
{
    rand::thread_rng().gen_range(lo..=hi)
}

/// Draws the simulated processing time of one admitted request, in
/// milliseconds, uniformly from `MIN_PROCESSING_MS..=MAX_PROCESSING_MS`.
pub fn draw_processing_time() -> (r: u64)
    ensures
        MIN_PROCESSING_MS <= r <= MAX_PROCESSING_MS,
{
    random_in_range(MIN_PROCESSING_MS, MAX_PROCESSING_MS)
}

} // verus!
