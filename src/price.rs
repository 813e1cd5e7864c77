//! Samples and the value source that produces them.

use vstd::prelude::*;

verus! {

/// The simulated source produces values below this, in hundredths of a unit.
pub const PRICE_BOUND_CENTS: u64 = 5_000_000;

/// One sample: a value in hundredths of a unit, taken at `time`
/// (nanoseconds since the Unix epoch).
#[derive(Clone, Copy, Debug, PartialEq, Eq, Structural)]
pub struct PricePoint {
    pub price: u64,
    pub time: i64,
}

/// Relies on rand 0.8's `Rng::gen_range` over `thread_rng()`: on the range
/// `0..bound`, which is not empty when `bound > 0`, it returns a value
/// inside it.
#[verifier::external_body]
fn draw_below(bound: u64) -> (r: u64)
    requires
        bound > 0,
    ensures
        r < bound,
{
    rand::Rng::gen_range(&mut rand::thread_rng(), 0..bound)
}

/// Reads the simulated price source: a random value from zero up to, but
/// not including, `PRICE_BOUND_CENTS`.
pub fn fetch_current_price() -> (r: u64)
    ensures
        r < PRICE_BOUND_CENTS,
{
    draw_below(PRICE_BOUND_CENTS)
}

} // verus!
