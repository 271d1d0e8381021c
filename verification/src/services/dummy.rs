//! How long to wait between two dummy packets.
use vstd::prelude::*;

use crate::crypto::suite;

verus! {

/// The interval in `[min, max)` that a random number picks; `min` where the
/// range is empty.
pub open spec fn interval(draw: u64, min: u64, max: u64) -> int {
    if max > min {
        draw as int % (max - min) + min
    } else {
        min as int
    }
}

/// The interval that a random number picks.
pub fn interval_from(draw: u64, min: u64, max: u64) -> (secs: u64)
    ensures
        secs == interval(draw, min, max),
        max > min ==> secs == min + draw % ((max - min) as u64),
        max > min ==> min <= secs < max,
        max <= min ==> secs == min,
{
    if max > min {
        draw % (max - min) + min
    } else {
        min
    }
}

/// A random interval in `[min, max)`. Dummy packets at a fixed rate would
/// stand out.
pub fn random_interval_secs(min: u64, max: u64) -> (secs: u64)
    ensures
        max > min ==> min <= secs < max,
        max <= min ==> secs == min,
        exists|draw: u64| #[trigger] suite::drawn_number(draw) && secs == interval(draw, min, max),
        max > min ==> exists|draw: u64| #[trigger]
            suite::drawn_number(draw) && secs == min + draw % ((max - min) as u64),
{
    interval_from(suite::draw_number(), min, max)
}

} // verus!
