//! The wall clock.
use vstd::prelude::*;

use crate::crypto::suite;

verus! {

/// `std::time::SystemTime::elapsed` of the Unix epoch, in whole seconds;
/// `None` while the clock stands before the epoch.
#[verifier::external_body]
fn unix_elapsed() -> (seconds: Option<u64>) {
    std::time::UNIX_EPOCH.elapsed().ok().map(|elapsed| elapsed.as_secs())
}

/// Whether a time is what the clock told in some reading. No time is known to
/// be one but by reading the clock.
pub closed spec fn told(now: u64) -> bool {
    exists|reading: Option<u64>|
        {
            &&& #[trigger] call_ensures(unix_elapsed, (), reading)
            &&& reading matches Some(seconds) ==> now == seconds
            &&& reading is None ==> now == 0
        }
}

/// The seconds since the Unix epoch; zero while the clock stands before it.
pub(crate) fn now_unix() -> (now: u64)
    ensures
        told(now),
{
    let reading: Option<u64> = suite::ask(unix_elapsed);
    assert(call_ensures(unix_elapsed, (), reading));
    time_of(reading)
}

/// The time that a reading of the clock stands for: the seconds that have
/// passed since the Unix epoch, and zero where it has not been reached.
pub fn time_of(reading: Option<u64>) -> (now: u64)
    ensures
        reading matches Some(seconds) ==> now == seconds,
        reading is None ==> now == 0,
{
    match reading {
        Some(seconds) => seconds,
        None => 0,
    }
}

} // verus!
