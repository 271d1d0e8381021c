//! When to publish a record again.
use vstd::prelude::*;

use crate::clock;
use crate::constants::DHT_REPUBLISH_INTERVAL_SECS;
use crate::protocol::DhtRecord;

verus! {

/// Whether a record that expires at `expires_at` is due at the time `now`: an
/// interval before it expires.
pub open spec fn due(expires_at: u64, now: u64) -> bool {
    now + DHT_REPUBLISH_INTERVAL_SECS >= expires_at
}

/// Whether it is time to publish a record again, at the time `now`.
pub fn needs_republish_at(record: &DhtRecord, now: u64) -> (needed: bool)
    ensures
        needed == due(record.expires_at_unix, now),
        needed == (now + 21600 >= record.expires_at_unix),
{
    now >= record.expires_at_unix.saturating_sub(DHT_REPUBLISH_INTERVAL_SECS)
}

/// Whether it is time to publish a record again.
pub fn needs_republish(record: &DhtRecord) -> (needed: bool)
    ensures
        exists|now: u64|
            clock::told(now) && needed == #[trigger] due(record.expires_at_unix, now),
{
    let now: u64 = clock::now_unix();
    let needed = needs_republish_at(record, now);
    assert(needed == due(record.expires_at_unix, now));
    needed
}

/// The fresh record to publish in place of the current one, if it is time at
/// the time `now`.
pub fn republish_if_needed_at<F: FnOnce() -> DhtRecord>(
    current_record: &DhtRecord,
    rebuild_fn: F,
    now: u64,
) -> (fresh: Option<DhtRecord>)
    requires
        call_requires(rebuild_fn, ()),
    ensures
        fresh is Some <==> due(current_record.expires_at_unix, now),
        fresh is Some <==> now + 21600 >= current_record.expires_at_unix,
        fresh matches Some(r) ==> call_ensures(rebuild_fn, (), r),
{
    if !needs_republish_at(current_record, now) {
        return None;
    }
    Some(rebuild_fn())
}

/// The fresh record to publish in place of the current one, if it is time.
pub fn republish_if_needed<F: FnOnce() -> DhtRecord>(current_record: &DhtRecord, rebuild_fn: F) -> (
    fresh: Option<DhtRecord>)
    requires
        call_requires(rebuild_fn, ()),
    ensures
        exists|now: u64|
            #![trigger due(current_record.expires_at_unix, now)]
            clock::told(now) && (fresh is Some <==> due(current_record.expires_at_unix, now)),
        fresh matches Some(r) ==> call_ensures(rebuild_fn, (), r),
{
    let now: u64 = clock::now_unix();
    let fresh = republish_if_needed_at(current_record, rebuild_fn, now);
    assert(fresh is Some <==> due(current_record.expires_at_unix, now));
    fresh
}

/// A record that was just published is not due, and it is due before it
/// expires.
pub proof fn republished_in_time(published: u64, expires_at: u64, now: u64)
    requires
        expires_at == published + crate::constants::DHT_RECORD_TTL_SECS,
        published <= now,
    ensures
        !due(expires_at, published),
        expires_at <= now ==> due(expires_at, now),
        now + DHT_REPUBLISH_INTERVAL_SECS == expires_at ==> due(expires_at, now) && now
            < expires_at,
{
}

} // verus!
