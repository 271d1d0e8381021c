//! The fixed parameters of the network.
use vstd::prelude::*;

verus! {

/// How long a published record is valid, in seconds: a day.
pub const DHT_RECORD_TTL_SECS: u64 = 86400;

/// How long before its expiry a record is published again, and how often
/// the node looks, in seconds: six hours.
pub const DHT_REPUBLISH_INTERVAL_SECS: u64 = 21600;

/// The fewest relays that an onion route has.
pub const ONION_MIN_HOPS: usize = 3;

/// The most relays that an onion route has.
pub const ONION_MAX_HOPS: usize = 5;

/// The size in bytes up to which the innermost onion content is padded.
pub const ONION_CELL_SIZE: usize = 512;

/// After how many failures in a row a relay is left out of routes.
pub const RELAY_FAILURE_THRESHOLD: u32 = 3;

/// How many messages a mailbox keeps for one user.
pub const MAILBOX_MAX_MESSAGES_PER_USER: usize = 1000;

/// How many days a mailbox keeps a message.
pub const MAILBOX_MESSAGE_TTL_DAYS: u32 = 14;

/// How many one-time prekeys a node publishes at once.
pub const PREKEY_BATCH_SIZE: usize = 50;

/// How often a node asks its relays for waiting messages, in seconds.
pub const MAILBOX_FETCH_INTERVAL_SECS: u64 = 30;

/// The parameters fit each other: a record is published again four times before
/// it expires, a route has its fewest relays within its most, and messages are
/// asked for more often than anything expires.
pub proof fn parameters_fit()
    ensures
        DHT_RECORD_TTL_SECS == 24 * 60 * 60,
        4 * DHT_REPUBLISH_INTERVAL_SECS == DHT_RECORD_TTL_SECS,
        ONION_MIN_HOPS == 3 && ONION_MAX_HOPS == 5,
        ONION_CELL_SIZE == 512,
        RELAY_FAILURE_THRESHOLD == 3,
        MAILBOX_MAX_MESSAGES_PER_USER == 1000,
        MAILBOX_MESSAGE_TTL_DAYS == 14,
        PREKEY_BATCH_SIZE == 50,
        2 * MAILBOX_FETCH_INTERVAL_SECS == 60,
{
}

} // verus!
