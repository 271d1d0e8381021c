//! The node's keys and records at the start.
use vstd::prelude::*;

use crate::bytes;
use crate::clock;
use crate::constants::DHT_RECORD_TTL_SECS;
use crate::crypto::suite;
use crate::crypto::x3dh;
use crate::crypto::x3dh::PreKeyBundle;
use crate::errors::MessengerError;
use crate::identity;
use crate::identity::{Identity, IdentityModel};
use crate::network::dht::lookup;
use crate::network::dht::record;
use crate::network::dht::record::{
    generate_signed_prekey, DhtRecordBuilder, PreKeyBundleRecordBuilder, RecordError,
};
use crate::protocol::{DhtRecord, PreKeyBundleRecord};
use crate::types::UserId;

verus! {

/// The node's identity: the stored one, or a fresh one. The second part says
/// whether it is fresh and has to be stored.
pub fn identity_at_start(stored: Option<([u8; 32], String)>) -> (result: (Identity, bool))
    ensures
        result.0@.wf(),
        match stored {
            Some(s) => !result.1 && result.0@.secret == s.0@,
            None => result.1 && suite::drawn_key(result.0@.secret),
        },
{
    match stored {
        Some((secret, _)) => (Identity::from_secret_bytes(secret), false),
        None => (Identity::generate(), true),
    }
}

/// The secrets of the node's key-agreement identity and signed prekey: the
/// stored ones, or fresh ones that have to be stored.
pub fn x3dh_keys_at_start(stored: Option<([u8; 32], [u8; 32])>) -> (result: (
    ([u8; 32], [u8; 32]),
    bool,
))
    ensures
        match stored {
            Some(keys) => result == (keys, false),
            None => result.1 && suite::drawn_key(result.0.0@) && suite::drawn_key(result.0.1@),
        },
{
    match stored {
        Some(keys) => (keys, false),
        None => ((generate_signed_prekey(), generate_signed_prekey()), true),
    }
}

/// The secret of the node's onion key: the stored one, or a fresh one that
/// has to be stored.
pub fn onion_key_at_start(stored: Option<[u8; 32]>) -> (result: ([u8; 32], bool))
    ensures
        match stored {
            Some(key) => result == (key, false),
            None => result.1 && suite::drawn_key(result.0@),
        },
{
    match stored {
        Some(key) => (key, false),
        None => (generate_signed_prekey(), true),
    }
}

/// The server to ask for relays: the configured one, or else the one that
/// was entered before.
pub fn server_at_start(configured: Option<String>, entered: Option<String>) -> (url: Option<String>)
    ensures
        url == (if configured is Some {
            configured
        } else {
            entered
        }),
{
    match configured {
        Some(url) => Some(url),
        None => entered,
    }
}

/// Whether a record that was built at the time `now` expires at a time.
pub open spec fn lasts_from(now: u64, expires_at: u64) -> bool {
    expires_at == now + DHT_RECORD_TTL_SECS
}

/// Whether a user's own record is accepted at the time `now` by whoever
/// verifies it with the user's key.
pub open spec fn record_accepted(r: DhtRecord, me: IdentityModel, now: u64) -> bool {
    record::record_verdict(
        record::record_domain(),
        record::record_content(r),
        r.expires_at_unix,
        r.pow_nonce@,
        now,
        identity::signature_accepted(me.public, record::record_content(r), r.signature@),
    ) is Ok
}

/// Whether a record is about a user and names no mailbox relays.
pub open spec fn own_record(r: DhtRecord, me: IdentityModel) -> bool {
    &&& r.user_id@ == me.name
    &&& r.public_key@ == me.public
    &&& r.mailbox_candidates@.len() == 0
}

/// The user's own record, without mailbox relays, at the time `now`. It is
/// accepted under the user's key until it expires.
pub fn my_record_at(me: &Identity, now: u64) -> (result: Result<DhtRecord, RecordError>)
    requires
        me@.wf(),
    ensures
        match result {
            Ok(r) => {
                &&& own_record(r, me@)
                &&& r.user_id@ == me@.name
                &&& r.public_key@ == me@.public
                &&& r.mailbox_candidates@.len() == 0
                &&& r.expires_at_unix == now + DHT_RECORD_TTL_SECS
                &&& r.expires_at_unix == now + 86400
                &&& r.signature@.len() == 64
                &&& suite::ed25519_verifies(me@.public, record::record_content(r), r.signature@)
                &&& forall|t: u64| t <= r.expires_at_unix ==> #[trigger] record_accepted(r, me@, t)
            },
            Err(e) => {
                ||| now + DHT_RECORD_TTL_SECS > u64::MAX && e == RecordError::ClockOverflow
                ||| e == RecordError::Unsolvable && exists|r: DhtRecord|
                    {
                        &&& own_record(r, me@)
                        &&& r.expires_at_unix == now + DHT_RECORD_TTL_SECS
                        &&& record::unsolvable(
                            record::record_domain(),
                            #[trigger] record::record_content(r),
                        )
                    }
            },
        },
{
    proof {
        identity::identity_fields(*me);
    }
    let sign = |data: &[u8]| -> (signature: Vec<u8>)
        ensures
            identity::signature_accepted(me@.public, data@, signature@),
        { bytes::to_vec(me.sign(data).as_slice()) };
    let result = DhtRecordBuilder::build_at(
        &me.user_id,
        bytes::to_vec(me.verifying_key.as_slice()),
        Vec::new(),
        sign,
        now,
    );
    assert(result matches Ok(r) ==> forall|t: u64|
        t <= r.expires_at_unix ==> #[trigger] record_accepted(r, me@, t));
    result
}

/// The user's own record, now.
pub fn my_record(me: &Identity) -> (result: Result<DhtRecord, RecordError>)
    requires
        me@.wf(),
    ensures
        match result {
            Ok(r) => {
                &&& own_record(r, me@)
                &&& r.user_id@ == me@.name
                &&& r.public_key@ == me@.public
                &&& r.mailbox_candidates@.len() == 0
                &&& r.signature@.len() == 64
                &&& suite::ed25519_verifies(me@.public, record::record_content(r), r.signature@)
                &&& exists|now: u64|
                    clock::told(now) && #[trigger] lasts_from(now, r.expires_at_unix)
                &&& forall|t: u64| t <= r.expires_at_unix ==> #[trigger] record_accepted(r, me@, t)
            },
            Err(e) => {
                ||| e == RecordError::ClockOverflow
                ||| e == RecordError::Unsolvable && exists|r: DhtRecord|
                    {
                        &&& own_record(r, me@)
                        &&& r.expires_at_unix >= DHT_RECORD_TTL_SECS
                        &&& clock::told((r.expires_at_unix - DHT_RECORD_TTL_SECS) as u64)
                        &&& record::unsolvable(
                            record::record_domain(),
                            #[trigger] record::record_content(r),
                        )
                    }
            },
        },
{
    let now: u64 = clock::now_unix();
    let result = my_record_at(me, now);
    assert(result matches Ok(r) ==> lasts_from(now, r.expires_at_unix));
    result
}

/// The public keys of some secrets.
pub open spec fn publics(secrets: Seq<[u8; 32]>) -> Seq<Seq<u8>> {
    secrets.map_values(|s: [u8; 32]| suite::x25519_public(s@))
}

/// The public keys of some secrets.
fn public_keys(secrets: &Vec<[u8; 32]>) -> (keys: Vec<[u8; 32]>)
    ensures
        record::key_bytes(keys@) == publics(secrets@),
        forall|i: int| 0 <= i < secrets@.len() ==> (#[trigger] publics(secrets@)[i]).len() == 32,
{
    let mut keys: Vec<[u8; 32]> = Vec::new();
    let mut i: usize = 0;
    while i < secrets.len()
        invariant
            i <= secrets@.len(),
            record::key_bytes(keys@) =~= publics(secrets@).take(i as int),
        decreases secrets@.len() - i,
    {
        let ghost before = keys@;
        let key: [u8; 32] = suite::x25519_public_key(&secrets[i]);
        keys.push(key);
        assert(record::key_bytes(keys@) =~= record::key_bytes(before).push(key@));
        i = i + 1;
    }
    assert(publics(secrets@).take(i as int) =~= publics(secrets@));
    assert forall|j: int| 0 <= j < secrets@.len() implies (#[trigger] publics(secrets@)[j]).len()
        == 32 by {
        assert(record::key_bytes(keys@)[j] == keys@[j]@);
    }
    keys
}

/// Whether a prekey record holds some keys of a user, the signed prekey under
/// the user's signature.
pub open spec fn holds_keys(
    r: PreKeyBundleRecord,
    me: IdentityModel,
    x3dh_identity: Seq<u8>,
    signed_prekey: Seq<u8>,
    one_time_prekeys: Seq<[u8; 32]>,
) -> bool {
    &&& r.user_id@ == me.name
    &&& r.x3dh_identity_key@ == suite::x25519_public(x3dh_identity)
    &&& r.signed_prekey@ == suite::x25519_public(signed_prekey)
    &&& record::byte_parts(r.one_time_prekeys@) == publics(one_time_prekeys)
    &&& r.x3dh_identity_key@.len() == 32
    &&& r.signed_prekey@.len() == 32
    &&& forall|i: int|
        0 <= i < one_time_prekeys.len() ==> (#[trigger] publics(one_time_prekeys)[i]).len() == 32
    &&& identity::signature_accepted(me.public, r.signed_prekey@, r.signed_prekey_signature@)
}

/// Whether a prekey record publishes some keys of a user: it holds them, and
/// it is accepted under the user's key until it expires.
pub open spec fn publishes(
    r: PreKeyBundleRecord,
    me: IdentityModel,
    x3dh_identity: Seq<u8>,
    signed_prekey: Seq<u8>,
    one_time_prekeys: Seq<[u8; 32]>,
) -> bool {
    &&& holds_keys(r, me, x3dh_identity, signed_prekey, one_time_prekeys)
    &&& forall|t: u64|
        t <= r.expires_at_unix ==> #[trigger] lookup::prekeys_accepted(r, me.public, t)
}

/// The user's own prekeys as a record at the time `now`. It is accepted
/// under the user's key until it expires.
pub fn my_prekeys_at(
    me: &Identity,
    x3dh_identity: &[u8; 32],
    signed_prekey: &[u8; 32],
    one_time_prekeys: &Vec<[u8; 32]>,
    now: u64,
) -> (result: Result<PreKeyBundleRecord, RecordError>)
    requires
        me@.wf(),
    ensures
        match result {
            Ok(r) => {
                &&& publishes(r, me@, x3dh_identity@, signed_prekey@, one_time_prekeys@)
                &&& r.user_id@ == me@.name
                &&& r.x3dh_identity_key@ == suite::x25519_public(x3dh_identity@)
                &&& r.signed_prekey@ == suite::x25519_public(signed_prekey@)
                &&& r.one_time_prekeys@.len() == one_time_prekeys@.len()
                &&& forall|i: int|
                    0 <= i < one_time_prekeys@.len() ==> (#[trigger] r.one_time_prekeys@[i])@
                        == suite::x25519_public(one_time_prekeys@[i]@)
                &&& r.signed_prekey_signature@.len() == 64
                &&& suite::ed25519_verifies(
                    me@.public,
                    r.signed_prekey@,
                    r.signed_prekey_signature@,
                )
                &&& r.expires_at_unix == now + DHT_RECORD_TTL_SECS
            },
            Err(e) => {
                ||| now + DHT_RECORD_TTL_SECS > u64::MAX && e == RecordError::ClockOverflow
                ||| e == RecordError::Unsolvable && exists|r: PreKeyBundleRecord|
                    {
                        &&& holds_keys(r, me@, x3dh_identity@, signed_prekey@, one_time_prekeys@)
                        &&& r.expires_at_unix == now + DHT_RECORD_TTL_SECS
                        &&& record::unsolvable(
                            record::prekey_domain(),
                            #[trigger] record::prekey_content(r),
                        )
                    }
            },
        },
{
    proof {
        identity::identity_fields(*me);
    }
    let sign = |data: &[u8]| -> (signature: Vec<u8>)
        ensures
            identity::signature_accepted(me@.public, data@, signature@),
        { bytes::to_vec(me.sign(data).as_slice()) };
    let result = PreKeyBundleRecordBuilder::build_at(
        &me.user_id,
        &suite::x25519_public_key(x3dh_identity),
        &suite::x25519_public_key(signed_prekey),
        &public_keys(one_time_prekeys),
        sign,
        now,
    );
    assert(result matches Ok(r) ==> forall|t: u64|
        t <= r.expires_at_unix ==> #[trigger] lookup::prekeys_accepted(r, me@.public, t));
    proof {
        if result is Ok {
            let r = result->Ok_0;
            let parts = record::byte_parts(r.one_time_prekeys@);
            assert(parts.len() == r.one_time_prekeys@.len());
            assert(publics(one_time_prekeys@).len() == one_time_prekeys@.len());
            assert forall|i: int| 0 <= i < one_time_prekeys@.len() implies (
            #[trigger] r.one_time_prekeys@[i])@ == suite::x25519_public(one_time_prekeys@[i]@) by {
                assert(parts[i] == publics(one_time_prekeys@)[i]);
            }
        }
    }
    result
}

/// The user's own prekeys as a record, now.
pub fn my_prekeys(
    me: &Identity,
    x3dh_identity: &[u8; 32],
    signed_prekey: &[u8; 32],
    one_time_prekeys: &Vec<[u8; 32]>,
) -> (result: Result<PreKeyBundleRecord, RecordError>)
    requires
        me@.wf(),
    ensures
        match result {
            Ok(r) => {
                &&& publishes(r, me@, x3dh_identity@, signed_prekey@, one_time_prekeys@)
                &&& r.user_id@ == me@.name
                &&& r.x3dh_identity_key@ == suite::x25519_public(x3dh_identity@)
                &&& r.signed_prekey@ == suite::x25519_public(signed_prekey@)
                &&& r.one_time_prekeys@.len() == one_time_prekeys@.len()
                &&& forall|i: int|
                    0 <= i < one_time_prekeys@.len() ==> (#[trigger] r.one_time_prekeys@[i])@
                        == suite::x25519_public(one_time_prekeys@[i]@)
                &&& r.signed_prekey_signature@.len() == 64
                &&& suite::ed25519_verifies(
                    me@.public,
                    r.signed_prekey@,
                    r.signed_prekey_signature@,
                )
                &&& exists|now: u64|
                    clock::told(now) && #[trigger] lasts_from(now, r.expires_at_unix)
            },
            Err(e) => {
                ||| e == RecordError::ClockOverflow
                ||| e == RecordError::Unsolvable && exists|r: PreKeyBundleRecord|
                    {
                        &&& holds_keys(r, me@, x3dh_identity@, signed_prekey@, one_time_prekeys@)
                        &&& r.expires_at_unix >= DHT_RECORD_TTL_SECS
                        &&& clock::told((r.expires_at_unix - DHT_RECORD_TTL_SECS) as u64)
                        &&& record::unsolvable(
                            record::prekey_domain(),
                            #[trigger] record::prekey_content(r),
                        )
                    }
            },
        },
{
    let now: u64 = clock::now_unix();
    let result = my_prekeys_at(me, x3dh_identity, signed_prekey, one_time_prekeys, now);
    assert(result matches Ok(r) ==> lasts_from(now, r.expires_at_unix));
    result
}

/// Published prekeys can be used: whoever finds the record before it expires
/// and knows its owner's key gets a bundle, and the bundle's secrets are the
/// owner's. Its one-time prekey is the first one that was published.
pub proof fn published_prekeys_make_a_bundle(
    r: PreKeyBundleRecord,
    me: IdentityModel,
    x3dh_identity: [u8; 32],
    signed_prekey: [u8; 32],
    one_time_prekeys: Seq<[u8; 32]>,
    peer: UserId,
    now: u64,
    result: Result<PreKeyBundle, MessengerError>,
)
    requires
        publishes(r, me, x3dh_identity@, signed_prekey@, one_time_prekeys),
        now <= r.expires_at_unix,
        lookup::bundle_outcome(peer, me.public, r, now, result),
    ensures
        result matches Ok(bundle) && x3dh::owns_bundle(
            bundle,
            x3dh_identity@,
            signed_prekey@,
            if one_time_prekeys.len() > 0 {
                Some(one_time_prekeys[0]@)
            } else {
                None
            },
        ),
{
    assert(lookup::prekeys_accepted(r, me.public, now));
    assert(record::byte_parts(r.one_time_prekeys@).len() == r.one_time_prekeys@.len());
    if one_time_prekeys.len() > 0 {
        assert(publics(one_time_prekeys)[0].len() == 32);
        assert(record::byte_parts(r.one_time_prekeys@)[0] == publics(one_time_prekeys)[0]);
    }
}

} // verus!
