//! What is made of the records that a lookup found.
use vstd::prelude::*;

use crate::bytes;
use crate::clock;
use crate::crypto;
use crate::crypto::suite;
use crate::crypto::x3dh::PreKeyBundle;
use crate::errors::MessengerError;
use crate::identity;
use crate::identity::Identity;
use crate::network::dht::record;
use crate::network::dht::record::{DhtRecordBuilder, PreKeyBundleRecordBuilder, RecordError};
use crate::network::onion::RelayOnionKey;
use crate::protocol::{DhtRecord, PreKeyBundleRecord, RelayDescriptorRecord};
use crate::types::{RelayId, UserId};

verus! {

/// The 32-byte key in some bytes.
pub open spec fn fixed_key(data: Seq<u8>) -> Option<Seq<u8>> {
    if data.len() == 32 {
        Some(data)
    } else {
        None
    }
}

/// The X25519 public key in some bytes.
pub fn parse_x25519_public(data: &[u8]) -> (key: Option<[u8; 32]>)
    ensures
        crypto::key_model(key) == fixed_key(data@),
{
    bytes::to_array32(data)
}

/// The record that was decoded from what a lookup found, if it is accepted
/// now.
pub fn parse_and_verify_record<F: FnOnce(&[u8], &[u8]) -> bool>(
    decoded: Option<DhtRecord>,
    verify_fn: F,
) -> (result: Result<DhtRecord, RecordError>)
    requires
        forall|message: &[u8], signature: &[u8]| call_requires(verify_fn, (message, signature)),
    ensures
        match decoded {
            Some(r) => exists|now: u64, valid: bool|
                {
                    &&& clock::told(now)
                    &&& passes(
                        result,
                        r,
                        #[trigger] record::record_verdict(
                            record::record_domain(),
                            record::record_content(r),
                            r.expires_at_unix,
                            r.pow_nonce@,
                            now,
                            valid,
                        ),
                    )
                    &&& r.expires_at_unix >= now ==> record::judged_by(
                        verify_fn,
                        record::record_content(r),
                        r.signature@,
                        valid,
                    )
                },
            None => result == Err::<DhtRecord, _>(RecordError::Undecodable),
        },
        result matches Ok(r) ==> {
            &&& decoded == Some(r)
            &&& r.pow_nonce@.len() == 8
            &&& record::puzzle_solved("dht_record"@, record::record_content(r), r.pow_nonce@)
            &&& record::judged_by(verify_fn, record::record_content(r), r.signature@, true)
            &&& exists|now: u64| #[trigger] clock::told(now) && now <= r.expires_at_unix
        },
{
    match decoded {
        Some(record) => match DhtRecordBuilder::verify(&record, verify_fn) {
            Ok(_) => Ok(record),
            Err(e) => Err(e),
        },
        None => Err(RecordError::Undecodable),
    }
}

/// The prekey record that was decoded from what a lookup found, if it is
/// accepted now. The record does not hold the key that verifies it.
pub fn parse_prekey_bundle_record<F: FnOnce(&[u8], &[u8]) -> bool>(
    decoded: Option<PreKeyBundleRecord>,
    verify_fn: F,
) -> (result: Result<PreKeyBundleRecord, RecordError>)
    requires
        forall|message: &[u8], signature: &[u8]| call_requires(verify_fn, (message, signature)),
    ensures
        match decoded {
            Some(r) => exists|now: u64, valid: bool|
                {
                    &&& clock::told(now)
                    &&& passes(
                        result,
                        r,
                        #[trigger] record::record_verdict(
                            record::prekey_domain(),
                            record::prekey_content(r),
                            r.expires_at_unix,
                            r.pow_nonce@,
                            now,
                            valid,
                        ),
                    )
                    &&& r.expires_at_unix >= now ==> record::judged_by(
                        verify_fn,
                        r.signed_prekey@,
                        r.signed_prekey_signature@,
                        valid,
                    )
                },
            None => result == Err::<PreKeyBundleRecord, _>(RecordError::Undecodable),
        },
        result matches Ok(r) ==> {
            &&& decoded == Some(r)
            &&& r.pow_nonce@.len() == 8
            &&& record::puzzle_solved("prekey_bundle"@, record::prekey_content(r), r.pow_nonce@)
            &&& record::judged_by(
                verify_fn,
                r.signed_prekey@,
                r.signed_prekey_signature@,
                true,
            )
            &&& exists|now: u64| #[trigger] clock::told(now) && now <= r.expires_at_unix
        },
{
    match decoded {
        Some(record) => match PreKeyBundleRecordBuilder::verify(&record, verify_fn) {
            Ok(_) => Ok(record),
            Err(e) => Err(e),
        },
        None => Err(RecordError::Undecodable),
    }
}

/// Whether a record is handed on as a verdict says.
pub open spec fn passes<R>(
    result: Result<R, RecordError>,
    record: R,
    verdict: Result<(), RecordError>,
) -> bool {
    match verdict {
        Ok(_) => result == Ok::<R, RecordError>(record),
        Err(e) => result == Err::<R, RecordError>(e),
    }
}

/// The key that verifies a user's signatures, from the user's record.
pub fn owner_key(peer: &UserId, user_record: &DhtRecord) -> (key: Result<[u8; 32], MessengerError>)
    ensures
        if user_record.public_key@.len() == 32 && suite::ed25519_is_key(user_record.public_key@) {
            key matches Ok(k) && k@ == user_record.public_key@
        } else {
            key == Err::<[u8; 32], _>(MessengerError::IdentityKeyNotFound(*peer))
        },
{
    match Identity::verifying_key_from_bytes(user_record.public_key.as_slice()) {
        Some(key) => Ok(key),
        None => Err(MessengerError::IdentityKeyNotFound(peer.clone())),
    }
}

/// Whether a prekey record is accepted at the time `now` under its owner's
/// key.
pub open spec fn prekeys_accepted(r: PreKeyBundleRecord, key: Seq<u8>, now: u64) -> bool {
    record::record_verdict(
        record::prekey_domain(),
        record::prekey_content(r),
        r.expires_at_unix,
        r.pow_nonce@,
        now,
        identity::signature_accepted(key, r.signed_prekey@, r.signed_prekey_signature@),
    ) is Ok
}

/// The one-time prekey that a bundle takes from a record: the first one, if
/// it is a key.
pub open spec fn first_prekey(r: PreKeyBundleRecord) -> Option<Seq<u8>> {
    if r.one_time_prekeys@.len() > 0 {
        fixed_key(r.one_time_prekeys@[0]@)
    } else {
        None
    }
}

/// Which bundle is made of a user's prekey record, or why none is.
pub open spec fn bundle_outcome(
    peer: UserId,
    verifying_key: Seq<u8>,
    r: PreKeyBundleRecord,
    now: u64,
    result: Result<PreKeyBundle, MessengerError>,
) -> bool {
    if !prekeys_accepted(r, verifying_key, now) {
        result == Err::<PreKeyBundle, _>(MessengerError::InvalidPreKeySignature(peer))
    } else if r.x3dh_identity_key@.len() != 32 || r.signed_prekey@.len() != 32 {
        result == Err::<PreKeyBundle, _>(MessengerError::PreKeyBundleNotFound(peer))
    } else {
        &&& result matches Ok(b)
        &&& b.identity_key@ == r.x3dh_identity_key@
        &&& b.signed_prekey@ == r.signed_prekey@
        &&& b.signed_prekey_signature == r.signed_prekey_signature
        &&& crypto::key_model(b.one_time_prekey) == first_prekey(r)
    }
}

/// The bundle of a user, from the user's prekey record and the key that
/// verifies the user's signatures, at the time `now`.
pub fn bundle_from_record(
    peer: &UserId,
    verifying_key: &[u8; 32],
    raw_record: PreKeyBundleRecord,
    now: u64,
) -> (result: Result<PreKeyBundle, MessengerError>)
    ensures
        bundle_outcome(*peer, verifying_key@, raw_record, now, result),
        result matches Ok(b) ==> {
            &&& now <= raw_record.expires_at_unix
            &&& raw_record.signed_prekey_signature@.len() == 64
            &&& suite::ed25519_verifies(
                verifying_key@,
                raw_record.signed_prekey@,
                raw_record.signed_prekey_signature@,
            )
            &&& record::puzzle_solved(
                "prekey_bundle"@,
                record::prekey_content(raw_record),
                raw_record.pow_nonce@,
            )
            &&& b.identity_key@ == raw_record.x3dh_identity_key@
            &&& b.signed_prekey@ == raw_record.signed_prekey@
            &&& b.signed_prekey_signature@ == raw_record.signed_prekey_signature@
            &&& b.one_time_prekey matches Some(key) ==> raw_record.one_time_prekeys@.len() > 0
                && key@ == raw_record.one_time_prekeys@[0]@
            &&& raw_record.one_time_prekeys@.len() > 0 && raw_record.one_time_prekeys@[0]@.len()
                == 32 ==> b.one_time_prekey is Some
        },
{
    let valid = Identity::verify_bytes(
        verifying_key,
        raw_record.signed_prekey.as_slice(),
        raw_record.signed_prekey_signature.as_slice(),
    );
    match PreKeyBundleRecordBuilder::verify_at(&raw_record, now, valid) {
        Ok(_) => {},
        Err(_) => {
            return Err(MessengerError::InvalidPreKeySignature(peer.clone()));
        },
    }
    let identity_key = match parse_x25519_public(raw_record.x3dh_identity_key.as_slice()) {
        Some(key) => key,
        None => {
            return Err(MessengerError::PreKeyBundleNotFound(peer.clone()));
        },
    };
    let signed_prekey = match parse_x25519_public(raw_record.signed_prekey.as_slice()) {
        Some(key) => key,
        None => {
            return Err(MessengerError::PreKeyBundleNotFound(peer.clone()));
        },
    };
    let one_time_prekey = if raw_record.one_time_prekeys.len() > 0 {
        parse_x25519_public(raw_record.one_time_prekeys[0].as_slice())
    } else {
        None
    };
    Ok(
        PreKeyBundle {
            identity_key,
            signed_prekey,
            signed_prekey_signature: raw_record.signed_prekey_signature,
            one_time_prekey,
        },
    )
}

/// The bundle of a user, from what the lookups of the user's record and of
/// the user's prekeys found. A record that was not found is reported with the
/// reason.
pub fn fetch_bundle(
    peer: &UserId,
    user_record: Result<DhtRecord, String>,
    prekey_record: Option<PreKeyBundleRecord>,
    now: u64,
) -> (result: Result<PreKeyBundle, MessengerError>)
    ensures
        match user_record {
            Err(reason) => result == Err::<PreKeyBundle, _>(
                MessengerError::DhtRecordNotFound(reason),
            ),
            Ok(user) => if user.public_key@.len() != 32 || !suite::ed25519_is_key(
                user.public_key@,
            ) {
                result == Err::<PreKeyBundle, _>(MessengerError::IdentityKeyNotFound(*peer))
            } else {
                match prekey_record {
                    Some(r) => bundle_outcome(*peer, user.public_key@, r, now, result),
                    None => result == Err::<PreKeyBundle, _>(
                        MessengerError::PreKeyBundleNotFound(*peer),
                    ),
                }
            },
        },
{
    let user = match user_record {
        Ok(user) => user,
        Err(reason) => {
            return Err(MessengerError::DhtRecordNotFound(reason));
        },
    };
    let verifying_key = match owner_key(peer, &user) {
        Ok(key) => key,
        Err(e) => {
            return Err(e);
        },
    };
    match prekey_record {
        Some(record) => bundle_from_record(peer, &verifying_key, record, now),
        None => Err(MessengerError::PreKeyBundleNotFound(peer.clone())),
    }
}

/// A relay's onion key, from what the lookup of the relay's descriptor found.
pub fn onion_key_from_descriptor(
    relay: &RelayId,
    descriptor: &Option<RelayDescriptorRecord>,
) -> (key: Result<RelayOnionKey, MessengerError>)
    ensures
        match descriptor {
            Some(d) if d.onion_public_key@.len() == 32 => {
                key matches Ok(x) && x@ == d.onion_public_key@
            },
            _ => key == Err::<RelayOnionKey, _>(MessengerError::OnionKeyNotFound(*relay)),
        },
{
    match descriptor {
        Some(d) => match parse_x25519_public(d.onion_public_key.as_slice()) {
            Some(key) => Ok(key),
            None => Err(MessengerError::OnionKeyNotFound(relay.clone())),
        },
        None => Err(MessengerError::OnionKeyNotFound(relay.clone())),
    }
}

} // verus!
