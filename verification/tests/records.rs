use ed25519_dalek::{Signer, SigningKey, VerifyingKey};
use messenger_backend::constants::{DHT_RECORD_TTL_SECS, DHT_REPUBLISH_INTERVAL_SECS};
use messenger_backend::errors::MessengerError;
use messenger_backend::identity::Identity;
use messenger_backend::network::dht::lookup::{
    fetch_bundle, onion_key_from_descriptor, parse_and_verify_record, parse_prekey_bundle_record,
};
use messenger_backend::network::dht::publish::{
    needs_republish_at, republish_if_needed, republish_if_needed_at,
};
use messenger_backend::network::dht::record::{
    generate_one_time_prekeys, generate_signed_prekey, prekey_bundle_key_for_user,
    prekey_signable_bytes, record_key_for_user, relay_descriptor_key_for_relay,
    relay_signable_bytes, signable_bytes, DhtRecordBuilder, PreKeyBundleRecordBuilder,
    RecordError, RelayDescriptorRecordBuilder,
};
use messenger_backend::network::dht::needs_republish;
use messenger_backend::protocol::{DhtRecord, PreKeyBundleRecord, RelayDescriptorRecord};
use sha2::{Digest, Sha256};
use std::time::{SystemTime, UNIX_EPOCH};
use x25519_dalek::{PublicKey, StaticSecret};

fn now_unix() -> u64 {
    SystemTime::now().duration_since(UNIX_EPOCH).unwrap().as_secs()
}

fn public(secret: &[u8; 32]) -> [u8; 32] {
    PublicKey::from(&StaticSecret::from(*secret)).to_bytes()
}

fn strict(key: &VerifyingKey, msg: &[u8], sig: &[u8]) -> bool {
    match <[u8; 64]>::try_from(sig) {
        Ok(sig) => key
            .verify_strict(msg, &ed25519_dalek::Signature::from_bytes(&sig))
            .is_ok(),
        Err(_) => false,
    }
}

fn sample_record(expires_in_secs: u64) -> DhtRecord {
    DhtRecord {
        user_id: "alice".to_string(),
        public_key: vec![1, 2, 3],
        mailbox_candidates: vec![],
        expires_at_unix: now_unix() + expires_in_secs,
        signature: vec![],
        pow_nonce: vec![],
    }
}

// --- publishing again ---

#[test]
fn does_not_need_republish_when_far_from_expiry() {
    let record = sample_record(DHT_RECORD_TTL_SECS);
    assert!(!needs_republish(&record));
}

#[test]
fn needs_republish_when_close_to_expiry() {
    let record = sample_record(60);
    assert!(needs_republish(&record));
}

#[test]
fn republishing_is_due_one_interval_before_the_end() {
    let mut record = sample_record(0);
    record.expires_at_unix = 100_000;
    assert!(!needs_republish_at(&record, 100_000 - DHT_REPUBLISH_INTERVAL_SECS - 1));
    assert!(needs_republish_at(&record, 100_000 - DHT_REPUBLISH_INTERVAL_SECS));
    assert!(needs_republish_at(&record, 200_000));
    record.expires_at_unix = 5;
    assert!(needs_republish_at(&record, 0));
}

#[test]
fn fresh_record_is_built_from_the_due_time_on() {
    let mut record = sample_record(0);
    record.expires_at_unix = 100_000;
    let due = 100_000 - DHT_REPUBLISH_INTERVAL_SECS;
    let rebuild = || {
        let mut fresh = sample_record(0);
        fresh.expires_at_unix = 777;
        fresh
    };
    assert!(republish_if_needed_at(&record, rebuild, due - 1).is_none());
    assert_eq!(republish_if_needed_at(&record, rebuild, due).unwrap().expires_at_unix, 777);
    assert_eq!(republish_if_needed_at(&record, rebuild, 100_001).unwrap().expires_at_unix, 777);
}

#[test]
fn fresh_record_is_built_only_when_due() {
    assert!(republish_if_needed(&sample_record(DHT_RECORD_TTL_SECS), || sample_record(1)).is_none());
    let fresh = republish_if_needed(&sample_record(60), || sample_record(DHT_RECORD_TTL_SECS));
    assert!(!needs_republish(&fresh.unwrap()));
}

// --- keys ---

#[test]
fn record_key_is_deterministic() {
    let k1 = record_key_for_user(&"user123".to_string());
    let k2 = record_key_for_user(&"user123".to_string());
    assert_eq!(k1, k2);
}

#[test]
fn prekey_bundle_key_differs_from_record_key() {
    let user = "user123".to_string();
    assert_ne!(record_key_for_user(&user), prekey_bundle_key_for_user(&user));
}

#[test]
fn relay_descriptor_key_differs_from_record_key() {
    let relay = "12D3KooWRelay".to_string();
    assert_ne!(
        relay_descriptor_key_for_relay(&relay),
        record_key_for_user(&relay)
    );
    assert_ne!(
        relay_descriptor_key_for_relay(&relay),
        prekey_bundle_key_for_user(&relay)
    );
}

#[test]
fn relay_descriptor_key_is_deterministic() {
    let relay = "12D3KooWRelay".to_string();
    assert_eq!(
        relay_descriptor_key_for_relay(&relay),
        relay_descriptor_key_for_relay(&relay)
    );
}

#[test]
fn keys_are_hashes_of_names() {
    let user = "user123".to_string();
    assert_eq!(record_key_for_user(&user), Sha256::digest(b"user123").to_vec());
    assert_eq!(
        prekey_bundle_key_for_user(&user),
        Sha256::digest(b"prekey:user123").to_vec()
    );
    assert_eq!(
        relay_descriptor_key_for_relay(&user),
        Sha256::digest(b"relay:user123").to_vec()
    );
}

#[test]
fn generated_prekeys_differ() {
    let keys = generate_one_time_prekeys(3);
    assert_eq!(keys.len(), 3);
    assert_ne!(keys[0], keys[1]);
    assert_ne!(generate_signed_prekey(), generate_signed_prekey());
}

// --- building and verifying ---

#[test]
fn prekey_bundle_build_and_verify_roundtrip() {
    let signing_key = SigningKey::generate(&mut rand_core::OsRng);
    let verifying_key: VerifyingKey = signing_key.verifying_key();

    let x3dh_identity = generate_signed_prekey();
    let signed_prekey = generate_signed_prekey();
    let otpks = generate_one_time_prekeys(3);
    let otpk_publics: Vec<[u8; 32]> = otpks.iter().map(public).collect();

    let record = PreKeyBundleRecordBuilder::build(
        &"alice".to_string(),
        &public(&x3dh_identity),
        &public(&signed_prekey),
        &otpk_publics,
        |bytes: &[u8]| signing_key.sign(bytes).to_bytes().to_vec(),
    )
    .unwrap();

    let result = PreKeyBundleRecordBuilder::verify(&record, |msg: &[u8], sig: &[u8]| {
        strict(&verifying_key, msg, sig)
    });
    assert!(result.is_ok());
}

#[test]
fn relay_descriptor_build_and_verify_roundtrip() {
    let signing_key = SigningKey::generate(&mut rand_core::OsRng);
    let verifying_key: VerifyingKey = signing_key.verifying_key();

    let onion_sk = StaticSecret::random_from_rng(rand_core::OsRng);
    let onion_pk = PublicKey::from(&onion_sk).to_bytes();

    let record = RelayDescriptorRecordBuilder::build(
        &"12D3KooWRelay".to_string(),
        &onion_pk,
        |bytes: &[u8]| signing_key.sign(bytes).to_bytes().to_vec(),
    )
    .unwrap();

    let result = RelayDescriptorRecordBuilder::verify(&record, |msg: &[u8], sig: &[u8]| {
        strict(&verifying_key, msg, sig)
    });
    assert!(result.is_ok());
}

#[test]
fn user_record_is_accepted_until_it_expires() {
    let alice = Identity::generate();
    let record = DhtRecordBuilder::build_at(
        &alice.user_id,
        alice.verifying_key.to_vec(),
        vec!["relay".to_string()],
        |bytes: &[u8]| alice.sign(bytes).to_vec(),
        1_000_000,
    )
    .unwrap();
    assert_eq!(record.expires_at_unix, 1_000_000 + DHT_RECORD_TTL_SECS);
    assert_eq!(record.pow_nonce.len(), 8);
    assert!(Identity::verify_bytes(
        &alice.verifying_key,
        &signable_bytes(&record),
        &record.signature
    ));
    let end = record.expires_at_unix;
    assert_eq!(DhtRecordBuilder::verify_at(&record, end, true), Ok(()));
    assert_eq!(
        DhtRecordBuilder::verify_at(&record, end + 1, true),
        Err(RecordError::Expired)
    );
    assert_eq!(
        DhtRecordBuilder::verify_at(&record, end, false),
        Err(RecordError::InvalidSignature)
    );

    let mut damaged = record;
    damaged.user_id.push('x');
    assert_eq!(
        DhtRecordBuilder::verify_at(&damaged, end, true),
        Err(RecordError::WorkNotDone)
    );
    damaged.pow_nonce.pop();
    assert_eq!(
        DhtRecordBuilder::verify_at(&damaged, end, true),
        Err(RecordError::MalformedNonce)
    );
}

#[test]
fn records_cannot_outlive_the_clock() {
    let result = RelayDescriptorRecordBuilder::build_at(
        &"r".to_string(),
        &[1; 32],
        |_: &[u8]| Vec::new(),
        u64::MAX,
    );
    assert!(matches!(result, Err(RecordError::ClockOverflow)));
}

#[test]
fn signed_content_is_laid_out_in_order() {
    let mut user = sample_record(0);
    user.mailbox_candidates = vec!["r1".to_string(), "r2".to_string()];
    user.expires_at_unix = 7;
    let mut expected = b"alice".to_vec();
    expected.extend_from_slice(&[1, 2, 3]);
    expected.extend_from_slice(b"r1r2");
    expected.extend_from_slice(&7u64.to_le_bytes());
    assert_eq!(signable_bytes(&user), expected);

    let relay = RelayDescriptorRecord {
        relay_id: "r".to_string(),
        onion_public_key: vec![4; 32],
        expires_at_unix: 9,
        signature: vec![],
        pow_nonce: vec![],
    };
    let mut expected = b"r".to_vec();
    expected.extend_from_slice(&[4; 32]);
    expected.extend_from_slice(&9u64.to_le_bytes());
    assert_eq!(relay_signable_bytes(&relay), expected);

    let prekeys = PreKeyBundleRecord {
        user_id: "u".to_string(),
        x3dh_identity_key: vec![1],
        signed_prekey: vec![2],
        signed_prekey_signature: vec![3],
        one_time_prekeys: vec![vec![4], vec![5]],
        expires_at_unix: 6,
        pow_nonce: vec![],
    };
    let bytes = prekey_signable_bytes(&prekeys);
    assert!(bytes.starts_with(b"u\x01\x02"));
    assert!(bytes.ends_with(&6u64.to_le_bytes()));
}

// --- what is made of found records ---

#[test]
fn found_records_are_verified() {
    let alice = Identity::generate();
    let record = DhtRecordBuilder::build(
        &alice.user_id,
        alice.verifying_key.to_vec(),
        vec![],
        |bytes: &[u8]| alice.sign(bytes).to_vec(),
    )
    .unwrap();
    let key = alice.verifying_key;
    let accepted = parse_and_verify_record(Some(record), |msg: &[u8], sig: &[u8]| {
        Identity::verify_bytes(&key, msg, sig)
    })
    .unwrap();
    assert_eq!(accepted.user_id, alice.user_id);
    assert!(matches!(
        parse_and_verify_record(Some(accepted), |_: &[u8], _: &[u8]| false),
        Err(RecordError::InvalidSignature)
    ));
    assert!(matches!(
        parse_and_verify_record(None, |_: &[u8], _: &[u8]| true),
        Err(RecordError::Undecodable)
    ));
    assert!(matches!(
        parse_prekey_bundle_record(None, |_: &[u8], _: &[u8]| true),
        Err(RecordError::Undecodable)
    ));
}

#[test]
fn bundle_is_made_of_found_records() {
    let bob = Identity::generate();
    let identity = generate_signed_prekey();
    let prekey = generate_signed_prekey();
    let one_time = generate_one_time_prekeys(2);
    let user = || DhtRecord {
        user_id: bob.user_id.clone(),
        public_key: bob.verifying_key.to_vec(),
        mailbox_candidates: vec![],
        expires_at_unix: 0,
        signature: vec![],
        pow_nonce: vec![],
    };
    let prekeys = PreKeyBundleRecordBuilder::build_at(
        &bob.user_id,
        &public(&identity),
        &public(&prekey),
        &one_time.iter().map(public).collect(),
        |bytes: &[u8]| bob.sign(bytes).to_vec(),
        1000,
    )
    .unwrap();
    let copy = |r: &PreKeyBundleRecord| PreKeyBundleRecord {
        user_id: r.user_id.clone(),
        x3dh_identity_key: r.x3dh_identity_key.clone(),
        signed_prekey: r.signed_prekey.clone(),
        signed_prekey_signature: r.signed_prekey_signature.clone(),
        one_time_prekeys: r.one_time_prekeys.clone(),
        expires_at_unix: r.expires_at_unix,
        pow_nonce: r.pow_nonce.clone(),
    };

    let bundle = fetch_bundle(&bob.user_id, Ok(user()), Some(copy(&prekeys)), 1000).unwrap();
    assert_eq!(bundle.identity_key, public(&identity));
    assert_eq!(bundle.signed_prekey, public(&prekey));
    assert_eq!(bundle.one_time_prekey, Some(public(&one_time[0])));

    assert!(matches!(
        fetch_bundle(&bob.user_id, Err("gone".to_string()), Some(copy(&prekeys)), 1000),
        Err(MessengerError::DhtRecordNotFound(_))
    ));
    assert!(matches!(
        fetch_bundle(&bob.user_id, Ok(user()), None, 1000),
        Err(MessengerError::PreKeyBundleNotFound(_))
    ));
    let mut keyless = user();
    keyless.public_key.pop();
    assert!(matches!(
        fetch_bundle(&bob.user_id, Ok(keyless), Some(copy(&prekeys)), 1000),
        Err(MessengerError::IdentityKeyNotFound(_))
    ));
    assert!(matches!(
        fetch_bundle(&bob.user_id, Ok(user()), Some(copy(&prekeys)), u64::MAX),
        Err(MessengerError::InvalidPreKeySignature(_))
    ));
}

#[test]
fn onion_keys_come_from_descriptors() {
    let relay = "relay".to_string();
    let mut descriptor = RelayDescriptorRecord {
        relay_id: relay.clone(),
        onion_public_key: vec![4; 32],
        expires_at_unix: 0,
        signature: vec![],
        pow_nonce: vec![],
    };
    let key = onion_key_from_descriptor(&relay, &Some(descriptor)).unwrap();
    assert_eq!(key, [4; 32]);
    descriptor = RelayDescriptorRecord {
        relay_id: relay.clone(),
        onion_public_key: vec![4; 31],
        expires_at_unix: 0,
        signature: vec![],
        pow_nonce: vec![],
    };
    assert!(matches!(
        onion_key_from_descriptor(&relay, &Some(descriptor)),
        Err(MessengerError::OnionKeyNotFound(_))
    ));
    assert!(onion_key_from_descriptor(&relay, &None).is_err());
}
