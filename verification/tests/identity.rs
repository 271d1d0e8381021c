use ed25519_dalek::{Signer, SigningKey};
use messenger_backend::identity::recovery;
use messenger_backend::identity::recovery::RecoveryError;
use messenger_backend::identity::Identity;
use sha2::{Digest, Sha256};

#[test]
fn user_id_is_deterministic() {
    let id1 = Identity::generate();
    let id2 = Identity::from_secret_bytes(id1.export_secret_bytes());
    assert_eq!(id1.user_id, id2.user_id);
}

#[test]
fn sign_and_verify_roundtrip() {
    let identity = Identity::generate();
    let msg = b"hello relay";
    let sig = identity.sign(msg);
    assert!(Identity::verify(&identity.verifying_key, msg, &sig));
}

#[test]
fn keys_and_signatures_are_ed25519() {
    let identity = Identity::from_secret_bytes([11; 32]);
    let key = SigningKey::from_bytes(&[11; 32]);
    assert_eq!(identity.verifying_key, key.verifying_key().to_bytes());
    assert_eq!(identity.sign(b"text"), key.sign(b"text").to_bytes());
}

#[test]
fn user_id_is_base58_of_the_hash() {
    let identity = Identity::from_secret_bytes([11; 32]);
    let hash = Sha256::digest(identity.verifying_key);
    let expected = bs58::encode(&hash[..20]).into_string();
    assert_eq!(identity.user_id, expected);
    assert_eq!(Identity::derive_user_id(&identity.verifying_key), expected);
}

#[test]
fn foreign_and_malformed_signatures_are_refused() {
    let alice = Identity::generate();
    let bob = Identity::generate();
    let signature = alice.sign(b"text");
    assert!(Identity::verify_bytes(&alice.verifying_key, b"text", &signature));
    assert!(!Identity::verify_bytes(&bob.verifying_key, b"text", &signature));
    assert!(!Identity::verify_bytes(&alice.verifying_key, b"other", &signature));
    assert!(!Identity::verify_bytes(&alice.verifying_key, b"text", &signature[..63]));
}

#[test]
fn public_keys_are_checked() {
    let alice = Identity::generate();
    assert_eq!(
        Identity::verifying_key_from_bytes(&alice.verifying_key),
        Some(alice.verifying_key)
    );
    assert_eq!(Identity::verifying_key_from_bytes(&alice.verifying_key[..31]), None);
    // No point of the curve has this coordinate.
    let mut wrong = [0u8; 32];
    wrong[0] = 2;
    assert_eq!(
        Identity::verifying_key_from_bytes(&wrong).is_some(),
        ed25519_dalek::VerifyingKey::from_bytes(&wrong).is_ok()
    );
}

#[test]
fn card_holds_name_and_key() {
    let alice = Identity::from_secret_bytes([1; 32]);
    let key = hex::encode(alice.verifying_key);
    assert_eq!(alice.public_key_hex(), key);
    assert_eq!(alice.my_card(), format!("{}:{}", alice.user_id, key));
}

#[test]
fn phrase_restores_the_identity() {
    let (phrase, identity) = recovery::generate();
    assert_eq!(phrase.split(' ').count(), 24);
    let restored = recovery::restore(&phrase).unwrap();
    assert_eq!(restored.user_id, identity.user_id);
    assert_eq!(restored.export_secret_bytes(), identity.export_secret_bytes());
    assert_eq!(
        recovery::try_restore(&phrase).unwrap().user_id,
        identity.user_id
    );
}

#[test]
fn known_phrase_gives_known_secret() {
    let phrase = bip39::Mnemonic::from_entropy_in(bip39::Language::English, &[7u8; 32])
        .unwrap()
        .to_string();
    let restored = recovery::try_restore(&phrase).unwrap();
    assert_eq!(restored.export_secret_bytes(), [7; 32]);
}

#[test]
fn other_phrases_do_not_restore() {
    assert!(recovery::restore("these are not the words").is_none());
    assert!(matches!(
        recovery::try_restore("these are not the words"),
        Err(RecoveryError::InvalidPhrase)
    ));
    let short = bip39::Mnemonic::from_entropy_in(bip39::Language::English, &[7u8; 16])
        .unwrap()
        .to_string();
    assert!(matches!(recovery::try_restore(&short), Err(RecoveryError::TooShort)));
}
