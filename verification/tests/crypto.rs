use messenger_backend::crypto::pow::{leading_zero_bits, PowChallenge, PowSolution};
use messenger_backend::crypto::ratchet::{DoubleRatchet, RatchetError, RatchetRole, MAX_SKIP};
use messenger_backend::crypto::x3dh::{PreKeyBundle, X3dhSession};
use messenger_backend::crypto::{EncryptedEnvelope, SessionInit};
use sha2::{Digest, Sha256};
use x25519_dalek::{PublicKey, StaticSecret};

fn secret() -> StaticSecret {
    StaticSecret::random_from_rng(rand_core::OsRng)
}

fn public(secret: &StaticSecret) -> [u8; 32] {
    PublicKey::from(secret).to_bytes()
}

// --- proof of work ---

#[test]
fn solve_and_verify() {
    let challenge = PowChallenge::new(12);
    let solution = challenge.solve().unwrap();
    assert!(challenge.verify(&solution));
}

#[test]
fn wrong_nonce_fails() {
    let challenge = PowChallenge::new(20);
    let bad = PowSolution { nonce: 0 };
    assert!(!challenge.verify(&bad) || challenge.check(0));
}

#[test]
fn solution_is_the_least_nonce() {
    let challenge = PowChallenge { challenge: [9; 32], difficulty_bits: 8 };
    let solution = challenge.solve().unwrap();
    for nonce in 0..solution.nonce {
        assert!(!challenge.check(nonce));
    }
    let mut hasher = Sha256::new();
    hasher.update([9u8; 32]);
    hasher.update(solution.nonce.to_le_bytes());
    let hash: [u8; 32] = hasher.finalize().into();
    assert_eq!(hash[0], 0);
    assert!(leading_zero_bits(&hash) >= 8);
}

#[test]
fn zero_bits_are_counted_from_the_top() {
    let mut hash = [0xffu8; 32];
    assert_eq!(leading_zero_bits(&hash), 0);
    hash[0] = 0x01;
    assert_eq!(leading_zero_bits(&hash), 7);
    hash[0] = 0;
    hash[1] = 0x10;
    assert_eq!(leading_zero_bits(&hash), 11);
    assert_eq!(leading_zero_bits(&[0; 32]), 256);
}

#[test]
fn harder_work_covers_easier_work() {
    let hard = PowChallenge { challenge: [3; 32], difficulty_bits: 10 };
    let easy = PowChallenge { challenge: [3; 32], difficulty_bits: 4 };
    let solution = hard.solve().unwrap();
    assert!(easy.verify(&solution));
}

#[test]
fn challenge_is_derived_from_domain_and_seed() {
    let challenge = PowChallenge::derive_from("domain", b"seed", 5);
    let expected: [u8; 32] = Sha256::digest(b"domainseed").into();
    assert_eq!(challenge.challenge, expected);
    assert_eq!(challenge.difficulty_bits, 5);
    assert_ne!(
        PowChallenge::new(1).challenge,
        PowChallenge::new(1).challenge
    );
}

// --- key agreement ---

#[test]
fn alice_and_bob_derive_same_secret() {
    let alice_identity = secret();
    let bob_identity = secret();
    let bob_signed_prekey = secret();

    let bundle = PreKeyBundle {
        identity_key: public(&bob_identity),
        signed_prekey: public(&bob_signed_prekey),
        signed_prekey_signature: vec![],
        one_time_prekey: None,
    };

    let (alice_session, alice_ephemeral_pub) =
        X3dhSession::initiate(&alice_identity.to_bytes(), &bundle);

    let bob_session = X3dhSession::respond(
        &bob_identity.to_bytes(),
        &bob_signed_prekey.to_bytes(),
        None,
        &public(&alice_identity),
        &alice_ephemeral_pub,
    );

    assert_eq!(alice_session.shared_secret, bob_session.shared_secret);
}

#[test]
fn one_time_prekey_enters_the_secret() {
    let alice_identity = secret();
    let bob_identity = secret();
    let bob_signed_prekey = secret();
    let one_time = secret();

    let bundle = PreKeyBundle {
        identity_key: public(&bob_identity),
        signed_prekey: public(&bob_signed_prekey),
        signed_prekey_signature: vec![],
        one_time_prekey: Some(public(&one_time)),
    };
    let (alice_session, ephemeral) = X3dhSession::initiate(&alice_identity.to_bytes(), &bundle);
    let with_key = X3dhSession::respond(
        &bob_identity.to_bytes(),
        &bob_signed_prekey.to_bytes(),
        Some(&one_time.to_bytes()),
        &public(&alice_identity),
        &ephemeral,
    );
    let without_key = X3dhSession::respond(
        &bob_identity.to_bytes(),
        &bob_signed_prekey.to_bytes(),
        None,
        &public(&alice_identity),
        &ephemeral,
    );
    assert_eq!(alice_session.shared_secret, with_key.shared_secret);
    assert_ne!(alice_session.shared_secret, without_key.shared_secret);
}

#[test]
fn secret_is_an_hkdf_of_the_agreements() {
    let identity = [1u8; 32];
    let ephemeral = [2u8; 32];
    let bob_identity = [3u8; 32];
    let bob_prekey = [4u8; 32];
    let bundle = PreKeyBundle {
        identity_key: public(&StaticSecret::from(bob_identity)),
        signed_prekey: public(&StaticSecret::from(bob_prekey)),
        signed_prekey_signature: vec![],
        one_time_prekey: None,
    };
    let (session, ephemeral_public) = X3dhSession::initiate_with(&identity, &bundle, &ephemeral);
    assert_eq!(ephemeral_public, public(&StaticSecret::from(ephemeral)));

    let dh = |secret: [u8; 32], public: [u8; 32]| {
        StaticSecret::from(secret)
            .diffie_hellman(&PublicKey::from(public))
            .to_bytes()
    };
    let mut material = Vec::new();
    material.extend_from_slice(&dh(identity, bundle.signed_prekey));
    material.extend_from_slice(&dh(ephemeral, bundle.identity_key));
    material.extend_from_slice(&dh(ephemeral, bundle.signed_prekey));
    let mut expected = [0u8; 32];
    hkdf::Hkdf::<Sha256>::new(None, &material)
        .expand(b"messenger-x3dh-v1", &mut expected)
        .unwrap();
    assert_eq!(session.shared_secret, expected);
}

// --- ratchet ---

#[test]
fn encrypt_decrypt_roundtrip() {
    let secret = [42u8; 32];
    let mut alice = DoubleRatchet::new(secret, RatchetRole::Initiator);
    let mut bob = DoubleRatchet::new(secret, RatchetRole::Responder);

    let envelope = alice.encrypt(b"privet bro").unwrap();
    let decrypted = bob.decrypt(&envelope).unwrap();

    assert_eq!(decrypted, b"privet bro");
}

#[test]
fn bidirectional_conversation_does_not_break_after_both_sides_send() {
    let secret = [9u8; 32];
    let mut alice = DoubleRatchet::new(secret, RatchetRole::Initiator);
    let mut bob = DoubleRatchet::new(secret, RatchetRole::Responder);

    let a1 = alice.encrypt(b"hi bob").unwrap();
    let b1 = bob.encrypt(b"hi alice").unwrap();

    assert_eq!(bob.decrypt(&a1).unwrap(), b"hi bob");
    assert_eq!(alice.decrypt(&b1).unwrap(), b"hi alice");

    let a2 = alice.encrypt(b"how are you").unwrap();
    let b2 = bob.encrypt(b"fine, you?").unwrap();

    assert_eq!(bob.decrypt(&a2).unwrap(), b"how are you");
    assert_eq!(alice.decrypt(&b2).unwrap(), b"fine, you?");
}

#[test]
fn out_of_order_delivery_is_recoverable() {
    let secret = [3u8; 32];
    let mut alice = DoubleRatchet::new(secret, RatchetRole::Initiator);
    let mut bob = DoubleRatchet::new(secret, RatchetRole::Responder);

    let env1 = alice.encrypt(b"one").unwrap();
    let env2 = alice.encrypt(b"two").unwrap();
    let env3 = alice.encrypt(b"three").unwrap();

    let p3 = bob.decrypt(&env3).unwrap();
    assert_eq!(p3, b"three");
    let p1 = bob.decrypt(&env1).unwrap();
    assert_eq!(p1, b"one");
    let p2 = bob.decrypt(&env2).unwrap();
    assert_eq!(p2, b"two");
}

#[test]
fn replaying_an_already_used_counter_fails() {
    let secret = [4u8; 32];
    let mut alice = DoubleRatchet::new(secret, RatchetRole::Initiator);
    let mut bob = DoubleRatchet::new(secret, RatchetRole::Responder);

    let env1 = alice.encrypt(b"one").unwrap();
    bob.decrypt(&env1).unwrap();

    assert!(bob.decrypt(&env1).is_err());
}

#[test]
fn skip_further_than_max_skip_is_rejected() {
    let secret = [5u8; 32];
    let mut bob = DoubleRatchet::new(secret, RatchetRole::Responder);
    let bogus = EncryptedEnvelope {
        sender_id: String::new(),
        nonce: [0u8; 12],
        ciphertext: vec![0u8; 16],
        counter: MAX_SKIP + 50,
        sender_signature: Vec::new(),
        session_init: None,
    };
    assert!(bob.decrypt(&bogus).is_err());
}

#[test]
fn refused_counters_name_the_reason() {
    let mut alice = DoubleRatchet::new([5; 32], RatchetRole::Initiator);
    let mut bob = DoubleRatchet::new([5; 32], RatchetRole::Responder);
    let first = alice.encrypt(b"one").unwrap();
    bob.decrypt(&first).unwrap();
    assert!(matches!(
        bob.decrypt(&first),
        Err(RatchetError::KeyUnavailable { counter: 1, position: 1 })
    ));
    let mut far = first;
    far.counter = MAX_SKIP + 2;
    assert!(matches!(
        bob.decrypt(&far),
        Err(RatchetError::SkippedTooFar { skipped: 1001, limit: 1000 })
    ));
}

#[test]
fn each_message_uses_different_key() {
    let secret = [1u8; 32];
    let mut alice = DoubleRatchet::new(secret, RatchetRole::Initiator);

    let env1 = alice.encrypt(b"message one").unwrap();
    let env2 = alice.encrypt(b"message one").unwrap();

    assert_ne!(env1.ciphertext, env2.ciphertext);
}

#[test]
fn export_import_state_roundtrip_preserves_ability_to_continue() {
    let secret = [7u8; 32];
    let mut alice = DoubleRatchet::new(secret, RatchetRole::Initiator);
    let mut bob = DoubleRatchet::new(secret, RatchetRole::Responder);

    let env1 = alice.encrypt(b"before restart").unwrap();
    assert_eq!(bob.decrypt(&env1).unwrap(), b"before restart");

    let alice_state = alice.export_state();
    let bob_state = bob.export_state();
    let mut alice2 = DoubleRatchet::restore(alice_state);
    let mut bob2 = DoubleRatchet::restore(bob_state);

    let env2 = alice2.encrypt(b"after restart").unwrap();
    assert_eq!(bob2.decrypt(&env2).unwrap(), b"after restart");
}

#[test]
fn message_key_does_not_depend_on_the_nonce() {
    let mut alice = DoubleRatchet::new([6; 32], RatchetRole::Initiator);
    let mut twin = DoubleRatchet::new([6; 32], RatchetRole::Initiator);
    let mut bob = DoubleRatchet::new([6; 32], RatchetRole::Responder);
    let first = alice.encrypt_with_nonce(b"text", [1; 12]).unwrap();
    let second = twin.encrypt_with_nonce(b"text", [1; 12]).unwrap();
    assert_eq!(first.ciphertext, second.ciphertext);
    assert_eq!(first.ciphertext.len(), 4 + 16);
    assert_eq!(first.counter, 1);
    assert_eq!(bob.decrypt(&first).unwrap(), b"text");
}

#[test]
fn forged_ciphertext_is_told_from_a_missing_key() {
    let mut alice = DoubleRatchet::new([8; 32], RatchetRole::Initiator);
    let mut bob = DoubleRatchet::new([8; 32], RatchetRole::Responder);
    let mut envelope = alice.encrypt(b"text").unwrap();
    envelope.ciphertext[0] ^= 1;
    assert!(matches!(bob.decrypt(&envelope), Err(RatchetError::DecryptionFailed)));
}

#[test]
fn receiving_with_the_wrong_role_fails() {
    let mut alice = DoubleRatchet::new([8; 32], RatchetRole::Initiator);
    let mut other = DoubleRatchet::new([8; 32], RatchetRole::Initiator);
    let envelope = alice.encrypt(b"text").unwrap();
    assert!(other.decrypt(&envelope).is_err());
}

// --- what is signed ---

#[test]
fn signed_bytes_cover_every_part() {
    let plain = EncryptedEnvelope {
        sender_id: "ab".to_string(),
        nonce: [7; 12],
        ciphertext: vec![1, 2],
        counter: 0x0102_0304,
        sender_signature: vec![9],
        session_init: None,
    };
    let mut expected = b"ab".to_vec();
    expected.extend_from_slice(&[7; 12]);
    expected.extend_from_slice(&0x0102_0304u32.to_le_bytes());
    expected.extend_from_slice(&[1, 2]);
    let common = expected.clone();
    expected.push(0);
    assert_eq!(plain.signable_bytes(), expected);

    let first = EncryptedEnvelope {
        session_init: Some(SessionInit {
            ephemeral_key: [5; 32],
            one_time_prekey_public: Some([6; 32]),
        }),
        ..plain
    };
    let mut expected = common;
    expected.push(1);
    expected.extend_from_slice(&[5; 32]);
    expected.push(1);
    expected.extend_from_slice(&[6; 32]);
    assert_eq!(first.signable_bytes(), expected);
}

#[test]
fn any_order_opens_each_message_once() {
    let mut alice = DoubleRatchet::new([8; 32], RatchetRole::Initiator);
    let mut bob = DoubleRatchet::new([8; 32], RatchetRole::Responder);
    let sent: Vec<_> = (0..9u8).map(|i| alice.encrypt(&[i]).unwrap()).collect();
    for i in [4usize, 0, 8, 3, 7, 1, 2, 6, 5] {
        assert_eq!(bob.decrypt(&sent[i]).unwrap(), vec![i as u8]);
    }
    assert_eq!(bob.export_state().recv_counter, 9);
    for envelope in &sent {
        assert!(matches!(bob.decrypt(envelope), Err(RatchetError::KeyUnavailable { .. })));
    }
}

#[test]
fn ciphertexts_are_longer_by_the_tag() {
    let mut alice = DoubleRatchet::new([8; 32], RatchetRole::Initiator);
    assert_eq!(alice.encrypt(b"").unwrap().ciphertext.len(), 16);
    assert_eq!(alice.encrypt(b"hello").unwrap().ciphertext.len(), 21);
}

#[test]
fn the_two_chains_of_a_secret_differ() {
    let i = DoubleRatchet::new([8; 32], RatchetRole::Initiator).export_state();
    let r = DoubleRatchet::new([8; 32], RatchetRole::Responder).export_state();
    assert_eq!(i.send_chain_key, r.recv_chain_key);
    assert_eq!(i.recv_chain_key, r.send_chain_key);
    assert_ne!(i.send_chain_key, i.recv_chain_key);
}

#[test]
fn domains_give_different_challenges() {
    let first = PowChallenge::derive_from("dht_record", b"seed", 8);
    let second = PowChallenge::derive_from("prekey_bundle", b"seed", 8);
    assert_ne!(first.challenge, second.challenge);
}
