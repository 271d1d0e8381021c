use messenger_backend::crypto::x3dh::PreKeyBundle;
use messenger_backend::crypto::EncryptedEnvelope;
use messenger_backend::errors::MessengerError;
use messenger_backend::identity::Identity;
use messenger_backend::session::manager::{PeerIdentitySource, PreKeyBundleSource, SessionManager};
use messenger_backend::session::state::{Session, SessionOrigin};
use messenger_backend::storage::session_store::{
    origin_to_str, session_from_row, session_to_row, str_to_origin, SessionStore, StoredSessions,
};
use messenger_backend::types::{SessionId, UserId};
use std::collections::HashMap;
use x25519_dalek::{PublicKey, StaticSecret};

fn secret() -> [u8; 32] {
    StaticSecret::random_from_rng(rand_core::OsRng).to_bytes()
}

fn public(secret: &[u8; 32]) -> [u8; 32] {
    PublicKey::from(&StaticSecret::from(*secret)).to_bytes()
}

fn twin(identity: &Identity) -> Identity {
    Identity::from_secret_bytes(identity.export_secret_bytes())
}

fn copy_of(envelope: &EncryptedEnvelope) -> EncryptedEnvelope {
    EncryptedEnvelope {
        sender_id: envelope.sender_id.clone(),
        nonce: envelope.nonce,
        ciphertext: envelope.ciphertext.clone(),
        counter: envelope.counter,
        sender_signature: envelope.sender_signature.clone(),
        session_init: None,
    }
}

struct FakeStore;

impl SessionStore for FakeStore {
    // Only contracts speak of it.
    fn stored(&self) -> StoredSessions {
        unreachable!()
    }

    fn save(&mut self, _session: &Session) -> Result<(), MessengerError> {
        Ok(())
    }

    fn load(&self, _id: &SessionId) -> Result<Option<Session>, MessengerError> {
        Ok(None)
    }
}

#[derive(Default)]
struct TableStore {
    rows: HashMap<String, Session>,
}

fn kept(session: &Session) -> Session {
    session_from_row(session_to_row(session)).unwrap()
}

impl SessionStore for TableStore {
    // Only contracts speak of it.
    fn stored(&self) -> StoredSessions {
        unreachable!()
    }

    fn save(&mut self, session: &Session) -> Result<(), MessengerError> {
        self.rows.insert(session.id.0.clone(), kept(session));
        Ok(())
    }

    fn load(&self, id: &SessionId) -> Result<Option<Session>, MessengerError> {
        Ok(self.rows.get(&id.0).map(kept))
    }
}

struct BrokenStore;

impl SessionStore for BrokenStore {
    // Only contracts speak of it.
    fn stored(&self) -> StoredSessions {
        unreachable!()
    }

    fn save(&mut self, _session: &Session) -> Result<(), MessengerError> {
        Err(MessengerError::Storage("disk full".to_string()))
    }

    fn load(&self, _id: &SessionId) -> Result<Option<Session>, MessengerError> {
        Ok(None)
    }
}

struct FakeBundleSource {
    identity_key: [u8; 32],
    signed_prekey: [u8; 32],
    one_time_prekey: Option<[u8; 32]>,
    signer: Option<Identity>,
}

impl PreKeyBundleSource for FakeBundleSource {
    fn fetch_bundle(&self, _peer: &UserId) -> Result<PreKeyBundle, MessengerError> {
        let signature = match &self.signer {
            Some(signer) => signer.sign(&self.signed_prekey).to_vec(),
            None => vec![0u8; 64],
        };
        Ok(PreKeyBundle {
            identity_key: self.identity_key,
            signed_prekey: self.signed_prekey,
            signed_prekey_signature: signature,
            one_time_prekey: self.one_time_prekey,
        })
    }
}

struct FakeIdentitySource {
    keys: HashMap<UserId, [u8; 32]>,
}

impl PeerIdentitySource for FakeIdentitySource {
    fn fetch_identity_key(&self, peer: &UserId) -> Result<[u8; 32], MessengerError> {
        self.keys
            .get(peer)
            .copied()
            .ok_or_else(|| MessengerError::IdentityKeyNotFound(peer.clone()))
    }
}

fn knows(list: &[(&str, [u8; 32])]) -> FakeIdentitySource {
    FakeIdentitySource {
        keys: list.iter().map(|(name, key)| (name.to_string(), *key)).collect(),
    }
}

fn bundle_of(identity: &[u8; 32], prekey: &[u8; 32], signer: Option<Identity>) -> FakeBundleSource {
    FakeBundleSource {
        identity_key: public(identity),
        signed_prekey: public(prekey),
        one_time_prekey: None,
        signer,
    }
}

fn manager(identity: &Identity) -> SessionManager {
    SessionManager::new(secret(), secret(), Vec::new(), twin(identity))
}

// --- one session ---

#[test]
fn session_roundtrip() {
    let secret = [7u8; 32];
    let mut alice = Session::new("bob".to_string(), SessionOrigin::Initiated, secret);
    let mut bob = Session::new("alice".to_string(), SessionOrigin::Accepted, secret);

    let envelope = alice.encrypt(b"privet").unwrap();
    let plaintext = bob.decrypt(&envelope).unwrap();

    assert_eq!(plaintext, b"privet");
    assert_eq!(alice.messages_sent, 1);
    assert_eq!(bob.messages_received, 1);
}

#[test]
fn fresh_session_is_not_stale() {
    let session = Session::new("bob".to_string(), SessionOrigin::Initiated, [0u8; 32]);
    assert!(!session.is_stale(60));
}

#[test]
fn idle_sessions_become_stale() {
    let mut session = Session::new_at("bob".to_string(), SessionOrigin::Initiated, [0; 32], 1000);
    assert!(!session.is_stale_at(1060, 60));
    assert!(session.is_stale_at(1061, 60));
    session.encrypt_at(b"text", [0; 12], 2000).unwrap();
    assert!(!session.is_stale_at(2060, 60));
    assert_eq!(session.last_used_at, 2000);
    assert_eq!(session.created_at, 1000);
}

#[test]
fn failed_decryption_does_not_count() {
    let mut alice = Session::new("bob".to_string(), SessionOrigin::Initiated, [1; 32]);
    let mut bob = Session::new("alice".to_string(), SessionOrigin::Accepted, [2; 32]);
    let envelope = alice.encrypt(b"text").unwrap();
    assert!(matches!(bob.decrypt(&envelope), Err(MessengerError::Crypto(_))));
    assert_eq!(bob.messages_received, 0);
}

#[test]
fn stored_sessions_continue() {
    let mut alice = Session::new("bob".to_string(), SessionOrigin::Initiated, [7; 32]);
    let mut bob = Session::new("alice".to_string(), SessionOrigin::Accepted, [7; 32]);
    let first = alice.encrypt(b"one").unwrap();
    bob.decrypt(&first).unwrap();

    let row = session_to_row(&alice);
    assert_eq!(row.session_id, "bob");
    assert_eq!(row.peer, "bob");
    assert_eq!(row.origin, "initiated");
    assert_eq!(row.send_counter, 1);
    assert_eq!(row.messages_sent, 1);
    let mut alice = session_from_row(row).unwrap();
    let mut bob = session_from_row(session_to_row(&bob)).unwrap();
    assert_eq!(bob.origin, SessionOrigin::Accepted);

    let second = alice.encrypt(b"two").unwrap();
    assert_eq!(bob.decrypt(&second).unwrap(), b"two");
}

#[test]
fn damaged_rows_are_refused() {
    let alice = Session::new("bob".to_string(), SessionOrigin::Initiated, [7; 32]);
    let mut row = session_to_row(&alice);
    row.send_chain_key.pop();
    assert!(session_from_row(row).is_err());
}

#[test]
fn origins_have_words() {
    assert_eq!(origin_to_str(SessionOrigin::Initiated), "initiated");
    assert_eq!(origin_to_str(SessionOrigin::Accepted), "accepted");
    assert_eq!(str_to_origin(&"accepted".to_string()), SessionOrigin::Accepted);
    assert_eq!(str_to_origin(&"initiated".to_string()), SessionOrigin::Initiated);
}

// --- all sessions ---

#[test]
fn initiator_bootstraps_session_via_x3dh() {
    let bob_x3dh_identity = secret();
    let bob_signed_prekey = secret();
    let bob_signer = Identity::generate();
    let alice = Identity::generate();

    let identities = knows(&[("bob", bob_signer.verifying_key)]);
    let bundles = bundle_of(&bob_x3dh_identity, &bob_signed_prekey, Some(bob_signer));
    let mut manager = manager(&alice);

    let envelope = manager.encrypt_for(
        &"bob".to_string(),
        b"hello",
        &mut FakeStore,
        &bundles,
        &identities,
    );
    assert!(envelope.is_ok());
    let envelope = envelope.unwrap();
    assert!(!envelope.sender_signature.is_empty());
}

#[test]
fn tampered_signature_is_rejected_on_decrypt() {
    let bob_identity_dh = secret();
    let bob_signed_prekey = secret();
    let alice = Identity::generate();
    let bob = Identity::generate();

    let bob_knows = knows(&[(alice.user_id.as_str(), alice.verifying_key)]);
    let bundles = bundle_of(&bob_identity_dh, &bob_signed_prekey, None);
    let mut bob_mgr = manager(&bob);

    let shared_secret = [42u8; 32];
    let mut session =
        Session::new(bob.user_id.clone(), SessionOrigin::Initiated, shared_secret);
    bob_mgr.install(
        alice.user_id.clone(),
        Session::new(alice.user_id.clone(), SessionOrigin::Accepted, shared_secret),
    );

    let mut envelope = session.encrypt(b"hi bob").unwrap();
    envelope.sender_id = alice.user_id.clone();
    let to_sign = envelope.signable_bytes();
    envelope.sender_signature = alice.sign(&to_sign).to_vec();

    let plaintext =
        bob_mgr.decrypt_from(&alice.user_id, &envelope, &mut FakeStore, &bundles, &bob_knows);
    assert_eq!(plaintext.unwrap(), b"hi bob");

    let mut forged = copy_of(&envelope);
    forged.counter += 1;
    forged.sender_signature = bob.sign(&forged.signable_bytes()).to_vec();
    let result = bob_mgr.decrypt_from(&alice.user_id, &forged, &mut FakeStore, &bundles, &bob_knows);
    assert!(matches!(result, Err(MessengerError::InvalidMessageSignature(_))));
}

#[test]
fn stranger_first_message_bootstraps_responder_session_via_x3dh() {
    let alice = Identity::generate();
    let bob = Identity::generate();

    let alice_x3dh_identity = secret();
    let bob_x3dh_identity = secret();
    let bob_signed_prekey = secret();
    let bob_otpk = secret();

    let alice_knows = knows(&[(bob.user_id.as_str(), bob.verifying_key)]);
    let bob_knows = knows(&[(alice.user_id.as_str(), alice.verifying_key)]);

    let bob_published = FakeBundleSource {
        identity_key: public(&bob_x3dh_identity),
        signed_prekey: public(&bob_signed_prekey),
        one_time_prekey: Some(public(&bob_otpk)),
        signer: Some(twin(&bob)),
    };
    let alice_published = bundle_of(&alice_x3dh_identity, &secret(), Some(twin(&alice)));

    let mut alice_mgr =
        SessionManager::new(alice_x3dh_identity, secret(), Vec::new(), twin(&alice));
    let mut bob_mgr = SessionManager::new(
        bob_x3dh_identity,
        bob_signed_prekey,
        vec![bob_otpk],
        twin(&bob),
    );

    let envelope = alice_mgr
        .encrypt_for(&bob.user_id, b"yo stranger", &mut FakeStore, &bob_published, &alice_knows)
        .unwrap();
    assert!(
        envelope.session_init.is_some(),
        "the first message of a new session carries its parameters"
    );

    let plaintext = bob_mgr
        .decrypt_from(&alice.user_id, &envelope, &mut FakeStore, &alice_published, &bob_knows)
        .unwrap();
    assert_eq!(plaintext, b"yo stranger");

    let envelope2 = alice_mgr
        .encrypt_for(&bob.user_id, b"still here", &mut FakeStore, &bob_published, &alice_knows)
        .unwrap();
    assert!(envelope2.session_init.is_none());
    let plaintext2 = bob_mgr
        .decrypt_from(&alice.user_id, &envelope2, &mut FakeStore, &alice_published, &bob_knows)
        .unwrap();
    assert_eq!(plaintext2, b"still here");

    assert_eq!(bob_mgr.prekeys_left(), 0);
}

#[test]
fn bundle_with_a_foreign_signature_is_refused() {
    let alice = Identity::generate();
    let bob = Identity::generate();
    let identities = knows(&[("bob", bob.verifying_key)]);
    let bundles = bundle_of(&secret(), &secret(), Some(Identity::generate()));
    let mut alice_mgr = manager(&alice);
    let result =
        alice_mgr.encrypt_for(&"bob".to_string(), b"hi", &mut FakeStore, &bundles, &identities);
    assert!(matches!(result, Err(MessengerError::InvalidPreKeySignature(_))));
    assert!(!alice_mgr.has_session(&"bob".to_string()));
}

#[test]
fn unknown_and_wrong_senders_are_refused() {
    let alice = Identity::generate();
    let bob = Identity::generate();
    let bundles = bundle_of(&secret(), &secret(), None);
    let mut bob_mgr = manager(&bob);
    let mut session = Session::new(bob.user_id.clone(), SessionOrigin::Initiated, [1; 32]);
    let mut envelope = session.encrypt(b"text").unwrap();
    envelope.sender_id = alice.user_id.clone();
    envelope.sender_signature = alice.sign(&envelope.signable_bytes()).to_vec();

    let other = "carol".to_string();
    let nobody = knows(&[]);
    assert!(matches!(
        bob_mgr.decrypt_from(&other, &envelope, &mut FakeStore, &bundles, &nobody),
        Err(MessengerError::SenderMismatch { .. })
    ));
    assert!(matches!(
        bob_mgr.decrypt_from(&alice.user_id, &envelope, &mut FakeStore, &bundles, &nobody),
        Err(MessengerError::IdentityKeyNotFound(_))
    ));
    let alice_known = knows(&[(alice.user_id.as_str(), alice.verifying_key)]);
    assert!(matches!(
        bob_mgr.decrypt_from(&alice.user_id, &envelope, &mut FakeStore, &bundles, &alice_known),
        Err(MessengerError::NoSession(_))
    ));
}

#[test]
fn failing_store_fails_the_message() {
    let alice = Identity::generate();
    let bob = Identity::generate();
    let identities = knows(&[("bob", bob.verifying_key)]);
    let bundles = bundle_of(&secret(), &secret(), Some(bob));
    let mut alice_mgr = manager(&alice);
    let result =
        alice_mgr.encrypt_for(&"bob".to_string(), b"hi", &mut BrokenStore, &bundles, &identities);
    assert!(matches!(result, Err(MessengerError::Storage(_))));
}

#[test]
fn packets_name_their_sender() {
    let alice = Identity::generate();
    let bob = Identity::generate();
    let bundles = bundle_of(&secret(), &secret(), None);
    let nobody = knows(&[]);
    let mut alice_mgr = manager(&alice);
    let mut bob_mgr = manager(&bob);
    alice_mgr.install(
        bob.user_id.clone(),
        Session::new(bob.user_id.clone(), SessionOrigin::Initiated, [3; 32]),
    );
    bob_mgr.install(
        alice.user_id.clone(),
        Session::new(alice.user_id.clone(), SessionOrigin::Accepted, [3; 32]),
    );
    let packet = alice_mgr
        .encrypt_message(&bob.user_id, b"text", &mut FakeStore, &bundles, &nobody)
        .unwrap();
    let bob_knows = knows(&[(alice.user_id.as_str(), alice.verifying_key)]);
    let (from, text) = bob_mgr
        .decrypt_message(&packet, &mut FakeStore, &bundles, &bob_knows)
        .unwrap();
    assert_eq!(from, alice.user_id);
    assert_eq!(text, b"text");

    let mut garbage = packet;
    garbage.encrypted_payload = vec![1, 2, 3];
    assert!(matches!(
        bob_mgr.decrypt_message(&garbage, &mut FakeStore, &bundles, &bob_knows),
        Err(MessengerError::Serialization(_))
    ));
}

#[test]
fn stale_sessions_are_evicted() {
    let mut mgr = manager(&Identity::generate());
    mgr.install(
        "old".to_string(),
        Session::new_at("old".to_string(), SessionOrigin::Initiated, [1; 32], 100),
    );
    mgr.install(
        "new".to_string(),
        Session::new_at("new".to_string(), SessionOrigin::Initiated, [1; 32], 900),
    );
    mgr.evict_stale_at(1000, 500);
    mgr.evict_stale(u64::MAX);
    assert!(!mgr.has_session(&"old".to_string()));
    assert!(mgr.has_session(&"new".to_string()));
}

#[test]
fn own_signatures_verify() {
    let alice = Identity::generate();
    let mgr = manager(&alice);
    let signature = mgr.sign_own_bytes(b"claim");
    let known = knows(&[(alice.user_id.as_str(), alice.verifying_key)]);
    assert!(mgr
        .verify_own_bytes(&alice.user_id, b"claim", &signature, &known)
        .unwrap());
    assert!(!mgr
        .verify_own_bytes(&alice.user_id, b"other", &signature, &known)
        .unwrap());
    assert!(mgr
        .verify_own_bytes(&alice.user_id, b"claim", &signature, &knows(&[]))
        .is_err());
    assert_eq!(mgr.my_user_id(), &alice.user_id);
}

fn signed(session: &mut Session, sender: &Identity, text: &[u8]) -> EncryptedEnvelope {
    let mut envelope = session.encrypt(text).unwrap();
    envelope.sender_id = sender.user_id.clone();
    envelope.sender_signature = sender.sign(&envelope.signable_bytes()).to_vec();
    envelope
}

#[test]
fn conversations_go_on_after_eviction_and_restart() {
    let alice = Identity::generate();
    let bob = Identity::generate();
    let bob_knows = knows(&[(alice.user_id.as_str(), alice.verifying_key)]);
    let bundles = bundle_of(&secret(), &secret(), None);
    let mut store = TableStore::default();
    let mut bob_mgr = manager(&bob);
    let mut hers = Session::new(bob.user_id.clone(), SessionOrigin::Initiated, [9; 32]);
    bob_mgr.install(
        alice.user_id.clone(),
        Session::new(alice.user_id.clone(), SessionOrigin::Accepted, [9; 32]),
    );
    let first = signed(&mut hers, &alice, b"one");
    let read = bob_mgr.decrypt_from(&alice.user_id, &first, &mut store, &bundles, &bob_knows);
    assert_eq!(read.unwrap(), b"one");

    bob_mgr.evict_stale_at(u64::MAX, 0);
    assert!(!bob_mgr.has_session(&alice.user_id));
    let second = signed(&mut hers, &alice, b"two");
    let read = bob_mgr.decrypt_from(&alice.user_id, &second, &mut store, &bundles, &bob_knows);
    assert_eq!(read.unwrap(), b"two");

    let mut restarted = manager(&bob);
    let third = signed(&mut hers, &alice, b"three");
    let read = restarted.decrypt_from(&alice.user_id, &third, &mut store, &bundles, &bob_knows);
    assert_eq!(read.unwrap(), b"three");
    let again = restarted.decrypt_from(&alice.user_id, &third, &mut store, &bundles, &bob_knows);
    assert!(again.is_err());

    let mut restarted = manager(&bob);
    let answer = restarted
        .encrypt_for(&alice.user_id, b"four", &mut store, &bundles, &knows(&[]))
        .unwrap();
    assert!(answer.session_init.is_none());
    assert_eq!(hers.decrypt(&answer).unwrap(), b"four");
}

#[test]
fn forged_messages_change_nothing() {
    let alice = Identity::generate();
    let bob = Identity::generate();
    let bob_knows = knows(&[
        (alice.user_id.as_str(), alice.verifying_key),
        (bob.user_id.as_str(), bob.verifying_key),
    ]);
    let bundles = bundle_of(&secret(), &secret(), None);
    let mut store = TableStore::default();
    let mut bob_mgr = manager(&bob);
    let mut hers = Session::new(bob.user_id.clone(), SessionOrigin::Initiated, [9; 32]);
    bob_mgr.install(
        alice.user_id.clone(),
        Session::new(alice.user_id.clone(), SessionOrigin::Accepted, [9; 32]),
    );
    let genuine = signed(&mut hers, &alice, b"genuine");
    let mut forged = copy_of(&genuine);
    forged.sender_signature = bob.sign(&forged.signable_bytes()).to_vec();
    let result = bob_mgr.decrypt_from(&alice.user_id, &forged, &mut store, &bundles, &bob_knows);
    assert!(matches!(result, Err(MessengerError::InvalidMessageSignature(_))));
    assert!(store.rows.is_empty());
    let read = bob_mgr.decrypt_from(&alice.user_id, &genuine, &mut store, &bundles, &bob_knows);
    assert_eq!(read.unwrap(), b"genuine");
    assert_eq!(store.rows.len(), 1);
}

#[test]
fn sessions_are_stored_after_each_message() {
    let alice = Identity::generate();
    let bob = Identity::generate();
    let identities = knows(&[("bob", bob.verifying_key)]);
    let bundles = bundle_of(&secret(), &secret(), Some(bob));
    let mut store = TableStore::default();
    let mut alice_mgr = manager(&alice);
    let to = "bob".to_string();
    for sent in 1..=3u32 {
        let envelope =
            alice_mgr.encrypt_for(&to, b"text", &mut store, &bundles, &identities).unwrap();
        assert_eq!(envelope.counter, sent);
        assert_eq!(envelope.session_init.is_some(), sent == 1);
        assert_eq!(store.rows["bob"].messages_sent, sent as u64);
    }
}

#[test]
fn one_time_prekeys_are_announced_and_counted() {
    let alice = Identity::generate();
    let bob = Identity::generate();
    let one_time = secret();
    let identities = knows(&[(bob.user_id.as_str(), bob.verifying_key)]);
    let bundles = FakeBundleSource {
        identity_key: public(&secret()),
        signed_prekey: public(&secret()),
        one_time_prekey: Some(public(&one_time)),
        signer: Some(twin(&bob)),
    };
    let mut alice_mgr = manager(&alice);
    let envelope = alice_mgr
        .encrypt_for(&bob.user_id, b"hi", &mut FakeStore, &bundles, &identities)
        .unwrap();
    let init = envelope.session_init.unwrap();
    assert_eq!(init.one_time_prekey_public, Some(public(&one_time)));
    let pool = vec![secret(), secret(), secret()];
    let mgr = SessionManager::new(secret(), secret(), pool, twin(&alice));
    assert_eq!(mgr.prekeys_left(), 3);
}

#[test]
fn a_new_session_takes_the_place_of_a_stored_one() {
    let alice = Identity::generate();
    let bob = Identity::generate();
    let alice_x3dh = secret();
    let bob_x3dh = secret();
    let bob_prekey = secret();
    let alice_knows = knows(&[(bob.user_id.as_str(), bob.verifying_key)]);
    let bob_knows = knows(&[(alice.user_id.as_str(), alice.verifying_key)]);
    let bob_published = bundle_of(&bob_x3dh, &bob_prekey, Some(twin(&bob)));
    let alice_published = bundle_of(&alice_x3dh, &secret(), Some(twin(&alice)));
    let mut bob_mgr = SessionManager::new(bob_x3dh, bob_prekey, Vec::new(), twin(&bob));
    let mut bob_store = TableStore::default();
    let old = Session::new(alice.user_id.clone(), SessionOrigin::Accepted, [4; 32]);
    bob_store.save(&old).unwrap();

    let mut alice_mgr = SessionManager::new(alice_x3dh, secret(), Vec::new(), twin(&alice));
    let mut alice_store = TableStore::default();
    let first = alice_mgr
        .encrypt_for(&bob.user_id, b"anew", &mut alice_store, &bob_published, &alice_knows)
        .unwrap();
    assert!(first.session_init.is_some());
    let read = bob_mgr.decrypt_from(
        &alice.user_id,
        &first,
        &mut bob_store,
        &alice_published,
        &bob_knows,
    );
    assert_eq!(read.unwrap(), b"anew");
    assert_eq!(bob_store.rows[&alice.user_id].messages_received, 1);
}
