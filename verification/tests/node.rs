use messenger_backend::crypto::x3dh::PreKeyBundle;
use messenger_backend::errors::MessengerError;
use messenger_backend::identity::Identity;
use messenger_backend::network::dht::record::{
    prekey_bundle_key_for_user, record_key_for_user, relay_descriptor_key_for_relay,
};
use messenger_backend::network::dispatcher;
use messenger_backend::network::dispatcher::{DispatchError, IncomingPlan};
use messenger_backend::network::mailbox::storage::InMemoryMailboxStore;
use messenger_backend::network::mailbox::MailboxService;
use messenger_backend::network::p2p::{
    LookupRequest, LookupResult, NodeAction, NodeCommand, NodeHandle,
};
use messenger_backend::network::relay::registry::{RelayEntry, RelayRegistry};
use messenger_backend::network::waiting::{
    newcomers_in_request, newcomers_in_response, not_in_memory, strangers, WaitingRoom,
};
use messenger_backend::protocol::{DhtRecord, Packet, PacketType, PreKeyBundleRecord};
use messenger_backend::session::manager::{PeerIdentitySource, PreKeyBundleSource, SessionManager};
use messenger_backend::session::state::{Session, SessionOrigin};
use messenger_backend::storage::session_store::{SessionStore, StoredSessions};
use messenger_backend::types::{SessionId, UserId};
use messenger_backend::wire;
use std::collections::HashMap;
use x25519_dalek::{PublicKey, StaticSecret};

type Node = NodeHandle<InMemoryMailboxStore>;

struct NoStore;

impl SessionStore for NoStore {
    // Only contracts speak of it.
    fn stored(&self) -> StoredSessions {
        unreachable!()
    }

    fn save(&mut self, _session: &Session) -> Result<(), MessengerError> {
        Ok(())
    }

    fn load(&self, _id: &SessionId) -> Result<Option<Session>, MessengerError> {
        Ok(None)
    }
}

struct NoBundles;

impl PreKeyBundleSource for NoBundles {
    fn fetch_bundle(&self, peer: &UserId) -> Result<PreKeyBundle, MessengerError> {
        Err(MessengerError::PreKeyBundleNotFound(peer.clone()))
    }
}

struct Keys(HashMap<UserId, [u8; 32]>);

impl PeerIdentitySource for Keys {
    fn fetch_identity_key(&self, peer: &UserId) -> Result<[u8; 32], MessengerError> {
        self.0
            .get(peer)
            .copied()
            .ok_or_else(|| MessengerError::IdentityKeyNotFound(peer.clone()))
    }
}

fn keys_of(list: &[&Identity]) -> Keys {
    Keys(list.iter().map(|i| (i.user_id.clone(), i.verifying_key)).collect())
}

fn secret() -> [u8; 32] {
    StaticSecret::random_from_rng(rand_core::OsRng).to_bytes()
}

fn public(secret: &[u8; 32]) -> [u8; 32] {
    PublicKey::from(&StaticSecret::from(*secret)).to_bytes()
}

fn node_of(identity: &Identity) -> Node {
    let manager = SessionManager::new(
        secret(),
        secret(),
        Vec::new(),
        Identity::from_secret_bytes(identity.export_secret_bytes()),
    );
    NodeHandle::start(
        manager,
        MailboxService::new(InMemoryMailboxStore::new()),
        secret(),
        RelayRegistry::new(),
    )
}

fn entry(id: &str, key: [u8; 32]) -> RelayEntry {
    RelayEntry {
        relay_id: id.to_string(),
        address: format!("/dns/{id}/tcp/1"),
        onion_public_key: key,
    }
}

fn names(list: &[&str]) -> Vec<String> {
    list.iter().map(|s| s.to_string()).collect()
}

fn pair(alice: &mut Node, alice_id: &Identity, bob: &mut Node, bob_id: &Identity) {
    alice.session_manager.install(
        bob_id.user_id.clone(),
        Session::new(bob_id.user_id.clone(), SessionOrigin::Initiated, [5; 32]),
    );
    bob.session_manager.install(
        alice_id.user_id.clone(),
        Session::new(alice_id.user_id.clone(), SessionOrigin::Accepted, [5; 32]),
    );
}

fn only_packet(actions: Vec<NodeAction>) -> (String, Packet) {
    assert_eq!(actions.len(), 1);
    match actions.into_iter().next().unwrap() {
        NodeAction::Send(out) => (out.target_peer_id, out.packet),
        other => panic!("expected a packet, got {other:?}"),
    }
}

// --- from sender to receiver ---

#[test]
fn message_travels_through_relays_and_mailbox() {
    let alice_id = Identity::generate();
    let bob_id = Identity::generate();
    let mut alice = node_of(&alice_id);
    let mut bob = node_of(&bob_id);
    pair(&mut alice, &alice_id, &mut bob, &bob_id);
    let everybody = keys_of(&[&alice_id, &bob_id]);

    let mut relays: HashMap<String, Node> = HashMap::new();
    let mut entries = Vec::new();
    for id in ["r1", "r2", "r3"] {
        let relay = node_of(&Identity::generate());
        entries.push(entry(id, public(&relay.our_onion_secret)));
        relays.insert(id.to_string(), relay);
    }
    let candidates = names(&["r1", "r2", "r3"]);
    alice
        .handle_command(
            NodeCommand::UpdateRelays { relays: entries },
            &candidates,
            &mut NoStore,
            &NoBundles,
            &everybody,
        )
        .unwrap();

    let actions = alice
        .handle_command(
            NodeCommand::SendText { to: bob_id.user_id.clone(), text: b"hello".to_vec() },
            &candidates,
            &mut NoStore,
            &NoBundles,
            &everybody,
        )
        .unwrap();
    let (mut target, mut packet) = only_packet(actions);
    let mut visited = Vec::new();
    loop {
        visited.push(target.clone());
        let relay = relays.get_mut(&target).unwrap();
        let outcome = relay.handle_request(&packet, &mut NoStore, &NoBundles, &everybody);
        assert_eq!(outcome.response.kind, PacketType::Unknown.code());
        assert!(outcome.incoming.is_none());
        match outcome.outbound {
            Some(out) => {
                target = out.target_peer_id;
                packet = out.packet;
            }
            None => break,
        }
    }
    assert_eq!(visited, ["r1", "r2", "r3"]);

    let actions = bob
        .handle_command(
            NodeCommand::FetchMailbox { relay_id: "r3".to_string() },
            &candidates,
            &mut NoStore,
            &NoBundles,
            &everybody,
        )
        .unwrap();
    let (asked, request) = only_packet(actions);
    assert_eq!(asked, "r3");
    let relay = relays.get_mut("r3").unwrap();
    let outcome = relay.handle_request(&request, &mut NoStore, &NoBundles, &everybody);
    let messages = bob.handle_response(&outcome.response, &mut NoStore, &NoBundles, &everybody);
    assert_eq!(messages.len(), 1);
    assert_eq!(messages[0].from, alice_id.user_id);
    assert_eq!(messages[0].plaintext, b"hello");

    let again = relay.handle_request(&request, &mut NoStore, &NoBundles, &everybody);
    let none = bob.handle_response(&again.response, &mut NoStore, &NoBundles, &everybody);
    assert!(none.is_empty());
}

#[test]
fn known_mailbox_relay_ends_the_route() {
    let alice_id = Identity::generate();
    let bob_id = Identity::generate();
    let mut alice = node_of(&alice_id);
    let mut bob = node_of(&bob_id);
    pair(&mut alice, &alice_id, &mut bob, &bob_id);
    let nobody = Keys(HashMap::new());
    let entries = ["r1", "r2", "r3", "exit"]
        .iter()
        .map(|id| entry(id, public(&secret())))
        .collect();
    alice.relay_registry.update(&entries);
    let candidates = names(&["r1", "r2", "r3"]);

    let found = LookupResult::FoundUser(DhtRecord {
        user_id: bob_id.user_id.clone(),
        public_key: vec![],
        mailbox_candidates: names(&["gone", "exit"]),
        expires_at_unix: 0,
        signature: vec![],
        pow_nonce: vec![],
    });
    alice.handle_lookup_request(
        9,
        LookupRequest::UserRecord { user_id: bob_id.user_id.clone() },
    );
    assert!(alice.handle_kademlia_event(9, &found).is_some());

    let route = dispatcher::choose_route(
        &alice.relay_scoring,
        &alice.relay_registry,
        alice.known_mailbox_candidates.get(&bob_id.user_id),
        &candidates,
    )
    .unwrap();
    let ids: Vec<&str> = route.iter().map(|h| h.relay_id.as_str()).collect();
    assert_eq!(ids, ["r1", "r2", "r3", "exit"]);

    let actions = alice
        .handle_command(
            NodeCommand::SendText { to: bob_id.user_id.clone(), text: b"x".to_vec() },
            &candidates,
            &mut NoStore,
            &NoBundles,
            &nobody,
        )
        .unwrap();
    assert_eq!(only_packet(actions).0, "r1");
}

#[test]
fn messages_need_a_session_and_a_route() {
    let alice_id = Identity::generate();
    let bob_id = Identity::generate();
    let mut alice = node_of(&alice_id);
    let mut bob = node_of(&bob_id);
    let nobody = Keys(HashMap::new());
    let send = || NodeCommand::SendText { to: bob_id.user_id.clone(), text: b"x".to_vec() };
    assert!(matches!(
        alice.handle_command(send(), &Vec::new(), &mut NoStore, &NoBundles, &nobody),
        Err(MessengerError::PreKeyBundleNotFound(_))
    ));
    pair(&mut alice, &alice_id, &mut bob, &bob_id);
    assert!(matches!(
        alice.handle_command(send(), &Vec::new(), &mut NoStore, &NoBundles, &nobody),
        Err(MessengerError::OnionChainTooShort { min: 3, got: 0 })
    ));
}

// --- requests ---

#[test]
fn direct_messages_are_decrypted() {
    let alice_id = Identity::generate();
    let bob_id = Identity::generate();
    let mut alice = node_of(&alice_id);
    let mut bob = node_of(&bob_id);
    pair(&mut alice, &alice_id, &mut bob, &bob_id);
    let everybody = keys_of(&[&alice_id, &bob_id]);
    let packet = alice
        .session_manager
        .encrypt_message(&bob_id.user_id, b"direct", &mut NoStore, &NoBundles, &everybody)
        .unwrap();
    let outcome = bob.handle_request(&packet, &mut NoStore, &NoBundles, &everybody);
    let message = outcome.incoming.unwrap();
    assert_eq!(message.from, alice_id.user_id);
    assert_eq!(message.plaintext, b"direct");
    let again = bob.handle_request(&packet, &mut NoStore, &NoBundles, &everybody);
    assert!(again.incoming.is_none());
}

#[test]
fn mailbox_opens_for_its_owner_only() {
    let bob_id = Identity::generate();
    let mallory_id = Identity::generate();
    let mut relay = node_of(&Identity::generate());
    let everybody = keys_of(&[&bob_id, &mallory_id]);
    relay
        .mailbox_service
        .store_message(&bob_id.user_id, b"blob".to_vec())
        .unwrap();

    let mut forged = dispatcher::fetch_mailbox(&node_of(&mallory_id).session_manager);
    forged.recipient_user_id = bob_id.user_id.clone();
    assert!(matches!(
        dispatcher::serve_mailbox(&forged, Ok(bob_id.verifying_key), &mut relay.mailbox_service),
        Err(DispatchError::NotOwner(_))
    ));
    let refused = relay.handle_request(&forged, &mut NoStore, &NoBundles, &everybody);
    assert_eq!(refused.response.kind, PacketType::Unknown.code());
    assert!(refused.response.encrypted_payload.is_empty());

    let request = dispatcher::fetch_mailbox(&node_of(&bob_id).session_manager);
    let granted = relay.handle_request(&request, &mut NoStore, &NoBundles, &everybody);
    assert_eq!(granted.response.kind, PacketType::MailboxFetch.code());
    assert_eq!(
        wire::decode_batch(&granted.response.encrypted_payload),
        Some(vec![b"blob".to_vec()])
    );

    let mut nameless = request;
    nameless.recipient_user_id.clear();
    assert!(matches!(
        dispatcher::serve_mailbox(&nameless, Ok(bob_id.verifying_key), &mut relay.mailbox_service),
        Err(DispatchError::NoOwner)
    ));
}

#[test]
fn other_packets_are_only_acknowledged() {
    let node_id = Identity::generate();
    let mut node = node_of(&node_id);
    let nobody = Keys(HashMap::new());
    for kind in [PacketType::DummyTraffic, PacketType::RelayForward, PacketType::DhtLookup] {
        let outcome = node.handle_request(
            &Packet::plain(kind, vec![1, 2, 3]),
            &mut NoStore,
            &NoBundles,
            &nobody,
        );
        assert_eq!(outcome.response.kind, PacketType::Unknown.code());
        assert!(outcome.outbound.is_none());
        assert!(outcome.incoming.is_none());
    }
    assert!(matches!(
        dispatcher::plan_incoming(
            &Packet::plain(PacketType::DirectMessage, vec![1]),
            &node.our_onion_secret
        ),
        IncomingPlan::Decrypt
    ));
    let none = node.handle_response(&Packet::ack(), &mut NoStore, &NoBundles, &nobody);
    assert!(none.is_empty());
    let broken = Packet::plain(PacketType::MailboxFetch, vec![9]);
    assert!(node.handle_response(&broken, &mut NoStore, &NoBundles, &nobody).is_empty());
}

#[test]
fn unreadable_mail_is_left_out() {
    let alice_id = Identity::generate();
    let bob_id = Identity::generate();
    let mut alice = node_of(&alice_id);
    let mut bob = node_of(&bob_id);
    pair(&mut alice, &alice_id, &mut bob, &bob_id);
    let everybody = keys_of(&[&alice_id, &bob_id]);
    let mut blobs = vec![b"garbage".to_vec()];
    for text in [b"one", b"two"] {
        let packet = alice
            .session_manager
            .encrypt_message(&bob_id.user_id, text, &mut NoStore, &NoBundles, &everybody)
            .unwrap();
        blobs.push(packet.encrypted_payload);
    }
    let response = Packet::plain(PacketType::MailboxFetch, wire::encode_batch(&blobs));
    let messages = bob.handle_response(&response, &mut NoStore, &NoBundles, &everybody);
    let texts: Vec<Vec<u8>> = messages.into_iter().map(|m| m.plaintext).collect();
    assert_eq!(texts, vec![b"one".to_vec(), b"two".to_vec()]);
}

// --- commands ---

#[test]
fn new_relays_are_dialled_saved_and_asked() {
    let id = Identity::generate();
    let mut node = node_of(&id);
    let nobody = Keys(HashMap::new());
    let actions = node
        .handle_command(
            NodeCommand::UpdateRelays {
                relays: vec![entry("a", [1; 32]), entry("b", [2; 32])],
            },
            &Vec::new(),
            &mut NoStore,
            &NoBundles,
            &nobody,
        )
        .unwrap();
    let shape: Vec<String> = actions
        .iter()
        .map(|a| match a {
            NodeAction::Dial { relay_id, address } => format!("dial {relay_id} {address}"),
            NodeAction::SaveRelay { relay_id, .. } => format!("save {relay_id}"),
            NodeAction::Send(out) => {
                assert_eq!(out.packet.kind, PacketType::MailboxFetch.code());
                assert_eq!(out.packet.recipient_user_id, id.user_id);
                format!("ask {}", out.target_peer_id)
            }
            other => panic!("unexpected {other:?}"),
        })
        .collect();
    assert_eq!(
        shape,
        ["dial a /dns/a/tcp/1", "save a", "dial b /dns/b/tcp/1", "save b", "ask a", "ask b"]
    );
    assert!(!node.relay_registry.is_empty());
}

#[test]
fn dummies_are_of_random_size() {
    assert_eq!(dispatcher::dummy_size(0), 64);
    assert_eq!(dispatcher::dummy_size(448), 512);
    assert_eq!(dispatcher::dummy_size(449), 64);
    let mut node = node_of(&Identity::generate());
    let actions = node
        .handle_command(
            NodeCommand::SendDummy { relay_id: "r".to_string() },
            &Vec::new(),
            &mut NoStore,
            &NoBundles,
            &Keys(HashMap::new()),
        )
        .unwrap();
    let (target, packet) = only_packet(actions);
    assert_eq!(target, "r");
    assert_eq!(packet.kind, PacketType::DummyTraffic.code());
    assert_eq!(packet.padding_len as usize, packet.encrypted_payload.len());
    assert!((64..=512).contains(&packet.encrypted_payload.len()));
}

#[test]
fn only_published_records_are_published_again() {
    let mut node = node_of(&Identity::generate());
    let nobody = Keys(HashMap::new());
    let republish = |node: &mut Node| {
        node.handle_command(
            NodeCommand::RepublishDht,
            &Vec::new(),
            &mut NoStore,
            &NoBundles,
            &nobody,
        )
        .unwrap()
    };
    assert!(republish(&mut node).is_empty());
    let record = |name: &str| DhtRecord {
        user_id: name.to_string(),
        public_key: vec![],
        mailbox_candidates: vec![],
        expires_at_unix: 0,
        signature: vec![],
        pow_nonce: vec![],
    };
    node.publish_my_record(record("refused"), false);
    assert!(republish(&mut node).is_empty());
    node.publish_my_record(record("me"), true);
    node.publish_my_prekey_bundle(
        PreKeyBundleRecord {
            user_id: "me".to_string(),
            x3dh_identity_key: vec![],
            signed_prekey: vec![],
            signed_prekey_signature: vec![],
            one_time_prekeys: vec![],
            expires_at_unix: 0,
            pow_nonce: vec![],
        },
        true,
    );
    let actions = republish(&mut node);
    assert_eq!(actions.len(), 2);
    match (&actions[0], &actions[1]) {
        (
            NodeAction::PublishMyRecord { key: first },
            NodeAction::PublishMyPreKeys { key: second },
        ) => {
            assert_eq!(first, &record_key_for_user(&"me".to_string()));
            assert_eq!(second, &prekey_bundle_key_for_user(&"me".to_string()));
        }
        _ => panic!("expected two records"),
    }
}

#[test]
fn lookups_are_answered_once() {
    let mut node = node_of(&Identity::generate());
    let nobody = Keys(HashMap::new());
    let actions = node
        .handle_command(
            NodeCommand::LookupUser { user_id: "bob".to_string(), lookup: 1 },
            &Vec::new(),
            &mut NoStore,
            &NoBundles,
            &nobody,
        )
        .unwrap();
    assert!(matches!(
        &actions[0],
        NodeAction::GetRecord { lookup: 1, key } if key == &record_key_for_user(&"bob".to_string())
    ));
    let action = node.handle_lookup_request(
        2,
        LookupRequest::RelayDescriptor { relay_id: "r".to_string() },
    );
    assert!(matches!(
        action,
        NodeAction::GetRecord { lookup: 2, key } if key == relay_descriptor_key_for_relay(&"r".to_string())
    ));
    assert!(matches!(
        node.pending_lookup(1),
        Some(LookupRequest::UserRecord { .. })
    ));
    assert!(matches!(
        node.handle_kademlia_event(1, &LookupResult::Failed),
        Some(LookupRequest::UserRecord { .. })
    ));
    assert!(node.handle_kademlia_event(1, &LookupResult::Failed).is_none());
    assert!(node.pending_lookup(1).is_none());
    assert!(matches!(
        node.handle_kademlia_event(2, &LookupResult::Undecodable),
        Some(LookupRequest::RelayDescriptor { .. })
    ));
    assert!(node.known_mailbox_candidates.get(&"bob".to_string()).is_none());
}

// --- work that waits for prekeys ---

fn user_record(name: &str) -> DhtRecord {
    DhtRecord {
        user_id: name.to_string(),
        public_key: vec![1; 32],
        mailbox_candidates: Vec::new(),
        expires_at_unix: 1,
        signature: Vec::new(),
        pow_nonce: Vec::new(),
    }
}

#[test]
fn first_messages_name_the_users_to_look_up() {
    let alice_id = Identity::generate();
    let bob_id = Identity::generate();
    let mut alice = node_of(&alice_id);
    let mut bob = node_of(&bob_id);
    pair(&mut alice, &alice_id, &mut bob, &bob_id);
    let mut envelope = alice
        .session_manager
        .encrypt_for(&bob_id.user_id, b"hi", &mut NoStore, &NoBundles, &keys_of(&[]))
        .unwrap();
    let plain = Packet::plain(PacketType::DirectMessage, wire::encode_envelope(&envelope));
    assert!(newcomers_in_request(&plain, &bob.our_onion_secret).is_empty());

    envelope.session_init = Some(messenger_backend::crypto::SessionInit {
        ephemeral_key: [1; 32],
        one_time_prekey_public: None,
    });
    let bytes = wire::encode_envelope(&envelope);
    let first = Packet::plain(PacketType::DirectMessage, bytes.clone());
    let wanted = vec![alice_id.user_id.clone()];
    assert_eq!(newcomers_in_request(&first, &bob.our_onion_secret), wanted);
    let batch = wire::encode_batch(&vec![vec![1, 2], bytes.clone(), bytes]);
    let response = Packet::plain(PacketType::MailboxFetch, batch);
    assert_eq!(newcomers_in_response(&response), [wanted.clone(), wanted.clone()].concat());
    assert!(newcomers_in_response(&Packet::ack()).is_empty());

    let both = vec![alice_id.user_id.clone(), "carol".to_string()];
    assert_eq!(strangers(&both, &bob.session_manager, &NoStore), names(&["carol"]));
    assert_eq!(not_in_memory(&both, &bob.session_manager), names(&["carol"]));
}

#[test]
fn work_waits_until_both_lookups_have_ended() {
    let mut room = WaitingRoom::new();
    let to_start = room.wait(7, names(&["bob", "carol", "bob"]));
    assert_eq!(to_start, names(&["bob", "carol"]));
    room.started("bob".to_string(), 1, 2);
    room.started("carol".to_string(), 3, 4);
    assert!(room.wait(8, names(&["carol"])).is_empty());
    assert!(room.ready().is_empty());

    assert!(room.ended(99, LookupResult::Failed).is_none());
    assert!(room.ended(4, LookupResult::Failed).is_none());
    assert!(room.ready().is_empty());
    let found = room.ended(3, LookupResult::FoundUser(user_record("carol"))).unwrap();
    assert_eq!(found.user_id, "carol");
    assert_eq!(found.user.unwrap().public_key, vec![1; 32]);
    assert!(found.prekeys.is_none());
    assert_eq!(room.ready(), vec![8]);

    assert!(room.ended(1, LookupResult::Undecodable).is_none());
    let found = room.ended(2, LookupResult::Failed).unwrap();
    assert_eq!(found.user_id, "bob");
    assert!(found.user.is_none());
    assert_eq!(room.ready(), vec![7]);
    assert!(room.ready().is_empty());
}
