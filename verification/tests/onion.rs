use messenger_backend::constants::{ONION_CELL_SIZE, ONION_MAX_HOPS};
use messenger_backend::crypto::ratchet::{DoubleRatchet, RatchetRole};
use messenger_backend::errors::{MessengerError, OnionFault};
use messenger_backend::network::mailbox::storage::InMemoryMailboxStore;
use messenger_backend::network::mailbox::MailboxService;
use messenger_backend::network::onion::{
    build_circuit, peel_layer, wrap_layers, OnionHop, OnionPacket, PeelResult,
};
use messenger_backend::network::relay::router::{decide_and_route, RouteAction};
use messenger_backend::types::DestinationHint;
use messenger_backend::wire;
use x25519_dalek::{PublicKey, StaticSecret};

fn relay(id: &str) -> (OnionHop, [u8; 32]) {
    let secret = StaticSecret::random_from_rng(rand_core::OsRng);
    let hop = OnionHop {
        relay_id: id.to_string(),
        onion_key: PublicKey::from(&secret).to_bytes(),
    };
    (hop, secret.to_bytes())
}

fn fake_hop(id: &str) -> OnionHop {
    relay(id).0
}

#[test]
fn rejects_too_short_chain() {
    let hops = vec![fake_hop("a"), fake_hop("b")];
    let result = build_circuit(hops, DestinationHint::Mailbox("bob".to_string()));
    assert!(matches!(
        result,
        Err(MessengerError::OnionChainTooShort { .. })
    ));
}

#[test]
fn accepts_valid_chain() {
    let hops = vec![fake_hop("a"), fake_hop("b"), fake_hop("c")];
    let circuit = build_circuit(hops, DestinationHint::Mailbox("bob".to_string())).unwrap();
    assert_eq!(circuit.len(), 3);
}

#[test]
fn rejects_garbage_packet() {
    let secret = StaticSecret::random_from_rng(rand_core::OsRng);
    let garbage = OnionPacket {
        layers: vec![1, 2, 3, 4],
    };
    let result = peel_layer(&garbage, &secret.to_bytes());
    assert!(result.is_err());
}

#[test]
fn full_message_flow_alice_to_bob() {
    let shared_secret = [7u8; 32];
    let mut alice_ratchet = DoubleRatchet::new(shared_secret, RatchetRole::Initiator);
    let mut bob_ratchet = DoubleRatchet::new(shared_secret, RatchetRole::Responder);

    let envelope = alice_ratchet.encrypt(b"privet, kak dela?").unwrap();
    let serialized_envelope = wire::encode_envelope(&envelope);

    let bob_id = "bob_userid".to_string();
    let mut hops = Vec::new();
    let mut secrets = Vec::new();
    for id in ["relay_alpha", "relay_beta", "relay_gamma"] {
        let (hop, secret) = relay(id);
        hops.push(hop);
        secrets.push(secret);
    }
    let mut circuit = build_circuit(hops, DestinationHint::Mailbox(bob_id.clone())).unwrap();
    let mut current = wrap_layers(&mut circuit, serialized_envelope).unwrap();

    for (secret, expected_hop) in secrets.iter().zip(["relay_beta", "relay_gamma"]) {
        match decide_and_route(peel_layer(&current, secret).unwrap()) {
            RouteAction::Send(outbound) => {
                assert_eq!(outbound.target_peer_id, expected_hop);
                current = OnionPacket { layers: outbound.packet.encrypted_payload };
            }
            _ => panic!("too early for delivery"),
        }
    }

    let (user, final_payload) =
        match decide_and_route(peel_layer(&current, &secrets[2]).unwrap()) {
            RouteAction::Store { user, payload } => (user, payload),
            _ => panic!("expected a delivery to a mailbox"),
        };
    assert_eq!(user, bob_id);

    let mut mailbox = MailboxService::new(InMemoryMailboxStore::new());
    mailbox.store_message(&bob_id, final_payload).unwrap();

    let fetched = mailbox.fetch_pending(&bob_id).unwrap();
    mailbox.acknowledge_delivered(&bob_id).unwrap();
    assert_eq!(fetched.len(), 1);
    assert!(mailbox.fetch_pending(&bob_id).unwrap().is_empty());

    let envelope = wire::decode_envelope(&fetched[0]).unwrap();
    let plaintext = bob_ratchet.decrypt(&envelope).unwrap();

    assert_eq!(plaintext, b"privet, kak dela?");
}

#[test]
fn long_chains_are_refused() {
    let hops = (0..7).map(|i| fake_hop(&format!("r{i}"))).collect();
    let result = build_circuit(hops, DestinationHint::DirectPeer("x".to_string()));
    assert!(matches!(
        result,
        Err(MessengerError::OnionChainTooLong { max: ONION_MAX_HOPS, got: 7 })
    ));

    let hops = (0..ONION_MAX_HOPS).map(|i| fake_hop(&format!("r{i}"))).collect();
    let circuit = build_circuit(hops, DestinationHint::DirectPeer("x".to_string())).unwrap();
    assert_eq!(circuit.len(), ONION_MAX_HOPS);
    assert!(!circuit.is_empty());
    assert_eq!(circuit.hops[0].relay_id, "r0");
}

#[test]
fn ephemeral_keys_are_used_once() {
    let hops = vec![fake_hop("a"), fake_hop("b"), fake_hop("c")];
    let mut circuit = build_circuit(hops, DestinationHint::Mailbox("bob".to_string())).unwrap();
    let public = circuit.ephemeral_public_for_hop(0);
    let secret = circuit.take_ephemeral_secret(0).unwrap();
    assert_eq!(PublicKey::from(&StaticSecret::from(secret)).to_bytes(), public);
    assert!(circuit.take_ephemeral_secret(0).is_none());
    assert!(matches!(
        wrap_layers(&mut circuit, vec![1]),
        Err(MessengerError::OnionUnwrap(OnionFault::SecretSpent { hop: 0 }))
    ));
}

#[test]
fn other_relays_cannot_peel() {
    let (first, first_secret) = relay("a");
    let (second, second_secret) = relay("b");
    let hops = vec![first, second, fake_hop("c")];
    let mut circuit = build_circuit(hops, DestinationHint::DirectPeer("p".to_string())).unwrap();
    let onion = wrap_layers(&mut circuit, b"payload".to_vec()).unwrap();
    assert!(matches!(
        peel_layer(&onion, &second_secret),
        Err(MessengerError::OnionUnwrap(OnionFault::WrongKey))
    ));
    match peel_layer(&onion, &first_secret).unwrap() {
        PeelResult::Forward { next_hop, remaining } => {
            assert_eq!(next_hop, "b");
            assert!(peel_layer(&remaining, &second_secret).is_ok());
        }
        PeelResult::Exit { .. } => panic!("two relays are left"),
    }
}

#[test]
fn innermost_layers_have_the_same_size() {
    let sizes: Vec<usize> = [1usize, 40, 200]
        .iter()
        .map(|len| {
            let hops = vec![fake_hop("a"), fake_hop("b"), fake_hop("c")];
            let mut circuit =
                build_circuit(hops, DestinationHint::Mailbox("bob".to_string())).unwrap();
            wrap_layers(&mut circuit, vec![7; *len]).unwrap().layers.len()
        })
        .collect();
    assert_eq!(sizes[0], sizes[1]);
    assert_eq!(sizes[1], sizes[2]);
    assert!(sizes[0] > ONION_CELL_SIZE);
}

#[test]
fn direct_destinations_reach_the_last_relay() {
    let (last, last_secret) = relay("c");
    let (middle, middle_secret) = relay("b");
    let (first, first_secret) = relay("a");
    let mut circuit = build_circuit(
        vec![first, middle, last],
        DestinationHint::DirectPeer("peer".to_string()),
    )
    .unwrap();
    let mut onion = wrap_layers(&mut circuit, b"x".to_vec()).unwrap();
    for secret in [first_secret, middle_secret] {
        onion = match peel_layer(&onion, &secret).unwrap() {
            PeelResult::Forward { remaining, .. } => remaining,
            PeelResult::Exit { .. } => panic!("not the last relay"),
        };
    }
    match decide_and_route(peel_layer(&onion, &last_secret).unwrap()) {
        RouteAction::DirectPeer(peer) => assert_eq!(peer, "peer"),
        _ => panic!("expected a direct delivery"),
    }
}
