use messenger_backend::crypto::{EncryptedEnvelope, SessionInit};
use messenger_backend::network::codec::{MessengerCodec, MessengerProtocol};
use messenger_backend::protocol::{
    is_compatible, pad_to_fixed_size, unpad_from_fixed_size, Packet, PacketType, PaddingError,
    FIXED_PACKET_SIZE, MAX_PADDED_PAYLOAD,
};
use messenger_backend::types::DestinationHint;
use messenger_backend::wire;
use messenger_backend::wire::{Layer, LayerContent};

fn packet() -> Packet {
    Packet {
        protocol_version: 1,
        kind: -2,
        encrypted_payload: vec![1, 2, 3],
        sender_signature: vec![4],
        padding_len: 5,
        recipient_user_id: "bob".to_string(),
    }
}

#[test]
fn padding_roundtrip() {
    let original = b"ok".to_vec();
    let padded = pad_to_fixed_size(original.clone()).unwrap();
    assert_eq!(padded.len(), FIXED_PACKET_SIZE);
    let unpadded = unpad_from_fixed_size(&padded).unwrap();
    assert_eq!(unpadded, original);
}

#[test]
fn padding_has_limits() {
    let padded = pad_to_fixed_size(vec![7; 3]).unwrap();
    assert_eq!(&padded[..8], &[3, 0, 0, 0, 7, 7, 7, 0]);
    assert!(pad_to_fixed_size(vec![0; MAX_PADDED_PAYLOAD]).is_ok());
    assert_eq!(
        pad_to_fixed_size(vec![0; MAX_PADDED_PAYLOAD + 1]),
        Err(PaddingError::PayloadTooLarge { len: 4093, max: 4092 })
    );
    assert_eq!(unpad_from_fixed_size(&[1, 2]), Err(PaddingError::PacketTooSmall));
    assert_eq!(
        unpad_from_fixed_size(&[3, 0, 0, 0, 7, 8]),
        Err(PaddingError::LengthPastEnd { claimed: 3, available: 2 })
    );
    assert_eq!(unpad_from_fixed_size(&[2, 0, 0, 0, 7, 8]), Ok(vec![7, 8]));
}

#[test]
fn versions_and_types() {
    assert!(is_compatible(1));
    assert!(!is_compatible(0));
    assert!(!is_compatible(2));
    for code in 0..8 {
        assert_eq!(PacketType::from_code(code).code(), code);
    }
    assert_eq!(PacketType::from_code(8), PacketType::Unknown);
    assert_eq!(PacketType::from_code(-1), PacketType::Unknown);
    let ack = Packet::ack();
    assert_eq!(ack.kind, PacketType::Unknown.code());
    assert!(ack.encrypted_payload.is_empty());
}

#[test]
fn envelope_is_encoded_field_by_field() {
    let envelope = EncryptedEnvelope {
        sender_id: "ab".to_string(),
        nonce: [7; 12],
        ciphertext: vec![1, 2],
        counter: 3,
        sender_signature: vec![9],
        session_init: Some(SessionInit {
            ephemeral_key: [5; 32],
            one_time_prekey_public: None,
        }),
    };
    let data = wire::encode_envelope(&envelope);
    let tuple = (
        "ab",
        [7u8; 12],
        vec![1u8, 2],
        3u32,
        vec![9u8],
        Some(([5u8; 32], None::<[u8; 32]>)),
    );
    assert_eq!(data, bincode::serialize(&tuple).unwrap());
    let back = wire::decode_envelope(&data).unwrap();
    assert_eq!(back.sender_id, "ab");
    assert_eq!(back.nonce, [7; 12]);
    assert_eq!(back.counter, 3);
    let init = back.session_init.unwrap();
    assert_eq!(init.ephemeral_key, [5; 32]);
    assert_eq!(init.one_time_prekey_public, None);
    assert!(wire::decode_envelope(&data[..data.len() - 1]).is_none());
    let mut longer = data.clone();
    longer.push(0);
    assert!(wire::decode_envelope(&longer).is_some());
}

#[test]
fn packet_is_encoded_field_by_field() {
    let data = wire::encode_packet(&packet());
    let tuple = (1u32, -2i32, vec![1u8, 2, 3], vec![4u8], 5u32, "bob");
    assert_eq!(data, bincode::serialize(&tuple).unwrap());
    let back = wire::decode_packet(&data).unwrap();
    assert_eq!(back.kind, -2);
    assert_eq!(back.recipient_user_id, "bob");
    assert!(wire::decode_packet(&data[1..]).is_none());
}

#[test]
fn layers_and_contents_are_read_back() {
    let layer = Layer {
        ephemeral_public: [1; 32],
        nonce: [2; 12],
        ciphertext: vec![3, 4],
    };
    let data = wire::encode_layer(&layer);
    assert_eq!(
        data,
        bincode::serialize(&([1u8; 32], [2u8; 12], vec![3u8, 4])).unwrap()
    );
    let back = wire::decode_layer(&data).unwrap();
    assert_eq!(back.ciphertext, vec![3, 4]);
    assert!(wire::decode_layer(&data[..20]).is_none());

    let forward = LayerContent::Forward { next_hop: "r".to_string(), inner: vec![9] };
    let data = wire::encode_content(&forward);
    assert_eq!(data, bincode::serialize(&(0u32, "r", vec![9u8])).unwrap());
    assert!(matches!(
        wire::decode_content(&data),
        Some(LayerContent::Forward { .. })
    ));
    let exit = LayerContent::Exit {
        payload: vec![8],
        destination: DestinationHint::Mailbox("bob".to_string()),
    };
    let data = wire::encode_content(&exit);
    assert_eq!(data, bincode::serialize(&(1u32, vec![8u8], 1u32, "bob")).unwrap());
    match wire::decode_content(&data) {
        Some(LayerContent::Exit { payload, destination: DestinationHint::Mailbox(user) }) => {
            assert_eq!(payload, vec![8]);
            assert_eq!(user, "bob");
        }
        _ => panic!("expected a delivery to a mailbox"),
    }
    assert!(wire::decode_content(&[2, 0, 0, 0, 0]).is_none());
}

#[test]
fn batches_are_read_back() {
    let batch = vec![vec![1u8], vec![], vec![2, 3]];
    let data = wire::encode_batch(&batch);
    assert_eq!(data, bincode::serialize(&batch).unwrap());
    assert_eq!(wire::decode_batch(&data), Some(batch));
    assert_eq!(wire::decode_batch(&[1]), None);
}

#[test]
fn frames_carry_their_length() {
    let codec = MessengerCodec;
    let frame = codec.frame(&packet());
    let body = wire::encode_packet(&packet());
    assert_eq!(&frame[..4], &(body.len() as u32).to_be_bytes());
    assert_eq!(&frame[4..], &body[..]);
    let mut prefix = [0u8; 4];
    prefix.copy_from_slice(&frame[..4]);
    assert_eq!(codec.body_len(prefix) as usize, body.len());
    assert_eq!(codec.body_len([1, 2, 3, 4]), 0x0102_0304);
    assert_eq!(codec.body(&frame[4..]).unwrap().padding_len, 5);
    assert!(codec.body(&[]).is_none());
    assert_eq!(MessengerProtocol.name(), "/messenger/msg/1.0.0");
}
