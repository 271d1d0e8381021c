//! The binary encoding of envelopes, packets, onion layers and mailbox
//! batches: the fields one after another, integers little-endian at their
//! full width, arrays as they are, texts and byte strings behind a 64-bit
//! length, options behind a presence byte. Bytes after the last field are
//! ignored.
use vstd::prelude::*;

use crate::bytes;
use crate::crypto;
use crate::crypto::{EncryptedEnvelope, EnvelopeModel, InitModel, SessionInit};
use crate::protocol::{Packet, PacketModel};
use crate::types::{DestinationHint, DestinationModel};
use vstd::utf8;

verus! {

/// A byte string behind its length.
pub open spec fn blob(data: Seq<u8>) -> Seq<u8> {
    bytes::le_bytes(data.len(), 8) + data
}

/// A text as UTF-8 behind its length.
pub open spec fn text(chars: Seq<char>) -> Seq<u8> {
    blob(utf8::encode_utf8(chars))
}

/// A 32-bit number.
pub open spec fn number(value: nat) -> Seq<u8> {
    bytes::le_bytes(value, 4)
}

/// The bits of a signed 32-bit number as an unsigned one.
pub open spec fn signed_bits(value: i32) -> nat {
    if value >= 0 {
        value as nat
    } else {
        (value + 0x1_0000_0000) as nat
    }
}

/// The signed 32-bit number with the given bits.
pub open spec fn bits_signed(value: nat) -> i32 {
    if value < 0x8000_0000 {
        value as i32
    } else {
        (value - 0x1_0000_0000) as i32
    }
}

/// The first `n` bytes, and what follows them.
pub open spec fn get_fixed(data: Seq<u8>, n: nat) -> Option<(Seq<u8>, Seq<u8>)> {
    if data.len() < n {
        None
    } else {
        Some((data.take(n as int), data.skip(n as int)))
    }
}

/// A 32-bit number, and what follows it.
pub open spec fn get_number(data: Seq<u8>) -> Option<(nat, Seq<u8>)> {
    match get_fixed(data, 4) {
        Some((digits, rest)) => Some((bytes::le_value(digits), rest)),
        None => None,
    }
}

/// A byte string, and what follows it.
pub open spec fn get_blob(data: Seq<u8>) -> Option<(Seq<u8>, Seq<u8>)> {
    match get_fixed(data, 8) {
        Some((digits, rest)) => get_fixed(rest, bytes::le_value(digits)),
        None => None,
    }
}

/// A text, and what follows it.
pub open spec fn get_text(data: Seq<u8>) -> Option<(Seq<char>, Seq<u8>)> {
    match get_blob(data) {
        Some((content, rest)) => if utf8::valid_utf8(content) {
            Some((utf8::decode_utf8(content), rest))
        } else {
            None
        },
        None => None,
    }
}

/// Some bytes are read back from where they stand.
pub proof fn fixed_roundtrip(data: Seq<u8>, rest: Seq<u8>)
    ensures
        get_fixed(data + rest, data.len()) == Some((data, rest)),
{
    assert((data + rest).take(data.len() as int) =~= data);
    assert((data + rest).skip(data.len() as int) =~= rest);
}

/// A number is read back.
pub proof fn number_roundtrip(value: nat, rest: Seq<u8>)
    requires
        value < 0x1_0000_0000,
    ensures
        get_number(number(value) + rest) == Some((value, rest)),
{
    bytes::pow256_values();
    bytes::le_roundtrip(value, 4);
    fixed_roundtrip(number(value), rest);
}

/// A byte string is read back.
pub proof fn blob_roundtrip(data: Seq<u8>, rest: Seq<u8>)
    requires
        data.len() < 0x1_0000_0000_0000_0000,
    ensures
        get_blob(blob(data) + rest) == Some((data, rest)),
{
    bytes::pow256_values();
    bytes::le_roundtrip(data.len(), 8);
    let digits = bytes::le_bytes(data.len(), 8);
    assert(blob(data) + rest =~= digits + (data + rest));
    fixed_roundtrip(digits, data + rest);
    fixed_roundtrip(data, rest);
}

/// A text is read back.
pub proof fn text_roundtrip(chars: Seq<char>, rest: Seq<u8>)
    requires
        utf8::encode_utf8(chars).len() < 0x1_0000_0000_0000_0000,
    ensures
        get_text(text(chars) + rest) == Some((chars, rest)),
{
    blob_roundtrip(utf8::encode_utf8(chars), rest);
    utf8::encode_utf8_valid_utf8(chars);
    utf8::encode_utf8_decode_utf8(chars);
}

// --- envelopes ---

/// The encoding of an envelope.
pub open spec fn envelope_bytes(e: EnvelopeModel) -> Seq<u8> {
    text(e.sender_id) + e.nonce + blob(e.ciphertext) + number(e.counter as nat) + blob(
        e.sender_signature,
    ) + crypto::session_init_bytes(e.session_init)
}

/// An optional key, and what follows it.
pub open spec fn get_optional_key(data: Seq<u8>) -> Option<(Option<Seq<u8>>, Seq<u8>)> {
    match get_fixed(data, 1) {
        Some((flag, rest)) => if flag[0] == 0 {
            Some((None, rest))
        } else if flag[0] == 1 {
            match get_fixed(rest, 32) {
                Some((key, rest)) => Some((Some(key), rest)),
                None => None,
            }
        } else {
            None
        },
        None => None,
    }
}

/// Optional session parameters, and what follows them.
pub open spec fn get_session_init(data: Seq<u8>) -> Option<(Option<InitModel>, Seq<u8>)> {
    match get_fixed(data, 1) {
        Some((flag, rest)) => if flag[0] == 0 {
            Some((None, rest))
        } else if flag[0] == 1 {
            match get_fixed(rest, 32) {
                Some((ephemeral_key, rest)) => match get_optional_key(rest) {
                    Some((one_time_prekey_public, rest)) => Some(
                        (Some(InitModel { ephemeral_key, one_time_prekey_public }), rest),
                    ),
                    None => None,
                },
                None => None,
            }
        } else {
            None
        },
        None => None,
    }
}

/// The envelope that some bytes encode.
pub open spec fn parse_envelope(data: Seq<u8>) -> Option<EnvelopeModel> {
    match get_text(data) {
        Some((sender_id, data)) => match get_fixed(data, 12) {
            Some((nonce, data)) => match get_blob(data) {
                Some((ciphertext, data)) => match get_number(data) {
                    Some((counter, data)) => match get_blob(data) {
                        Some((sender_signature, data)) => match get_session_init(data) {
                            Some((session_init, _)) => Some(
                                EnvelopeModel {
                                    sender_id,
                                    nonce,
                                    ciphertext,
                                    counter: counter as u32,
                                    sender_signature,
                                    session_init,
                                },
                            ),
                            None => None,
                        },
                        None => None,
                    },
                    None => None,
                },
                None => None,
            },
            None => None,
        },
        None => None,
    }
}

/// Whether an envelope has the field widths of the encoding.
pub open spec fn envelope_fits(e: EnvelopeModel) -> bool {
    &&& utf8::encode_utf8(e.sender_id).len() < 0x1_0000_0000_0000_0000
    &&& e.nonce.len() == 12
    &&& e.ciphertext.len() < 0x1_0000_0000_0000_0000
    &&& e.sender_signature.len() < 0x1_0000_0000_0000_0000
    &&& e.session_init matches Some(i) ==> {
        &&& i.ephemeral_key.len() == 32
        &&& i.one_time_prekey_public matches Some(k) ==> k.len() == 32
    }
}

/// Optional session parameters are read back.
proof fn session_init_roundtrip(init: Option<InitModel>, rest: Seq<u8>)
    requires
        init matches Some(i) ==> {
            &&& i.ephemeral_key.len() == 32
            &&& i.one_time_prekey_public matches Some(k) ==> k.len() == 32
        },
    ensures
        get_session_init(crypto::session_init_bytes(init) + rest) == Some((init, rest)),
{
    match init {
        None => {
            fixed_roundtrip(seq![0u8], rest);
        },
        Some(i) => {
            let key = crypto::optional_key_bytes(i.one_time_prekey_public);
            assert(crypto::session_init_bytes(init) + rest =~= seq![1u8] + (i.ephemeral_key + (key
                + rest)));
            fixed_roundtrip(seq![1u8], i.ephemeral_key + (key + rest));
            fixed_roundtrip(i.ephemeral_key, key + rest);
            match i.one_time_prekey_public {
                None => {
                    fixed_roundtrip(seq![0u8], rest);
                },
                Some(k) => {
                    assert(key + rest =~= seq![1u8] + (k + rest));
                    fixed_roundtrip(seq![1u8], k + rest);
                    fixed_roundtrip(k, rest);
                },
            }
        },
    }
}

/// An encoded envelope is decoded to itself, whatever follows it.
pub proof fn envelope_roundtrip(e: EnvelopeModel, rest: Seq<u8>)
    requires
        envelope_fits(e),
    ensures
        parse_envelope(envelope_bytes(e) + rest) == Some(e),
{
    let t5 = crypto::session_init_bytes(e.session_init) + rest;
    let t4 = blob(e.sender_signature) + t5;
    let t3 = number(e.counter as nat) + t4;
    let t2 = blob(e.ciphertext) + t3;
    let t1 = e.nonce + t2;
    assert(envelope_bytes(e) + rest =~= text(e.sender_id) + t1);
    text_roundtrip(e.sender_id, t1);
    fixed_roundtrip(e.nonce, t2);
    blob_roundtrip(e.ciphertext, t3);
    number_roundtrip(e.counter as nat, t4);
    blob_roundtrip(e.sender_signature, t5);
    session_init_roundtrip(e.session_init, rest);
}

/// `bincode::serialize` of an envelope's fields as a tuple.
#[verifier::external_body]
fn bincode_envelope(e: &EncryptedEnvelope) -> (data: Vec<u8>)
    ensures
        data@ == envelope_bytes(e@),
{
    let init = e.session_init.map(|i| (i.ephemeral_key, i.one_time_prekey_public));
    let fields = (&e.sender_id, &e.nonce, &e.ciphertext, e.counter, &e.sender_signature, init);
    bincode::serialize(&fields).expect("a tuple of plain values is serializable")
}

/// `bincode::deserialize` of an envelope's fields as a tuple: the envelope,
/// or `None` where it reports an error.
#[verifier::external_body]
fn bincode_envelope_decode(data: &[u8]) -> (envelope: Option<EncryptedEnvelope>)
    ensures
        envelope is Some <==> parse_envelope(data@) is Some,
        envelope matches Some(e) ==> parse_envelope(data@) == Some(e@),
{
    let fields: (String, [u8; 12], Vec<u8>, u32, Vec<u8>, Option<([u8; 32], Option<[u8; 32]>)>) =
        bincode::deserialize(data).ok()?;
    let (sender_id, nonce, ciphertext, counter, sender_signature, init) = fields;
    let session_init = init.map(
        |i| SessionInit { ephemeral_key: i.0, one_time_prekey_public: i.1 },
    );
    Some(
        EncryptedEnvelope { sender_id, nonce, ciphertext, counter, sender_signature, session_init },
    )
}

/// Encodes an envelope. What it returns decodes to the envelope again.
pub fn encode_envelope(e: &EncryptedEnvelope) -> (data: Vec<u8>)
    ensures
        data@ == envelope_bytes(e@),
        parse_envelope(data@) == Some(e@),
{
    let data = bincode_envelope(e);
    proof {
        assert(data@.len() == data.len());
        envelope_roundtrip(e@, Seq::empty());
        assert(data@ + Seq::<u8>::empty() =~= data@);
    }
    data
}

/// Decodes an envelope.
pub fn decode_envelope(data: &[u8]) -> (envelope: Option<EncryptedEnvelope>)
    ensures
        envelope is Some <==> parse_envelope(data@) is Some,
        envelope matches Some(e) ==> parse_envelope(data@) == Some(e@),
{
    bincode_envelope_decode(data)
}

// --- packets ---

/// The encoding of a packet.
pub open spec fn packet_bytes(p: PacketModel) -> Seq<u8> {
    number(p.protocol_version as nat) + number(signed_bits(p.kind)) + blob(p.encrypted_payload)
        + blob(p.sender_signature) + number(p.padding_len as nat) + text(p.recipient_user_id)
}

/// The packet that some bytes encode.
pub open spec fn parse_packet(data: Seq<u8>) -> Option<PacketModel> {
    match get_number(data) {
        Some((protocol_version, data)) => match get_number(data) {
            Some((kind, data)) => match get_blob(data) {
                Some((encrypted_payload, data)) => match get_blob(data) {
                    Some((sender_signature, data)) => match get_number(data) {
                        Some((padding_len, data)) => match get_text(data) {
                            Some((recipient_user_id, _)) => Some(
                                PacketModel {
                                    protocol_version: protocol_version as u32,
                                    kind: bits_signed(kind),
                                    encrypted_payload,
                                    sender_signature,
                                    padding_len: padding_len as u32,
                                    recipient_user_id,
                                },
                            ),
                            None => None,
                        },
                        None => None,
                    },
                    None => None,
                },
                None => None,
            },
            None => None,
        },
        None => None,
    }
}

/// Whether a packet has the field widths of the encoding.
pub open spec fn packet_fits(p: PacketModel) -> bool {
    &&& p.encrypted_payload.len() < 0x1_0000_0000_0000_0000
    &&& p.sender_signature.len() < 0x1_0000_0000_0000_0000
    &&& utf8::encode_utf8(p.recipient_user_id).len() < 0x1_0000_0000_0000_0000
}

/// An encoded packet is decoded to itself, whatever follows it.
pub proof fn packet_roundtrip(p: PacketModel, rest: Seq<u8>)
    requires
        packet_fits(p),
    ensures
        parse_packet(packet_bytes(p) + rest) == Some(p),
{
    let t5 = text(p.recipient_user_id) + rest;
    let t4 = number(p.padding_len as nat) + t5;
    let t3 = blob(p.sender_signature) + t4;
    let t2 = blob(p.encrypted_payload) + t3;
    let t1 = number(signed_bits(p.kind)) + t2;
    assert(packet_bytes(p) + rest =~= number(p.protocol_version as nat) + t1);
    number_roundtrip(p.protocol_version as nat, t1);
    number_roundtrip(signed_bits(p.kind), t2);
    blob_roundtrip(p.encrypted_payload, t3);
    blob_roundtrip(p.sender_signature, t4);
    number_roundtrip(p.padding_len as nat, t5);
    text_roundtrip(p.recipient_user_id, rest);
}

/// `bincode::serialize` of a packet's fields as a tuple.
#[verifier::external_body]
fn bincode_packet(p: &Packet) -> (data: Vec<u8>)
    ensures
        data@ == packet_bytes(p@),
{
    let head = (p.protocol_version, p.kind, &p.encrypted_payload);
    let tail = (&p.sender_signature, p.padding_len, &p.recipient_user_id);
    bincode::serialize(&(head, tail)).expect("a tuple of plain values is serializable")
}

/// `bincode::deserialize` of a packet's fields as a tuple: the packet, or
/// `None` where it reports an error.
#[verifier::external_body]
fn bincode_packet_decode(data: &[u8]) -> (packet: Option<Packet>)
    ensures
        packet is Some <==> parse_packet(data@) is Some,
        packet matches Some(p) ==> parse_packet(data@) == Some(p@),
{
    let fields: (u32, i32, Vec<u8>, Vec<u8>, u32, String) = bincode::deserialize(data).ok()?;
    let (protocol_version, kind, encrypted_payload, sender_signature, padding_len, recipient) =
        fields;
    Some(
        Packet {
            protocol_version,
            kind,
            encrypted_payload,
            sender_signature,
            padding_len,
            recipient_user_id: recipient,
        },
    )
}

/// Encodes a packet. What it returns decodes to the packet again.
pub fn encode_packet(p: &Packet) -> (data: Vec<u8>)
    ensures
        data@ == packet_bytes(p@),
        parse_packet(data@) == Some(p@),
{
    let data = bincode_packet(p);
    proof {
        assert(data@.len() == data.len());
        packet_roundtrip(p@, Seq::empty());
        assert(data@ + Seq::<u8>::empty() =~= data@);
    }
    data
}

/// Decodes a packet.
pub fn decode_packet(data: &[u8]) -> (packet: Option<Packet>)
    ensures
        packet is Some <==> parse_packet(data@) is Some,
        packet matches Some(p) ==> parse_packet(data@) == Some(p@),
{
    bincode_packet_decode(data)
}

// --- onion layers ---

/// An onion layer as it is compared and written.
#[verifier::ext_equal]
pub struct LayerModel {
    pub ephemeral_public: Seq<u8>,
    pub nonce: Seq<u8>,
    pub ciphertext: Seq<u8>,
}

/// An encrypted onion layer: the key and nonce to open it, and its content.
pub struct Layer {
    pub ephemeral_public: [u8; 32],
    pub nonce: [u8; 12],
    pub ciphertext: Vec<u8>,
}

impl View for Layer {
    type V = LayerModel;

    open spec fn view(&self) -> LayerModel {
        LayerModel {
            ephemeral_public: self.ephemeral_public@,
            nonce: self.nonce@,
            ciphertext: self.ciphertext@,
        }
    }
}

/// The encoding of a layer.
pub open spec fn layer_bytes(l: LayerModel) -> Seq<u8> {
    l.ephemeral_public + l.nonce + blob(l.ciphertext)
}

/// The layer that some bytes encode.
pub open spec fn parse_layer(data: Seq<u8>) -> Option<LayerModel> {
    match get_fixed(data, 32) {
        Some((ephemeral_public, data)) => match get_fixed(data, 12) {
            Some((nonce, data)) => match get_blob(data) {
                Some((ciphertext, _)) => Some(LayerModel { ephemeral_public, nonce, ciphertext }),
                None => None,
            },
            None => None,
        },
        None => None,
    }
}

/// An encoded layer is decoded to itself, whatever follows it.
pub proof fn layer_roundtrip(l: LayerModel, rest: Seq<u8>)
    requires
        l.ephemeral_public.len() == 32,
        l.nonce.len() == 12,
        l.ciphertext.len() < 0x1_0000_0000_0000_0000,
    ensures
        parse_layer(layer_bytes(l) + rest) == Some(l),
{
    let t2 = blob(l.ciphertext) + rest;
    let t1 = l.nonce + t2;
    assert(layer_bytes(l) + rest =~= l.ephemeral_public + t1);
    fixed_roundtrip(l.ephemeral_public, t1);
    fixed_roundtrip(l.nonce, t2);
    blob_roundtrip(l.ciphertext, rest);
}

/// `bincode::serialize` of a layer's fields as a tuple.
#[verifier::external_body]
fn bincode_layer(l: &Layer) -> (data: Vec<u8>)
    ensures
        data@ == layer_bytes(l@),
{
    bincode::serialize(&(&l.ephemeral_public, &l.nonce, &l.ciphertext))
        .expect("a tuple of plain values is serializable")
}

/// `bincode::deserialize` of a layer's fields as a tuple: the layer, or
/// `None` where it reports an error.
#[verifier::external_body]
fn bincode_layer_decode(data: &[u8]) -> (layer: Option<Layer>)
    ensures
        layer is Some <==> parse_layer(data@) is Some,
        layer matches Some(l) ==> parse_layer(data@) == Some(l@),
{
    let fields: ([u8; 32], [u8; 12], Vec<u8>) = bincode::deserialize(data).ok()?;
    Some(Layer { ephemeral_public: fields.0, nonce: fields.1, ciphertext: fields.2 })
}

/// Encodes a layer. What it returns decodes to the layer again.
pub fn encode_layer(l: &Layer) -> (data: Vec<u8>)
    ensures
        data@ == layer_bytes(l@),
        parse_layer(data@) == Some(l@),
{
    let data = bincode_layer(l);
    proof {
        assert(data@.len() == data.len());
        layer_roundtrip(l@, Seq::empty());
        assert(data@ + Seq::<u8>::empty() =~= data@);
    }
    data
}

/// Decodes a layer.
pub fn decode_layer(data: &[u8]) -> (layer: Option<Layer>)
    ensures
        layer is Some <==> parse_layer(data@) is Some,
        layer matches Some(l) ==> parse_layer(data@) == Some(l@),
{
    bincode_layer_decode(data)
}

/// What an onion layer tells the relay that opens it.
#[verifier::ext_equal]
pub enum ContentModel {
    /// Pass the rest on to another relay.
    Forward { next_hop: Seq<char>, inner: Seq<u8> },
    /// Deliver the payload.
    Exit { payload: Seq<u8>, destination: DestinationModel },
}

/// What an onion layer tells the relay that opens it.
pub enum LayerContent {
    /// Pass the rest on to another relay.
    Forward { next_hop: String, inner: Vec<u8> },
    /// Deliver the payload.
    Exit { payload: Vec<u8>, destination: DestinationHint },
}

impl View for LayerContent {
    type V = ContentModel;

    open spec fn view(&self) -> ContentModel {
        match self {
            LayerContent::Forward { next_hop, inner } => ContentModel::Forward {
                next_hop: next_hop@,
                inner: inner@,
            },
            LayerContent::Exit { payload, destination } => ContentModel::Exit {
                payload: payload@,
                destination: destination@,
            },
        }
    }
}

/// A number, a text and a byte string in a row.
pub open spec fn number_text_blob(first: nat, chars: Seq<char>, data: Seq<u8>) -> Seq<u8> {
    number(first) + text(chars) + blob(data)
}

/// A number, a byte string, a number and a text in a row.
pub open spec fn number_blob_number_text(
    first: nat,
    data: Seq<u8>,
    second: nat,
    chars: Seq<char>,
) -> Seq<u8> {
    number(first) + blob(data) + number(second) + text(chars)
}

/// A number, a text and a byte string in a row.
pub open spec fn parse_number_text_blob(data: Seq<u8>) -> Option<(nat, Seq<char>, Seq<u8>)> {
    match get_number(data) {
        Some((first, data)) => match get_text(data) {
            Some((chars, data)) => match get_blob(data) {
                Some((content, _)) => Some((first, chars, content)),
                None => None,
            },
            None => None,
        },
        None => None,
    }
}

/// A number, a byte string, a number and a text in a row.
pub open spec fn parse_number_blob_number_text(data: Seq<u8>) -> Option<
    (nat, Seq<u8>, nat, Seq<char>),
> {
    match get_number(data) {
        Some((first, data)) => match get_blob(data) {
            Some((content, data)) => match get_number(data) {
                Some((second, data)) => match get_text(data) {
                    Some((chars, _)) => Some((first, content, second, chars)),
                    None => None,
                },
                None => None,
            },
            None => None,
        },
        None => None,
    }
}

/// The number of a kind of destination.
pub open spec fn destination_tag(d: DestinationModel) -> nat {
    match d {
        DestinationModel::DirectPeer(_) => 0,
        DestinationModel::Mailbox(_) => 1,
    }
}

/// The name in a destination.
pub open spec fn destination_name(d: DestinationModel) -> Seq<char> {
    match d {
        DestinationModel::DirectPeer(name) => name,
        DestinationModel::Mailbox(name) => name,
    }
}

/// The encoding of a layer's content: the number of its kind, then its
/// fields.
pub open spec fn content_bytes(c: ContentModel) -> Seq<u8> {
    match c {
        ContentModel::Forward { next_hop, inner } => number_text_blob(0, next_hop, inner),
        ContentModel::Exit { payload, destination } => number_blob_number_text(
            1,
            payload,
            destination_tag(destination),
            destination_name(destination),
        ),
    }
}

/// The content that some bytes encode.
pub open spec fn parse_content(data: Seq<u8>) -> Option<ContentModel> {
    match get_number(data) {
        Some((tag, _)) => if tag == 0 {
            match parse_number_text_blob(data) {
                Some((_, next_hop, inner)) => Some(ContentModel::Forward { next_hop, inner }),
                None => None,
            }
        } else if tag == 1 {
            match parse_number_blob_number_text(data) {
                Some((_, payload, kind, name)) => if kind == 0 {
                    Some(
                        ContentModel::Exit {
                            payload,
                            destination: DestinationModel::DirectPeer(name),
                        },
                    )
                } else if kind == 1 {
                    Some(
                        ContentModel::Exit {
                            payload,
                            destination: DestinationModel::Mailbox(name),
                        },
                    )
                } else {
                    None
                },
                None => None,
            }
        } else {
            None
        },
        None => None,
    }
}

/// Whether a content has the field widths of the encoding.
pub open spec fn content_fits(c: ContentModel) -> bool {
    match c {
        ContentModel::Forward { next_hop, inner } => utf8::encode_utf8(next_hop).len()
            < 0x1_0000_0000_0000_0000 && inner.len() < 0x1_0000_0000_0000_0000,
        ContentModel::Exit { payload, destination } => utf8::encode_utf8(
            destination_name(destination),
        ).len() < 0x1_0000_0000_0000_0000 && payload.len() < 0x1_0000_0000_0000_0000,
    }
}

/// An encoded content is decoded to itself, whatever follows it.
pub proof fn content_roundtrip(c: ContentModel, rest: Seq<u8>)
    requires
        content_fits(c),
    ensures
        parse_content(content_bytes(c) + rest) == Some(c),
{
    match c {
        ContentModel::Forward { next_hop, inner } => {
            let t2 = blob(inner) + rest;
            let t1 = text(next_hop) + t2;
            assert(content_bytes(c) + rest =~= number(0) + t1);
            number_roundtrip(0, t1);
            text_roundtrip(next_hop, t2);
            blob_roundtrip(inner, rest);
        },
        ContentModel::Exit { payload, destination } => {
            let t3 = text(destination_name(destination)) + rest;
            let t2 = number(destination_tag(destination)) + t3;
            let t1 = blob(payload) + t2;
            assert(content_bytes(c) + rest =~= number(1) + t1);
            number_roundtrip(1, t1);
            blob_roundtrip(payload, t2);
            number_roundtrip(destination_tag(destination), t3);
            text_roundtrip(destination_name(destination), rest);
        },
    }
}

/// `bincode::serialize` of a number, a text and a byte string as a tuple.
#[verifier::external_body]
fn bincode_number_text_blob(first: u32, chars: &str, content: &[u8]) -> (data: Vec<u8>)
    ensures
        data@ == number_text_blob(first as nat, chars@, content@),
{
    bincode::serialize(&(first, chars, content)).expect("a tuple of plain values is serializable")
}

/// `bincode::serialize` of a number, a byte string, a number and a text as a
/// tuple.
#[verifier::external_body]
fn bincode_number_blob_number_text(first: u32, content: &[u8], second: u32, chars: &str) -> (data:
    Vec<u8>)
    ensures
        data@ == number_blob_number_text(first as nat, content@, second as nat, chars@),
{
    bincode::serialize(&(first, content, second, chars))
        .expect("a tuple of plain values is serializable")
}

/// `bincode::deserialize` of a single `u32`.
#[verifier::external_body]
fn bincode_number_decode(data: &[u8]) -> (value: Option<u32>)
    ensures
        match get_number(data@) {
            Some((v, _)) => value == Some(v as u32),
            None => value is None,
        },
{
    bincode::deserialize(data).ok()
}

/// `bincode::deserialize` of a number, a text and a byte string as a tuple.
#[verifier::external_body]
fn bincode_number_text_blob_decode(data: &[u8]) -> (fields: Option<(u32, String, Vec<u8>)>)
    ensures
        match parse_number_text_blob(data@) {
            Some((first, chars, content)) => fields matches Some(f) && f.0 == first && f.1@ == chars
                && f.2@ == content,
            None => fields is None,
        },
{
    bincode::deserialize(data).ok()
}

/// `bincode::deserialize` of a number, a byte string, a number and a text as
/// a tuple.
#[verifier::external_body]
fn bincode_number_blob_number_text_decode(data: &[u8]) -> (fields: Option<
    (u32, Vec<u8>, u32, String),
>)
    ensures
        match parse_number_blob_number_text(data@) {
            Some((first, content, second, chars)) => fields matches Some(f) && f.0 == first
                && f.1@ == content && f.2 == second && f.3@ == chars,
            None => fields is None,
        },
{
    bincode::deserialize(data).ok()
}

/// Encodes a layer's content. What it returns decodes to the content again,
/// whatever is appended to it.
pub fn encode_content(c: &LayerContent) -> (data: Vec<u8>)
    ensures
        data@ == content_bytes(c@),
        content_fits(c@),
{
    match c {
        LayerContent::Forward { next_hop, inner } => {
            let data = bincode_number_text_blob(0, next_hop.as_str(), inner.as_slice());
            assert(data@.len() == data.len());
            data
        },
        LayerContent::Exit { payload, destination } => {
            let (tag, name): (u32, &String) = match destination {
                DestinationHint::DirectPeer(name) => (0, name),
                DestinationHint::Mailbox(name) => (1, name),
            };
            let data = bincode_number_blob_number_text(1, payload.as_slice(), tag, name.as_str());
            assert(data@.len() == data.len());
            data
        },
    }
}

/// Decodes a layer's content.
pub fn decode_content(data: &[u8]) -> (content: Option<LayerContent>)
    ensures
        content is Some <==> parse_content(data@) is Some,
        content matches Some(c) ==> parse_content(data@) == Some(c@),
{
    proof {
        if data@.len() >= 4 {
            bytes::pow256_values();
            bytes::le_value_bound(data@.take(4));
        }
    }
    match bincode_number_decode(data) {
        Some(0) => match bincode_number_text_blob_decode(data) {
            Some((_, next_hop, inner)) => Some(LayerContent::Forward { next_hop, inner }),
            None => None,
        },
        Some(1) => match bincode_number_blob_number_text_decode(data) {
            Some((_, payload, 0, name)) => Some(
                LayerContent::Exit { payload, destination: DestinationHint::DirectPeer(name) },
            ),
            Some((_, payload, 1, name)) => Some(
                LayerContent::Exit { payload, destination: DestinationHint::Mailbox(name) },
            ),
            _ => None,
        },
        _ => None,
    }
}

// --- mailbox batches ---

/// The values of some byte strings.
pub open spec fn blob_models(items: Seq<Vec<u8>>) -> Seq<Seq<u8>> {
    items.map_values(|v: Vec<u8>| v@)
}

/// Byte strings one after another.
pub open spec fn blobs(items: Seq<Seq<u8>>) -> Seq<u8>
    decreases items.len(),
{
    if items.len() == 0 {
        Seq::empty()
    } else {
        blob(items[0]) + blobs(items.skip(1))
    }
}

/// The encoding of a batch: the number of byte strings, then each.
pub open spec fn batch_bytes(items: Seq<Seq<u8>>) -> Seq<u8> {
    bytes::le_bytes(items.len(), 8) + blobs(items)
}

/// `count` byte strings one after another.
pub open spec fn get_blobs(data: Seq<u8>, count: nat) -> Option<Seq<Seq<u8>>>
    decreases count,
{
    if count == 0 {
        Some(Seq::empty())
    } else {
        match get_blob(data) {
            Some((first, rest)) => match get_blobs(rest, (count - 1) as nat) {
                Some(others) => Some(seq![first] + others),
                None => None,
            },
            None => None,
        }
    }
}

/// The batch that some bytes encode.
pub open spec fn parse_batch(data: Seq<u8>) -> Option<Seq<Seq<u8>>> {
    match get_fixed(data, 8) {
        Some((digits, rest)) => get_blobs(rest, bytes::le_value(digits)),
        None => None,
    }
}

/// Byte strings in a row are read back.
proof fn blobs_roundtrip(items: Seq<Seq<u8>>, rest: Seq<u8>)
    requires
        forall|i: int| 0 <= i < items.len() ==> (#[trigger] items[i]).len()
            < 0x1_0000_0000_0000_0000,
    ensures
        get_blobs(blobs(items) + rest, items.len()) == Some(items),
    decreases items.len(),
{
    if items.len() > 0 {
        let others = items.skip(1);
        assert(blobs(items) + rest =~= blob(items[0]) + (blobs(others) + rest));
        blob_roundtrip(items[0], blobs(others) + rest);
        blobs_roundtrip(others, rest);
        assert(seq![items[0]] + others =~= items);
    } else {
        assert(items =~= Seq::<Seq<u8>>::empty());
    }
}

/// An encoded batch is decoded to itself, whatever follows it.
pub proof fn batch_roundtrip(items: Seq<Seq<u8>>, rest: Seq<u8>)
    requires
        items.len() < 0x1_0000_0000_0000_0000,
        forall|i: int| 0 <= i < items.len() ==> (#[trigger] items[i]).len()
            < 0x1_0000_0000_0000_0000,
    ensures
        parse_batch(batch_bytes(items) + rest) == Some(items),
{
    bytes::pow256_values();
    bytes::le_roundtrip(items.len(), 8);
    assert(batch_bytes(items) + rest =~= bytes::le_bytes(items.len(), 8) + (blobs(items) + rest));
    fixed_roundtrip(bytes::le_bytes(items.len(), 8), blobs(items) + rest);
    blobs_roundtrip(items, rest);
}

/// `bincode::serialize` of a vector of byte vectors.
#[verifier::external_body]
fn bincode_batch(items: &Vec<Vec<u8>>) -> (data: Vec<u8>)
    ensures
        data@ == batch_bytes(blob_models(items@)),
{
    bincode::serialize(items).expect("a vector of plain values is serializable")
}

/// `bincode::deserialize` of a vector of byte vectors: the vectors, or
/// `None` where it reports an error.
#[verifier::external_body]
fn bincode_batch_decode(data: &[u8]) -> (items: Option<Vec<Vec<u8>>>)
    ensures
        items is Some <==> parse_batch(data@) is Some,
        items matches Some(v) ==> parse_batch(data@) == Some(blob_models(v@)),
{
    bincode::deserialize(data).ok()
}

/// Encodes a batch. What it returns decodes to the batch again.
pub fn encode_batch(items: &Vec<Vec<u8>>) -> (data: Vec<u8>)
    ensures
        data@ == batch_bytes(blob_models(items@)),
        parse_batch(data@) == Some(blob_models(items@)),
{
    let data = bincode_batch(items);
    proof {
        assert(items@.len() == items.len());
        assert forall|i: int| 0 <= i < items@.len() implies (#[trigger] blob_models(
            items@,
        )[i]).len() < 0x1_0000_0000_0000_0000 by {
            assert(items@[i]@.len() == items@[i].len());
        }
        batch_roundtrip(blob_models(items@), Seq::empty());
        assert(data@ + Seq::<u8>::empty() =~= data@);
    }
    data
}

/// Decodes a batch.
pub fn decode_batch(data: &[u8]) -> (items: Option<Vec<Vec<u8>>>)
    ensures
        items is Some <==> parse_batch(data@) is Some,
        items matches Some(v) ==> parse_batch(data@) == Some(blob_models(v@)),
{
    bincode_batch_decode(data)
}

} // verus!
