//! The messages that nodes exchange, protocol versions and fixed-size
//! padding.
use vstd::prelude::*;

use crate::bytes;

verus! {

/// The version that this node speaks.
pub const CURRENT_PROTOCOL_VERSION: u32 = 1;

/// The oldest version that this node still understands.
pub const MIN_SUPPORTED_VERSION: u32 = 1;

/// Whether this node can talk to a peer of the given version.
pub fn is_compatible(peer_version: u32) -> (compatible: bool)
    ensures
        compatible == (MIN_SUPPORTED_VERSION <= peer_version <= CURRENT_PROTOCOL_VERSION),
        compatible <==> peer_version == 1,
{
    peer_version >= MIN_SUPPORTED_VERSION && peer_version <= CURRENT_PROTOCOL_VERSION
}

/// What a packet is for.
#[derive(Debug, Clone, Copy, PartialEq, Eq, Structural)]
pub enum PacketType {
    Unknown,
    DirectMessage,
    RelayForward,
    MailboxStore,
    MailboxFetch,
    DhtAnnounce,
    DhtLookup,
    DummyTraffic,
}

impl PacketType {
    /// The number that stands for this type in a packet.
    pub open spec fn number(self) -> i32 {
        match self {
            PacketType::Unknown => 0,
            PacketType::DirectMessage => 1,
            PacketType::RelayForward => 2,
            PacketType::MailboxStore => 3,
            PacketType::MailboxFetch => 4,
            PacketType::DhtAnnounce => 5,
            PacketType::DhtLookup => 6,
            PacketType::DummyTraffic => 7,
        }
    }

    /// The number that stands for this type in a packet.
    pub fn code(self) -> (code: i32)
        ensures
            code == self.number(),
            self == PacketType::Unknown ==> code == 0,
            self == PacketType::DirectMessage ==> code == 1,
            self == PacketType::RelayForward ==> code == 2,
            self == PacketType::MailboxStore ==> code == 3,
            self == PacketType::MailboxFetch ==> code == 4,
            self == PacketType::DhtAnnounce ==> code == 5,
            self == PacketType::DhtLookup ==> code == 6,
            self == PacketType::DummyTraffic ==> code == 7,
    {
        match self {
            PacketType::Unknown => 0,
            PacketType::DirectMessage => 1,
            PacketType::RelayForward => 2,
            PacketType::MailboxStore => 3,
            PacketType::MailboxFetch => 4,
            PacketType::DhtAnnounce => 5,
            PacketType::DhtLookup => 6,
            PacketType::DummyTraffic => 7,
        }
    }

    /// The type that a number stands for; `Unknown` for any other number.
    pub fn from_code(code: i32) -> (kind: PacketType)
        ensures
            0 <= code <= 7 ==> kind.number() == code,
            !(0 <= code <= 7) ==> kind == PacketType::Unknown,
    {
        match code {
            1 => PacketType::DirectMessage,
            2 => PacketType::RelayForward,
            3 => PacketType::MailboxStore,
            4 => PacketType::MailboxFetch,
            5 => PacketType::DhtAnnounce,
            6 => PacketType::DhtLookup,
            7 => PacketType::DummyTraffic,
            _ => PacketType::Unknown,
        }
    }
}

/// Every type is read back from its number.
pub proof fn packet_types_are_distinct(a: PacketType, b: PacketType)
    requires
        a.number() == b.number(),
    ensures
        a == b,
{
}

/// One message between two nodes.
#[derive(Debug)]
pub struct Packet {
    pub protocol_version: u32,
    /// A packet type by its number.
    pub kind: i32,
    pub encrypted_payload: Vec<u8>,
    pub sender_signature: Vec<u8>,
    pub padding_len: u32,
    pub recipient_user_id: String,
}

/// A packet as it is compared and written.
#[verifier::ext_equal]
pub struct PacketModel {
    pub protocol_version: u32,
    pub kind: i32,
    pub encrypted_payload: Seq<u8>,
    pub sender_signature: Seq<u8>,
    pub padding_len: u32,
    pub recipient_user_id: Seq<char>,
}

impl View for Packet {
    type V = PacketModel;

    open spec fn view(&self) -> PacketModel {
        PacketModel {
            protocol_version: self.protocol_version,
            kind: self.kind,
            encrypted_payload: self.encrypted_payload@,
            sender_signature: self.sender_signature@,
            padding_len: self.padding_len,
            recipient_user_id: self.recipient_user_id@,
        }
    }
}

/// A packet of the current version that carries only a payload.
pub open spec fn plain_packet(kind: PacketType, payload: Seq<u8>) -> PacketModel {
    PacketModel {
        protocol_version: CURRENT_PROTOCOL_VERSION,
        kind: kind.number(),
        encrypted_payload: payload,
        sender_signature: Seq::empty(),
        padding_len: 0,
        recipient_user_id: Seq::empty(),
    }
}

impl Packet {
    /// A packet of the current version that carries only a payload.
    pub fn plain(kind: PacketType, payload: Vec<u8>) -> (packet: Self)
        ensures
            packet@ == plain_packet(kind, payload@),
            packet@.protocol_version == 1,
            packet@.encrypted_payload == payload@,
            packet@.sender_signature.len() == 0,
            packet@.padding_len == 0,
            packet@.recipient_user_id.len() == 0,
    {
        Packet {
            protocol_version: CURRENT_PROTOCOL_VERSION,
            kind: kind.code(),
            encrypted_payload: payload,
            sender_signature: Vec::new(),
            padding_len: 0,
            recipient_user_id: String::new(),
        }
    }

    /// The empty answer that only says that a packet arrived.
    pub fn ack() -> (packet: Self)
        ensures
            packet@ == plain_packet(PacketType::Unknown, Seq::empty()),
    {
        Packet::plain(PacketType::Unknown, Vec::new())
    }
}

/// A user's entry in the distributed table: public key and mailbox relays.
#[derive(Debug)]
pub struct DhtRecord {
    pub user_id: String,
    pub public_key: Vec<u8>,
    pub mailbox_candidates: Vec<String>,
    pub expires_at_unix: u64,
    pub signature: Vec<u8>,
    pub pow_nonce: Vec<u8>,
}

/// A user's published prekeys.
#[derive(Debug)]
pub struct PreKeyBundleRecord {
    pub user_id: String,
    pub x3dh_identity_key: Vec<u8>,
    pub signed_prekey: Vec<u8>,
    pub signed_prekey_signature: Vec<u8>,
    pub one_time_prekeys: Vec<Vec<u8>>,
    pub expires_at_unix: u64,
    pub pow_nonce: Vec<u8>,
}

/// A relay's published onion key.
#[derive(Debug)]
pub struct RelayDescriptorRecord {
    pub relay_id: String,
    pub onion_public_key: Vec<u8>,
    pub expires_at_unix: u64,
    pub signature: Vec<u8>,
    pub pow_nonce: Vec<u8>,
}

/// The size that every packet has after padding.
pub const FIXED_PACKET_SIZE: usize = 4096;

/// The most bytes that fit in a padded packet beside its length prefix.
pub const MAX_PADDED_PAYLOAD: usize = 4092;

/// Why padding or unpadding failed.
#[derive(Debug, Clone, Copy, PartialEq, Eq, Structural)]
pub enum PaddingError {
    /// The payload does not fit into a packet.
    PayloadTooLarge { len: usize, max: usize },
    /// There is no room for a length prefix.
    PacketTooSmall,
    /// The length in front of the data reaches past their end.
    LengthPastEnd { claimed: u32, available: usize },
}

/// A length prefix, the data, and zeros up to the fixed size.
pub open spec fn padded(data: Seq<u8>) -> Seq<u8> {
    bytes::le_bytes(data.len(), 4) + data + Seq::new(
        (MAX_PADDED_PAYLOAD - data.len()) as nat,
        |i: int| 0u8,
    )
}

/// The length that a padded packet's prefix gives.
pub open spec fn padded_len(data: Seq<u8>) -> nat {
    bytes::le_value(data.take(4))
}

/// Appends zeros until `buffer` has `size` bytes.
pub fn zero_fill(buffer: &mut Vec<u8>, size: usize)
    ensures
        old(buffer)@.len() >= size ==> final(buffer)@ == old(buffer)@,
        old(buffer)@.len() < size ==> final(buffer)@ == old(buffer)@ + Seq::new(
            (size - old(buffer)@.len()) as nat,
            |i: int| 0u8,
        ),
{
    let ghost start = buffer@;
    while buffer.len() < size
        invariant
            buffer@.len() >= start.len(),
            buffer@.len() <= size || buffer@ == start,
            buffer@ =~= start + Seq::new((buffer@.len() - start.len()) as nat, |i: int| 0u8),
        decreases size - buffer@.len(),
    {
        buffer.push(0);
    }
    assert(start.len() >= size ==> buffer@ =~= start);
}

/// Pads data to the fixed packet size, so that all packets look alike.
pub fn pad_to_fixed_size(data: Vec<u8>) -> (result: Result<Vec<u8>, PaddingError>)
    ensures
        data@.len() <= MAX_PADDED_PAYLOAD ==> (result matches Ok(p) && p@ == padded(data@)
            && p@.len() == FIXED_PACKET_SIZE),
        data@.len() > MAX_PADDED_PAYLOAD ==> result == Err::<Vec<u8>, _>(
            PaddingError::PayloadTooLarge { len: data@.len() as usize, max: MAX_PADDED_PAYLOAD },
        ),
        result is Ok <==> data@.len() <= 4092,
        result matches Ok(p) ==> {
            &&& p@.len() == 4096
            &&& p@.take(4) == bytes::le_bytes(data@.len(), 4)
            &&& p@.subrange(4, 4 + data@.len() as int) == data@
            &&& forall|i: int| 4 + data@.len() <= i < 4096 ==> #[trigger] p@[i] == 0
        },
{
    if data.len() > MAX_PADDED_PAYLOAD {
        return Err(
            PaddingError::PayloadTooLarge { len: data.len(), max: MAX_PADDED_PAYLOAD },
        );
    }
    let mut result: Vec<u8> = bytes::to_vec(bytes::u32_le(data.len() as u32).as_slice());
    proof {
        bytes::le_bytes_len(data@.len(), 4);
    }
    bytes::append(&mut result, data.as_slice());
    zero_fill(&mut result, FIXED_PACKET_SIZE);
    assert(result@ =~= padded(data@));
    assert(result@.take(4) =~= bytes::le_bytes(data@.len(), 4));
    assert(result@.subrange(4, 4 + data@.len() as int) =~= data@);
    Ok(result)
}

/// Takes the padding off. A packet without a length, and one whose length
/// reaches past its end, is refused.
pub fn unpad_from_fixed_size(data: &[u8]) -> (result: Result<Vec<u8>, PaddingError>)
    ensures
        if data@.len() < 4 {
            result == Err::<Vec<u8>, _>(PaddingError::PacketTooSmall)
        } else if 4 + padded_len(data@) > data@.len() {
            result == Err::<Vec<u8>, _>(
                PaddingError::LengthPastEnd {
                    claimed: padded_len(data@) as u32,
                    available: (data@.len() - 4) as usize,
                },
            )
        } else {
            result matches Ok(v) && v@ == data@.subrange(4, 4 + padded_len(data@) as int)
        },
{
    if data.len() < 4 {
        return Err(PaddingError::PacketTooSmall);
    }
    assert(data@.subrange(0, 4) =~= data@.take(4));
    let len: u32 = bytes::read_u32_le(data, 0);
    let available: usize = data.len() - 4;
    if len as u64 > available as u64 {
        return Err(PaddingError::LengthPastEnd { claimed: len, available });
    }
    let end: usize = 4 + len as usize;
    Ok(bytes::to_vec(vstd::slice::slice_subrange(data, 4, end)))
}

/// Unpadding undoes padding.
pub proof fn padding_roundtrip(data: Seq<u8>)
    requires
        data.len() <= MAX_PADDED_PAYLOAD,
    ensures
        padded(data).len() == FIXED_PACKET_SIZE,
        4 + padded_len(padded(data)) <= padded(data).len(),
        padded(data).subrange(4, 4 + padded_len(padded(data)) as int) == data,
{
    bytes::pow256_values();
    bytes::le_roundtrip(data.len(), 4);
    assert(padded(data).take(4) =~= bytes::le_bytes(data.len(), 4));
    assert(padded(data).subrange(4, 4 + data.len() as int) =~= data);
}

} // verus!
