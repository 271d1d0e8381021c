//! How a packet is written to a connection: its length in four bytes, most
//! significant first, and its encoding.
use vstd::prelude::*;

use crate::bytes;
use crate::protocol::{Packet, PacketModel};
use crate::wire;

verus! {

/// The name of the messaging protocol.
#[derive(Debug, Clone, Copy)]
pub struct MessengerProtocol;

impl MessengerProtocol {
    /// The name, as peers negotiate it.
    pub fn name(&self) -> (name: &'static str)
        ensures
            name@ == "/messenger/msg/1.0.0"@,
    {
        "/messenger/msg/1.0.0"
    }
}

/// A packet as it is written to a connection. The length is written modulo
/// `2^32`.
pub open spec fn frame_bytes(packet: PacketModel) -> Seq<u8> {
    bytes::be_bytes(wire::packet_bytes(packet).len(), 4) + wire::packet_bytes(packet)
}

/// Reads and writes packets.
#[derive(Debug, Clone, Copy)]
pub struct MessengerCodec;

impl MessengerCodec {
    /// The length and the encoding of a packet.
    pub fn frame(&self, packet: &Packet) -> (frame: Vec<u8>)
        ensures
            frame@ == frame_bytes(packet@),
    {
        let data: Vec<u8> = wire::encode_packet(packet);
        let len: u32 = (data.len() as u64 % 0x1_0000_0000) as u32;
        proof {
            bytes::pow256_values();
            bytes::le_bytes_of_remainder(data@.len(), 4);
        }
        let prefix: [u8; 4] = bytes::u32_be(len);
        let mut frame: Vec<u8> = bytes::to_vec(&prefix);
        bytes::append(&mut frame, data.as_slice());
        frame
    }

    /// How many bytes follow a length.
    pub fn body_len(&self, prefix: [u8; 4]) -> (len: u32)
        ensures
            len == bytes::be_value(prefix@),
    {
        bytes::read_u32_be(prefix)
    }

    /// The packet in the bytes behind the length.
    pub fn body(&self, data: &[u8]) -> (packet: Option<Packet>)
        ensures
            packet is Some <==> wire::parse_packet(data@) is Some,
            packet matches Some(p) ==> wire::parse_packet(data@) == Some(p@),
    {
        wire::decode_packet(data)
    }
}

/// A packet of less than `2^32` encoded bytes is read as it was written: the
/// length says how many bytes follow, and those are decoded to the packet.
pub proof fn written_packets_are_read(packet: PacketModel)
    requires
        wire::packet_bytes(packet).len() < 0x1_0000_0000,
    ensures
        frame_bytes(packet).len() >= 4,
        bytes::be_value(frame_bytes(packet).take(4)) == frame_bytes(packet).skip(4).len(),
        wire::parse_packet(frame_bytes(packet).skip(4)) == Some(packet),
{
    let data = wire::packet_bytes(packet);
    bytes::pow256_values();
    bytes::le_roundtrip(data.len(), 4);
    let prefix = bytes::be_bytes(data.len(), 4);
    assert(prefix.reverse() =~= bytes::le_bytes(data.len(), 4));
    assert(frame_bytes(packet).take(4) =~= prefix);
    assert(frame_bytes(packet).skip(4) =~= data);
    wire::packet_roundtrip(packet, Seq::empty());
    assert(data + Seq::<u8>::empty() =~= data);
}

} // verus!
