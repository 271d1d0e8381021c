//! Passing onion packets on.
use vstd::prelude::*;

use crate::network::onion::OnionPacket;
use crate::network::OutboundPacket;
use crate::protocol;
use crate::protocol::{Packet, PacketType};
use crate::types::RelayId;

verus! {

/// The packet that passes an onion on to the next relay of its route.
pub fn forward_to_next_hop(next_hop: RelayId, packet: OnionPacket) -> (outbound: OutboundPacket)
    ensures
        outbound.target_peer_id == next_hop,
        outbound.packet@ == protocol::plain_packet(PacketType::RelayForward, packet.layers@),
{
    OutboundPacket {
        target_peer_id: next_hop,
        packet: Packet::plain(PacketType::RelayForward, packet.layers),
    }
}

} // verus!
