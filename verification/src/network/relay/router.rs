//! What a relay does with what it found under its layer.
use vstd::prelude::*;

use crate::network::onion::PeelResult;
use crate::network::relay::service::forward_to_next_hop;
use crate::network::OutboundPacket;
use crate::protocol;
use crate::protocol::PacketType;
use crate::types::{DestinationHint, DestinationModel, UserId};
use crate::wire::ContentModel;

verus! {

/// What to do with an onion packet.
pub enum RouteAction {
    /// Send a packet to the next relay.
    Send(OutboundPacket),
    /// Put the payload into a user's mailbox.
    Store { user: UserId, payload: Vec<u8> },
    /// The payload is for a connected peer, to which this node does not
    /// deliver.
    DirectPeer(String),
}

/// Whether an action is the one that an instruction asks for.
pub open spec fn follows_instruction(action: RouteAction, instruction: ContentModel) -> bool {
    match instruction {
        ContentModel::Forward { next_hop, inner } => {
            &&& action matches RouteAction::Send(outbound)
            &&& outbound.target_peer_id@ == next_hop
            &&& outbound.packet@ == protocol::plain_packet(PacketType::RelayForward, inner)
        },
        ContentModel::Exit { payload, destination: DestinationModel::Mailbox(name) } => {
            &&& action matches RouteAction::Store { user, payload: kept }
            &&& user@ == name
            &&& kept@ == payload
        },
        ContentModel::Exit { payload, destination: DestinationModel::DirectPeer(name) } => {
            &&& action matches RouteAction::DirectPeer(peer)
            &&& peer@ == name
        },
    }
}

/// What to do with what was found under a layer.
pub fn decide_and_route(result: PeelResult) -> (action: RouteAction)
    ensures
        follows_instruction(action, result@),
{
    match result {
        PeelResult::Forward { next_hop, remaining } => RouteAction::Send(
            forward_to_next_hop(next_hop, remaining),
        ),
        PeelResult::Exit { payload, destination } => match destination {
            DestinationHint::Mailbox(user) => RouteAction::Store { user, payload },
            DestinationHint::DirectPeer(peer) => RouteAction::DirectPeer(peer),
        },
    }
}

} // verus!
