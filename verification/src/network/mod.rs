//! The network layer: onion routes, relays, mailboxes, distributed records
//! and the node's decisions.
use vstd::prelude::*;

use crate::protocol::Packet;
use crate::types::{RelayId, UserId};

pub mod codec;
pub mod dht;
pub mod dispatcher;
pub mod mailbox;
pub mod onion;
pub mod p2p;
pub mod relay;
pub mod waiting;

verus! {

/// A packet that is to be sent to a peer over the transport.
#[derive(Debug)]
pub struct OutboundPacket {
    pub target_peer_id: RelayId,
    pub packet: Packet,
}

/// A decrypted message, ready to be stored and shown.
#[derive(Debug)]
pub struct IncomingMessage {
    pub from: UserId,
    pub plaintext: Vec<u8>,
}

} // verus!
