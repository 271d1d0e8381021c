//! Small types shared by the session, network and storage layers.
use vstd::prelude::*;

verus! {

/// A user's name in the network, derived from the user's public key.
pub type UserId = String;

/// A relay's name in the network.
pub type RelayId = String;

/// The name of a session with one peer.
pub struct SessionId(pub String);

impl SessionId {
    /// The one session with a peer.
    pub fn for_peer(peer: &UserId) -> (id: Self)
        ensures
            id.0@ == peer@,
    {
        SessionId(peer.clone())
    }
}

/// Which way a message goes, seen from this node.
#[derive(Debug, Clone, Copy, PartialEq, Eq, Structural)]
pub enum Direction {
    Outgoing,
    Incoming,
}

/// A payload and what the network has to know to deliver it.
pub struct RoutedPacket {
    pub payload: Vec<u8>,
    pub destination_hint: DestinationHint,
}

/// Where the last relay of a route delivers to.
#[derive(Debug)]
pub enum DestinationHint {
    /// A peer that is connected right now.
    DirectPeer(String),
    /// The mailbox of a user.
    Mailbox(UserId),
}

/// A destination as it is compared and written.
#[verifier::ext_equal]
pub enum DestinationModel {
    DirectPeer(Seq<char>),
    Mailbox(Seq<char>),
}

impl View for DestinationHint {
    type V = DestinationModel;

    open spec fn view(&self) -> DestinationModel {
        match self {
            DestinationHint::DirectPeer(peer) => DestinationModel::DirectPeer(peer@),
            DestinationHint::Mailbox(user) => DestinationModel::Mailbox(user@),
        }
    }
}

impl DestinationHint {
    /// An owned copy of this destination.
    pub fn copy(&self) -> (copy: Self)
        ensures
            copy@ == self@,
    {
        match self {
            DestinationHint::DirectPeer(peer) => DestinationHint::DirectPeer(peer.clone()),
            DestinationHint::Mailbox(user) => DestinationHint::Mailbox(user.clone()),
        }
    }
}

/// What became of an attempt to deliver a message.
#[derive(Debug)]
pub enum DeliveryOutcome {
    DeliveredDirect,
    QueuedInMailbox,
    Failed(String),
}

} // verus!
