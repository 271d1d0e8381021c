//! The errors that cross module boundaries.
use vstd::prelude::*;

use crate::crypto::ratchet::RatchetError;
use crate::types::{RelayId, UserId};

verus! {

/// What went wrong in a cryptographic step.
#[derive(Debug, Clone, Copy, PartialEq, Eq, Structural)]
pub enum CryptoError {
    /// The session's ratchet refused a message.
    Ratchet(RatchetError),
    /// An onion layer's content is longer than the cipher can cover.
    OnionLayerEncrypt,
    /// A stored session holds a chain key that is not 32 bytes long.
    StoredChainKey,
    /// A record holds a key that is not a valid X25519 or Ed25519 key.
    MalformedKey,
}

/// Why an onion layer could not be built or taken off.
#[derive(Debug, Clone, Copy, PartialEq, Eq, Structural)]
pub enum OnionFault {
    /// The bytes do not hold a layer.
    MalformedLayer,
    /// The layer does not authenticate under this relay's key.
    WrongKey,
    /// The layer's content is not an instruction to a relay.
    MalformedContent,
    /// The ephemeral secret of this hop was used already.
    SecretSpent { hop: usize },
}

/// What could not be decoded.
#[derive(Debug, Clone, Copy, PartialEq, Eq, Structural)]
pub enum WireFault {
    Envelope,
    Packet,
    MailboxBatch,
}

/// Why an operation of the node failed.
#[allow(inconsistent_fields)]
#[derive(Debug)]
pub enum MessengerError {
    NoSession(UserId),
    SessionAlreadyExists(UserId),
    /// The session with this user has counted to the end of its numbers.
    SessionExhausted(UserId),
    OutOfOrderMessage { expected: u32, got: u32 },
    Crypto(CryptoError),
    PreKeyBundleNotFound(UserId),
    InvalidPreKeySignature(UserId),
    InvalidMessageSignature(UserId),
    IdentityKeyNotFound(UserId),
    SenderMismatch { claimed: UserId, expected: UserId },
    OnionChainTooShort { min: usize, got: usize },
    OnionChainTooLong { max: usize, got: usize },
    OnionUnwrap(OnionFault),
    RelayRejected(RelayId, String),
    MailboxFull { user: UserId, limit: usize },
    OnionKeyNotFound(RelayId),
    DhtRecordNotFound(String),
    Storage(String),
    Network(String),
    Protocol(String),
    Serialization(WireFault),
    Timeout,
    Other(String),
}

} // verus!
