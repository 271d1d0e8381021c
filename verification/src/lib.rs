//! The logic of a peer-to-peer messenger node: identities, end-to-end
//! sessions, onion routing, mailboxes, relay selection, distributed records
//! and the decisions of the node's event loop.
use vstd::prelude::*;

pub mod bytes;
pub mod cli;
pub mod clock;
pub mod config;
pub mod constants;
pub mod crypto;
pub mod encoding;
pub mod errors;
pub mod identity;
pub mod network;
pub mod protocol;
pub mod services;
pub mod session;
pub mod storage;
pub mod table;
pub mod text;
pub mod types;
pub mod wire;

verus! {

} // verus!
