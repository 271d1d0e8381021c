//! Mailboxes: messages that wait on a relay for their receiver.
use vstd::prelude::*;

pub mod cleanup;
pub mod service;
pub mod storage;

pub use crate::network::mailbox::service::MailboxService;

verus! {

} // verus!
