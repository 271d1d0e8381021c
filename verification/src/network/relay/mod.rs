//! Relays: which ones are known, which ones can be trusted with a route, and
//! what a relay does with a packet.
use vstd::prelude::*;

pub mod registry;
pub mod router;
pub mod scoring;
pub mod service;
pub mod static_source;

verus! {

} // verus!
