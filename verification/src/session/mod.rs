//! End-to-end sessions with other users.
use vstd::prelude::*;

pub mod laws;
pub mod manager;
pub mod state;

verus! {

} // verus!
