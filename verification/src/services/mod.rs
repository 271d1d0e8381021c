//! What the node does by itself: at the start, from time to time, and to
//! find relays.
use vstd::prelude::*;

pub mod background;
pub mod bootstrap;
pub mod dummy;
pub mod startup;
pub mod sync;

verus! {

} // verus!
