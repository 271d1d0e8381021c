//! What the node keeps on disk, as rows of plain values.
use vstd::prelude::*;

pub mod db;
pub mod mailbox_store;
pub mod session_store;

verus! {

} // verus!
