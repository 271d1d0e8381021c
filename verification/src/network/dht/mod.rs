//! Signed records in the distributed table.
use vstd::prelude::*;

pub mod lookup;
pub mod publish;
pub mod record;

pub use crate::network::dht::publish::{
    needs_republish, republish_if_needed, republish_if_needed_at,
};
pub use crate::network::dht::record::{
    generate_one_time_prekeys, generate_signed_prekey, prekey_bundle_key_for_user,
    record_key_for_user, relay_descriptor_key_for_relay, DhtRecordBuilder,
    PreKeyBundleRecordBuilder, RelayDescriptorRecordBuilder,
};

verus! {

} // verus!
