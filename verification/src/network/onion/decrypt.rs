//! Taking one layer off an onion packet.
use vstd::prelude::*;

use crate::crypto::suite;
use crate::errors::{MessengerError, OnionFault};
use crate::network::onion;
use crate::network::onion::{OnionPacket, PeelResult};
use crate::wire;
use crate::wire::LayerContent;
use vstd::utf8;

verus! {

/// The key of a layer, from the secret shared between sender and relay.
pub(crate) fn derive_layer_key(shared_secret: &[u8; 32]) -> (key: [u8; 32])
    ensures
        key@ == onion::layer_key(shared_secret@),
        key@ == suite::hkdf_sha256(shared_secret@, utf8::encode_utf8("onion-layer-v1"@)),
{
    suite::hkdf_expand(shared_secret.as_slice(), "onion-layer-v1".as_bytes())
}

/// Takes the outermost layer off with this relay's secret onion key.
pub fn peel_layer(packet: &OnionPacket, our_onion_secret: &[u8; 32]) -> (result: Result<
    PeelResult,
    MessengerError,
>)
    ensures
        match onion::peeled(packet.layers@, our_onion_secret@) {
            Ok(instruction) => result matches Ok(r) && r@ == instruction,
            Err(fault) => result == Err::<PeelResult, _>(MessengerError::OnionUnwrap(fault)),
        },
{
    let layer = match wire::decode_layer(packet.layers.as_slice()) {
        Some(layer) => layer,
        None => {
            return Err(MessengerError::OnionUnwrap(OnionFault::MalformedLayer));
        },
    };
    let shared: [u8; 32] = suite::x25519_agree(our_onion_secret, &layer.ephemeral_public);
    let key: [u8; 32] = derive_layer_key(&shared);
    let content = match suite::open(&key, &layer.nonce, layer.ciphertext.as_slice()) {
        Some(content) => content,
        None => {
            return Err(MessengerError::OnionUnwrap(OnionFault::WrongKey));
        },
    };
    match wire::decode_content(content.as_slice()) {
        Some(LayerContent::Forward { next_hop, inner }) => Ok(
            PeelResult::Forward { next_hop, remaining: OnionPacket { layers: inner } },
        ),
        Some(LayerContent::Exit { payload, destination }) => Ok(
            PeelResult::Exit { payload, destination },
        ),
        None => Err(MessengerError::OnionUnwrap(OnionFault::MalformedContent)),
    }
}

} // verus!
