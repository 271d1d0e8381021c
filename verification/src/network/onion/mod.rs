//! Onion routes: a payload is wrapped into one layer of encryption for each
//! relay of a route. Each relay takes off its own layer, learns where to
//! pass the rest, and nothing else.
use vstd::prelude::*;

use crate::crypto::suite;
use crate::errors::OnionFault;
use crate::types::{DestinationHint, DestinationModel, RelayId};
use crate::wire;
use crate::wire::ContentModel;
use vstd::utf8;

pub mod builder;
pub mod decrypt;
pub mod encrypt;

pub use crate::network::onion::builder::{build_circuit, OnionCircuit};
pub use crate::network::onion::decrypt::peel_layer;
pub use crate::network::onion::encrypt::wrap_layers;

verus! {

/// A relay's X25519 public key for onion layers.
pub type RelayOnionKey = [u8; 32];

/// One relay of a route.
#[derive(Debug)]
pub struct OnionHop {
    pub relay_id: RelayId,
    pub onion_key: RelayOnionKey,
}

/// One relay of a route as it is compared.
#[verifier::ext_equal]
pub struct HopModel {
    pub relay_id: Seq<char>,
    pub onion_key: Seq<u8>,
}

impl View for OnionHop {
    type V = HopModel;

    open spec fn view(&self) -> HopModel {
        HopModel { relay_id: self.relay_id@, onion_key: self.onion_key@ }
    }
}

/// The relays of a route.
pub open spec fn hop_models(hops: Seq<OnionHop>) -> Seq<HopModel> {
    hops.map_values(|h: OnionHop| h@)
}

/// A payload under its remaining layers, the outermost outside.
#[derive(Debug)]
pub struct OnionPacket {
    pub layers: Vec<u8>,
}

/// What a relay finds under its layer.
pub enum PeelResult {
    /// More layers: pass the rest on to this relay.
    Forward { next_hop: RelayId, remaining: OnionPacket },
    /// The last layer: deliver the payload.
    Exit { payload: Vec<u8>, destination: DestinationHint },
}

impl View for PeelResult {
    type V = ContentModel;

    open spec fn view(&self) -> ContentModel {
        match self {
            PeelResult::Forward { next_hop, remaining } => ContentModel::Forward {
                next_hop: next_hop@,
                inner: remaining.layers@,
            },
            PeelResult::Exit { payload, destination } => ContentModel::Exit {
                payload: payload@,
                destination: destination@,
            },
        }
    }
}

/// The key of a layer, from the secret shared between sender and relay.
pub open spec fn layer_key(shared: Seq<u8>) -> Seq<u8> {
    suite::hkdf_sha256(shared, utf8::encode_utf8("onion-layer-v1"@))
}

/// What the holder of `secret` finds under the outermost layer.
pub open spec fn unlocked(layers: Seq<u8>, secret: Seq<u8>) -> Result<Seq<u8>, OnionFault> {
    match wire::parse_layer(layers) {
        Some(layer) => match suite::opened(
            layer_key(suite::x25519_shared(secret, layer.ephemeral_public)),
            layer.nonce,
            layer.ciphertext,
        ) {
            Some(content) => Ok(content),
            None => Err(OnionFault::WrongKey),
        },
        None => Err(OnionFault::MalformedLayer),
    }
}

/// What the holder of `secret` is told by the outermost layer.
pub open spec fn peeled(layers: Seq<u8>, secret: Seq<u8>) -> Result<ContentModel, OnionFault> {
    match unlocked(layers, secret) {
        Ok(content) => match wire::parse_content(content) {
            Some(instruction) => Ok(instruction),
            None => Err(OnionFault::MalformedContent),
        },
        Err(fault) => Err(fault),
    }
}

/// Whether the relay with the public key `public` is told `instruction` by
/// the outermost layer.
pub open spec fn tells(layers: Seq<u8>, public: Seq<u8>, instruction: ContentModel) -> bool {
    forall|secret: Seq<u8>|
        secret.len() == 32 && #[trigger] suite::x25519_public(secret) == public ==> peeled(
            layers,
            secret,
        ) == Ok::<ContentModel, OnionFault>(instruction)
}

/// Whether a packet travels the rest of a route, from its relay number
/// `from` on: every relay but the last is told the next one and what to pass
/// on, and the last is told to deliver the payload.
#[verifier::opaque]
pub open spec fn travels(
    layers: Seq<u8>,
    hops: Seq<HopModel>,
    from: nat,
    payload: Seq<u8>,
    destination: DestinationModel,
) -> bool
    decreases hops.len() - from,
{
    if from + 1 >= hops.len() {
        tells(layers, hops[from as int].onion_key, ContentModel::Exit { payload, destination })
    } else {
        exists|inner: Seq<u8>|
            {
                &&& #[trigger] tells(
                    layers,
                    hops[from as int].onion_key,
                    ContentModel::Forward { next_hop: hops[from as int + 1].relay_id, inner },
                )
                &&& travels(inner, hops, from + 1, payload, destination)
            }
    }
}

/// A relay that finds an encoded instruction under a layer is told it.
pub(crate) proof fn unlocking_tells(
    layers: Seq<u8>,
    public: Seq<u8>,
    content: Seq<u8>,
    instruction: ContentModel,
)
    requires
        forall|secret: Seq<u8>|
            secret.len() == 32 && #[trigger] suite::x25519_public(secret) == public ==> unlocked(
                layers,
                secret,
            ) == Ok::<Seq<u8>, OnionFault>(content),
        wire::parse_content(content) == Some(instruction),
    ensures
        tells(layers, public, instruction),
{
}

/// A packet that tells the last relay to deliver travels the last leg.
pub proof fn last_leg_travels(
    layers: Seq<u8>,
    hops: Seq<HopModel>,
    payload: Seq<u8>,
    destination: DestinationModel,
)
    requires
        hops.len() > 0,
        tells(layers, hops.last().onion_key, ContentModel::Exit { payload, destination }),
    ensures
        travels(layers, hops, (hops.len() - 1) as nat, payload, destination),
{
    reveal_with_fuel(travels, 1);
}

/// A packet that tells a relay to pass on what travels the rest of a route
/// travels the route from that relay on.
pub proof fn leg_travels(
    layers: Seq<u8>,
    hops: Seq<HopModel>,
    from: nat,
    inner: Seq<u8>,
    payload: Seq<u8>,
    destination: DestinationModel,
)
    requires
        from + 1 < hops.len(),
        tells(
            layers,
            hops[from as int].onion_key,
            ContentModel::Forward { next_hop: hops[from as int + 1].relay_id, inner },
        ),
        travels(inner, hops, from + 1, payload, destination),
    ensures
        travels(layers, hops, from, payload, destination),
{
    reveal_with_fuel(travels, 2);
}

/// Each relay on the way learns the next one only, and the last relay the
/// payload and where it goes.
pub proof fn relays_on_the_way(
    layers: Seq<u8>,
    hops: Seq<HopModel>,
    from: nat,
    payload: Seq<u8>,
    destination: DestinationModel,
    secret: Seq<u8>,
)
    requires
        from < hops.len(),
        travels(layers, hops, from, payload, destination),
        secret.len() == 32,
        suite::x25519_public(secret) == hops[from as int].onion_key,
    ensures
        from + 1 == hops.len() ==> peeled(layers, secret) == Ok::<ContentModel, OnionFault>(
            ContentModel::Exit { payload, destination },
        ),
        from + 1 < hops.len() ==> {
            &&& peeled(layers, secret) matches Ok(ContentModel::Forward { next_hop, inner })
            &&& next_hop == hops[from as int + 1].relay_id
            &&& travels(inner, hops, from + 1, payload, destination)
        },
{
    reveal_with_fuel(travels, 1);
}

/// A layer is for one relay: whoever holds another secret is refused, unless
/// the two secrets lead to the same key or the layer authenticates under two
/// different keys.
pub proof fn layers_open_for_one_relay(layers: Seq<u8>, right: Seq<u8>, wrong: Seq<u8>)
    requires
        unlocked(layers, right) is Ok,
    ensures
        ({
            let layer = wire::parse_layer(layers)->Some_0;
            let right_key = layer_key(suite::x25519_shared(right, layer.ephemeral_public));
            let wrong_key = layer_key(suite::x25519_shared(wrong, layer.ephemeral_public));
            ||| peeled(layers, wrong) == Err::<ContentModel, _>(OnionFault::WrongKey)
            ||| right_key == wrong_key
            ||| suite::opens_under_both(right_key, wrong_key, layer.nonce, layer.ciphertext)
        }),
{
}

/// The key of a layer depends on the secret between sender and relay: two
/// secrets lead to one key only where HKDF gives one output for both. So a
/// relay that shares another secret with the sender's ephemeral key is refused,
/// unless HKDF does that or the layer authenticates under two different keys.
pub proof fn layers_open_for_one_secret(layers: Seq<u8>, right: Seq<u8>, wrong: Seq<u8>)
    requires
        unlocked(layers, right) is Ok,
    ensures
        ({
            let layer = wire::parse_layer(layers)->Some_0;
            let one = suite::x25519_shared(right, layer.ephemeral_public);
            let other = suite::x25519_shared(wrong, layer.ephemeral_public);
            let label = utf8::encode_utf8("onion-layer-v1"@);
            ||| peeled(layers, wrong) == Err::<ContentModel, _>(OnionFault::WrongKey)
            ||| one == other
            ||| suite::inputs_collide(one, other, label)
            ||| suite::opens_under_both(
                suite::hkdf_sha256(one, label),
                suite::hkdf_sha256(other, label),
                layer.nonce,
                layer.ciphertext,
            )
        }),
{
}

} // verus!
