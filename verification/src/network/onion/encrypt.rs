//! Wrapping a payload into the layers of a route, from the last relay to the
//! first.
use vstd::prelude::*;

use crate::bytes;
use crate::constants::ONION_CELL_SIZE;
use crate::crypto::suite;
use crate::errors::{CryptoError, MessengerError, OnionFault};
use crate::network::onion;
use crate::network::onion::builder::{CircuitModel, OnionCircuit};
use crate::network::onion::decrypt::derive_layer_key;
use crate::network::onion::{HopModel, OnionPacket};
use crate::protocol;
use crate::types::DestinationModel;
use crate::wire;
use crate::wire::{ContentModel, Layer, LayerContent, LayerModel};
use vstd::utf8;

verus! {

/// Data with zeros after it, up to the size of a cell.
pub open spec fn cell_padded(data: Seq<u8>) -> Seq<u8> {
    if data.len() < ONION_CELL_SIZE {
        data + Seq::new((ONION_CELL_SIZE - data.len()) as nat, |i: int| 0u8)
    } else {
        data
    }
}

/// A layer for one relay around some content, or `None` for content that is
/// too long.
pub open spec fn layer_for(
    hop_public: Seq<u8>,
    ephemeral: Seq<u8>,
    nonce: Seq<u8>,
    content: Seq<u8>,
) -> Option<Seq<u8>> {
    match suite::sealed(
        onion::layer_key(suite::x25519_shared(ephemeral, hop_public)),
        nonce,
        content,
    ) {
        Some(ciphertext) => Some(
            wire::layer_bytes(
                LayerModel {
                    ephemeral_public: suite::x25519_public(ephemeral),
                    nonce,
                    ciphertext,
                },
            ),
        ),
        None => None,
    }
}

/// What the relay number `i` finds under its layer: the innermost content,
/// or the next relay and what to pass on.
pub open spec fn content_for(c: CircuitModel, i: int, inner: Seq<u8>) -> Seq<u8> {
    if i + 1 == c.hops.len() {
        inner
    } else {
        wire::content_bytes(ContentModel::Forward { next_hop: c.hops[i + 1].relay_id, inner })
    }
}

/// Wrapping `inner` into the layers of the first `count` relays, the last of
/// them first: the packet, or the first error on the way.
pub open spec fn wrapped(
    c: CircuitModel,
    nonces: Seq<[u8; 12]>,
    count: nat,
    inner: Seq<u8>,
) -> Result<Seq<u8>, MessengerError>
    decreases count,
{
    if count == 0 {
        Ok(inner)
    } else {
        let i = count - 1;
        match c.secrets[i] {
            None => Err(MessengerError::OnionUnwrap(OnionFault::SecretSpent { hop: i as usize })),
            Some(ephemeral) => match layer_for(
                c.hops[i].onion_key,
                ephemeral,
                nonces[i]@,
                content_for(c, i, inner),
            ) {
                None => Err(MessengerError::Crypto(CryptoError::OnionLayerEncrypt)),
                Some(layer) => wrapped(c, nonces, i as nat, layer),
            },
        }
    }
}

/// The length of what the relay number `i` finds under its layer.
pub open spec fn content_len(hops: Seq<HopModel>, i: int, inner_len: nat) -> nat {
    if i + 1 == hops.len() {
        inner_len
    } else {
        20 + utf8::encode_utf8(hops[i + 1].relay_id).len() + inner_len
    }
}

/// Whether content of a length can be wrapped into the layers of the first
/// `count` relays: no layer's content is too long for the cipher.
pub open spec fn fits_route(hops: Seq<HopModel>, count: nat, inner_len: nat) -> bool
    decreases count,
{
    if count == 0 {
        true
    } else {
        let len = content_len(hops, count - 1, inner_len);
        len <= suite::MAX_PLAINTEXT && fits_route(
            hops,
            (count - 1) as nat,
            (len + LAYER_OVERHEAD) as nat,
        )
    }
}

/// By how much a layer is longer than its content: key, nonce, length and
/// tag.
pub const LAYER_OVERHEAD: u64 = 68;

/// The length of a packet for the first `count` relays of a route around
/// content of a length.
pub open spec fn packet_len(hops: Seq<HopModel>, count: nat, inner_len: nat) -> nat
    decreases count,
{
    if count == 0 {
        inner_len
    } else {
        packet_len(
            hops,
            (count - 1) as nat,
            (content_len(hops, count - 1, inner_len) + LAYER_OVERHEAD) as nat,
        )
    }
}

/// Short payloads look alike: whatever is told to the last relay, as long as it
/// fits into a cell of 512 bytes, the packets that a route makes of it have the
/// same length.
pub proof fn short_payloads_look_alike(
    hops: Seq<HopModel>,
    first: Seq<u8>,
    second: Seq<u8>,
    first_destination: DestinationModel,
    second_destination: DestinationModel,
)
    requires
        wire::content_bytes(
            ContentModel::Exit { payload: first, destination: first_destination },
        ).len() <= 512,
        wire::content_bytes(
            ContentModel::Exit { payload: second, destination: second_destination },
        ).len() <= 512,
    ensures
        exit_cell(first, first_destination).len() == 512,
        exit_cell(second, second_destination).len() == 512,
        packet_len(hops, hops.len(), exit_cell(first, first_destination).len()) == packet_len(
            hops,
            hops.len(),
            exit_cell(second, second_destination).len(),
        ),
{
}

/// The innermost content: what the last relay is told, padded to a cell.
pub open spec fn exit_cell(payload: Seq<u8>, destination: DestinationModel) -> Seq<u8> {
    cell_padded(wire::content_bytes(ContentModel::Exit { payload, destination }))
}

/// The packet that a route makes of a payload, or why there is none.
pub open spec fn wrap_result(
    c: CircuitModel,
    nonces: Seq<[u8; 12]>,
    payload: Seq<u8>,
) -> Result<Seq<u8>, MessengerError> {
    if c.hops.len() == 0 {
        Err(MessengerError::OnionChainTooShort { min: 1, got: 0 })
    } else {
        wrapped(c, nonces, c.hops.len(), exit_cell(payload, c.destination))
    }
}

/// On a route whose secrets are all there, wrapping fails in one way only: a
/// layer's content is too long.
pub proof fn fresh_routes_fail_by_length(
    c: CircuitModel,
    nonces: Seq<[u8; 12]>,
    count: nat,
    inner: Seq<u8>,
)
    requires
        c.wf(),
        c.unused(),
        count <= c.hops.len(),
    ensures
        wrapped(c, nonces, count, inner) matches Err(e) ==> e == MessengerError::Crypto(
            CryptoError::OnionLayerEncrypt,
        ),
    decreases count,
{
    if count > 0 {
        let i = count - 1;
        let layer = layer_for(
            c.hops[i].onion_key,
            c.secrets[i]->Some_0,
            nonces[i]@,
            content_for(c, i, inner),
        );
        if layer is Some {
            fresh_routes_fail_by_length(c, nonces, i as nat, layer->Some_0);
        }
    }
}

/// Appends zeros up to the size of a cell.
pub fn pad_to_cell_size(data: &mut Vec<u8>)
    ensures
        final(data)@ == cell_padded(old(data)@),
        old(data)@.len() <= 512 ==> final(data)@.len() == 512,
        old(data)@.len() >= 512 ==> final(data)@ == old(data)@,
        final(data)@.take(old(data)@.len() as int) == old(data)@,
        forall|i: int| old(data)@.len() <= i < final(data)@.len() ==> #[trigger] final(data)@[i] == 0,
{
    let ghost before = data@;
    protocol::zero_fill(data, ONION_CELL_SIZE);
    assert(data@.take(before.len() as int) =~= before);
}

/// Encrypts content for one relay under the given ephemeral secret and
/// nonce. The relay that holds the secret half of its key finds the content
/// under the layer.
pub fn encrypt_layer_for_hop(
    hop_public: &[u8; 32],
    ephemeral_secret: &[u8; 32],
    nonce: [u8; 12],
    plaintext: &[u8],
) -> (result: Result<Vec<u8>, MessengerError>)
    ensures
        match layer_for(hop_public@, ephemeral_secret@, nonce@, plaintext@) {
            Some(layer) => result matches Ok(v) && v@ == layer,
            None => result == Err::<Vec<u8>, _>(
                MessengerError::Crypto(CryptoError::OnionLayerEncrypt),
            ),
        },
        result matches Ok(v) ==> (forall|secret: Seq<u8>|
            secret.len() == 32 && #[trigger] suite::x25519_public(secret) == hop_public@
                ==> onion::unlocked(v@, secret) == Ok::<Seq<u8>, OnionFault>(plaintext@)),
        result is Ok <==> plaintext@.len() <= suite::MAX_PLAINTEXT,
        result matches Ok(v) ==> (wire::parse_layer(v@) matches Some(layer) && layer.ephemeral_public
            == suite::x25519_public(ephemeral_secret@) && layer.nonce == nonce@ && suite::sealed(
            suite::hkdf_sha256(
                suite::x25519_shared(ephemeral_secret@, hop_public@),
                utf8::encode_utf8("onion-layer-v1"@),
            ),
            nonce@,
            plaintext@,
        ) == Some(layer.ciphertext)),
        result matches Ok(v) ==> v@.len() == plaintext@.len() + LAYER_OVERHEAD,
{
    let ephemeral_public: [u8; 32] = suite::x25519_public_key(ephemeral_secret);
    let shared: [u8; 32] = suite::x25519_agree(ephemeral_secret, hop_public);
    let key: [u8; 32] = derive_layer_key(&shared);
    match suite::seal(&key, &nonce, plaintext) {
        Some(ciphertext) => {
            proof {
                bytes::le_bytes_len(ciphertext@.len(), 8);
            }
            Ok(wire::encode_layer(&Layer { ephemeral_public, nonce, ciphertext }))
        },
        None => Err(MessengerError::Crypto(CryptoError::OnionLayerEncrypt)),
    }
}

/// Wraps what was wrapped so far into the layer of one relay of a route.
fn wrap_one(circuit: &mut OnionCircuit, i: usize, nonce: [u8; 12], inner: Vec<u8>) -> (result:
    Result<Vec<u8>, MessengerError>)
    requires
        old(circuit)@.wf(),
        i < old(circuit)@.hops.len(),
    ensures
        final(circuit)@ == (CircuitModel {
            secrets: old(circuit)@.secrets.update(i as int, None),
            ..old(circuit)@
        }),
        final(circuit)@.wf(),
        match old(circuit)@.secrets[i as int] {
            None => result == Err::<Vec<u8>, _>(
                MessengerError::OnionUnwrap(OnionFault::SecretSpent { hop: i }),
            ),
            Some(ephemeral) => match layer_for(
                old(circuit)@.hops[i as int].onion_key,
                ephemeral,
                nonce@,
                content_for(old(circuit)@, i as int, inner@),
            ) {
                None => result == Err::<Vec<u8>, _>(
                    MessengerError::Crypto(CryptoError::OnionLayerEncrypt),
                ),
                Some(layer) => result matches Ok(v) && v@ == layer,
            },
        },
        result matches Ok(v) ==> (forall|secret: Seq<u8>|
            secret.len() == 32 && #[trigger] suite::x25519_public(secret) == old(circuit)@.hops[i as int].onion_key ==> onion::unlocked(v@, secret) == Ok::<
                Seq<u8>,
                OnionFault,
            >(content_for(old(circuit)@, i as int, inner@))),
        i + 1 < old(circuit)@.hops.len() ==> wire::parse_content(
            content_for(old(circuit)@, i as int, inner@),
        ) == Some(
            ContentModel::Forward {
                next_hop: old(circuit)@.hops[i + 1].relay_id,
                inner: inner@,
            },
        ),
        old(circuit)@.secrets[i as int] is Some ==> (result is Ok <==> content_len(
            old(circuit)@.hops,
            i as int,
            inner@.len(),
        ) <= suite::MAX_PLAINTEXT),
        result matches Ok(v) ==> v@.len() == content_len(
            old(circuit)@.hops,
            i as int,
            inner@.len(),
        ) + LAYER_OVERHEAD,
{
    proof {
        circuit.parts();
    }
    let hop_public: [u8; 32] = circuit.hops[i].onion_key;
    let content: Vec<u8> = if i == circuit.len() - 1 {
        inner
    } else {
        let forward = LayerContent::Forward {
            next_hop: circuit.hops[i + 1].relay_id.clone(),
            inner,
        };
        let encoded = wire::encode_content(&forward);
        proof {
            bytes::le_bytes_len(0, 4);
            bytes::le_bytes_len(utf8::encode_utf8(forward@->next_hop).len(), 8);
            bytes::le_bytes_len(forward@->inner.len(), 8);
            wire::content_roundtrip(forward@, Seq::empty());
            assert(encoded@ + Seq::<u8>::empty() =~= encoded@);
        }
        encoded
    };
    match circuit.take_ephemeral_secret(i) {
        Some(secret) => encrypt_layer_for_hop(&hop_public, &secret, nonce, content.as_slice()),
        None => Err(MessengerError::OnionUnwrap(OnionFault::SecretSpent { hop: i })),
    }
}

/// Wraps a payload into the layers of a route under the given nonces, one
/// for each relay. Every ephemeral secret of the route is used up; a route
/// whose secrets were used before is refused.
pub fn wrap_layers_with(circuit: &mut OnionCircuit, payload: Vec<u8>, nonces: &Vec<[u8; 12]>) -> (
    result: Result<OnionPacket, MessengerError>)
    requires
        old(circuit)@.wf(),
        nonces@.len() == old(circuit)@.hops.len(),
    ensures
        final(circuit)@.wf(),
        final(circuit)@ == (CircuitModel { secrets: final(circuit)@.secrets, ..old(circuit)@ }),
        forall|i: int|
            0 <= i < old(circuit)@.secrets.len() ==> (#[trigger] final(circuit)@.secrets[i] is None
                || final(circuit)@.secrets[i] == old(circuit)@.secrets[i]),
        match wrap_result(old(circuit)@, nonces@, payload@) {
            Ok(layers) => result matches Ok(p) && p.layers@ == layers,
            Err(e) => result == Err::<OnionPacket, _>(e),
        },
        old(circuit)@.unused() ==> (result is Ok <==> old(circuit)@.hops.len() > 0 && fits_route(
            old(circuit)@.hops,
            old(circuit)@.hops.len(),
            exit_cell(payload@, old(circuit)@.destination).len(),
        )),
        old(circuit)@.unused() && old(circuit)@.hops.len() > 0 && result is Err ==> result == Err::<
            OnionPacket,
            _,
        >(MessengerError::Crypto(CryptoError::OnionLayerEncrypt)),
        result matches Ok(p) ==> {
            &&& p.layers@.len() == packet_len(
                old(circuit)@.hops,
                old(circuit)@.hops.len(),
                exit_cell(payload@, old(circuit)@.destination).len(),
            )
            &&& onion::travels(
                p.layers@,
                old(circuit)@.hops,
                0,
                payload@,
                old(circuit)@.destination,
            )
            &&& forall|i: int|
                0 <= i < final(circuit)@.secrets.len() ==> #[trigger] final(circuit)@.secrets[i] is None
        },
{
    if circuit.is_empty() {
        return Err(MessengerError::OnionChainTooShort { min: 1, got: 0 });
    }
    let ghost start = circuit@;
    let ghost content = payload@;
    let exit = LayerContent::Exit { payload, destination: circuit.destination.copy() };
    let mut current: Vec<u8> = wire::encode_content(&exit);
    pad_to_cell_size(&mut current);
    proof {
        circuit.parts();
        let bare = wire::content_bytes(exit@);
        let zeros = cell_padded(bare).skip(bare.len() as int);
        assert(cell_padded(bare) =~= bare + zeros);
        wire::content_roundtrip(exit@, zeros);
    }
    let ghost goal = wrap_result(start, nonces@, content);
    proof {
        if start.unused() {
            fresh_routes_fail_by_length(
                start,
                nonces@,
                start.hops.len(),
                exit_cell(content, start.destination),
            );
        }
    }
    let mut i: usize = circuit.len();
    while i > 0
        invariant
            start == old(circuit)@,
            content == payload@,
            goal == wrap_result(start, nonces@, content),
            start.unused() && goal is Err ==> goal == Err::<Seq<u8>, _>(
                MessengerError::Crypto(CryptoError::OnionLayerEncrypt),
            ),
            start.wf(),
            start.hops.len() > 0,
            circuit@ == (CircuitModel { secrets: circuit@.secrets, ..start }),
            circuit@.wf(),
            i <= start.hops.len(),
            nonces@.len() == start.hops.len(),
            forall|j: int| 0 <= j < i ==> #[trigger] circuit@.secrets[j] == start.secrets[j],
            forall|j: int| i <= j < start.secrets.len() ==> #[trigger] circuit@.secrets[j] is None,
            goal == wrapped(start, nonces@, i as nat, current@),
            fits_route(
                start.hops,
                start.hops.len(),
                exit_cell(content, start.destination).len(),
            ) == fits_route(start.hops, i as nat, current@.len()),
            packet_len(
                start.hops,
                start.hops.len(),
                exit_cell(content, start.destination).len(),
            ) == packet_len(start.hops, i as nat, current@.len()),
            i == start.hops.len() ==> current@ == exit_cell(content, start.destination),
            wire::parse_content(exit_cell(content, start.destination)) == Some(
                ContentModel::Exit { payload: content, destination: start.destination },
            ),
            i < start.hops.len() ==> onion::travels(
                current@,
                start.hops,
                i as nat,
                content,
                start.destination,
            ),
        decreases i,
    {
        i = i - 1;
        let ghost inner = current@;
        match wrap_one(circuit, i, nonces[i], current) {
            Ok(layer) => {
                current = layer;
            },
            Err(e) => {
                return Err(e);
            },
        }
        proof {
            let key = start.hops[i as int].onion_key;
            let found = content_for(start, i as int, inner);
            if i + 1 == start.hops.len() {
                let told = ContentModel::Exit {
                    payload: content,
                    destination: start.destination,
                };
                onion::unlocking_tells(current@, key, found, told);
                onion::last_leg_travels(current@, start.hops, content, start.destination);
            } else {
                let told = ContentModel::Forward { next_hop: start.hops[i + 1].relay_id, inner };
                onion::unlocking_tells(current@, key, found, told);
                onion::leg_travels(
                    current@,
                    start.hops,
                    i as nat,
                    inner,
                    content,
                    start.destination,
                );
            }
        }
    }
    Ok(OnionPacket { layers: current })
}

/// Whether every nonce came from the random source, each in a call of its own.
pub open spec fn all_drawn(nonces: Seq<[u8; 12]>) -> bool {
    forall|i: int|
        0 <= i < nonces.len() ==> suite::drawn_nonce((#[trigger] nonces[i])@)
            && suite::drawn_nonce_number(i, nonces[i]@)
}

/// Wraps a payload into the layers of a route under random nonces. The
/// packet travels the whole route and delivers the payload.
pub fn wrap_layers(circuit: &mut OnionCircuit, payload: Vec<u8>) -> (result: Result<
    OnionPacket,
    MessengerError,
>)
    requires
        old(circuit)@.wf(),
    ensures
        final(circuit)@.wf(),
        final(circuit)@ == (CircuitModel { secrets: final(circuit)@.secrets, ..old(circuit)@ }),
        exists|nonces: Seq<[u8; 12]>|
            {
                &&& all_drawn(nonces)
                &&& nonces.len() == old(circuit)@.hops.len()
                &&& match #[trigger] wrap_result(old(circuit)@, nonces, payload@) {
                    Ok(layers) => result matches Ok(p) && p.layers@ == layers,
                    Err(e) => result == Err::<OnionPacket, _>(e),
                }
            },
        old(circuit)@.unused() ==> (result is Ok <==> old(circuit)@.hops.len() > 0 && fits_route(
            old(circuit)@.hops,
            old(circuit)@.hops.len(),
            exit_cell(payload@, old(circuit)@.destination).len(),
        )),
        old(circuit)@.unused() && old(circuit)@.hops.len() > 0 && result is Err ==> result == Err::<
            OnionPacket,
            _,
        >(MessengerError::Crypto(CryptoError::OnionLayerEncrypt)),
        result matches Ok(p) ==> {
            &&& p.layers@.len() == packet_len(
                old(circuit)@.hops,
                old(circuit)@.hops.len(),
                exit_cell(payload@, old(circuit)@.destination).len(),
            )
            &&& onion::travels(
                p.layers@,
                old(circuit)@.hops,
                0,
                payload@,
                old(circuit)@.destination,
            )
            &&& forall|i: int|
                0 <= i < final(circuit)@.secrets.len() ==> #[trigger] final(circuit)@.secrets[i] is None
        },
{
    let mut nonces: Vec<[u8; 12]> = Vec::new();
    let count: usize = circuit.len();
    let mut i: usize = 0;
    while i < count
        invariant
            i <= count,
            nonces@.len() == i,
            all_drawn(nonces@),
        decreases count - i,
    {
        nonces.push(suite::draw_nonce_number(i));
        i = i + 1;
    }
    let ghost before = circuit@;
    let ghost content = payload@;
    let result = wrap_layers_with(circuit, payload, &nonces);
    assert(match wrap_result(before, nonces@, content) {
        Ok(layers) => result matches Ok(p) && p.layers@ == layers,
        Err(e) => result == Err::<OnionPacket, _>(e),
    });
    result
}

/// Whatever makes a packet that one nonce of the cipher can cover fits its
/// route: nothing shorter than that is refused.
pub proof fn short_packets_fit(hops: Seq<HopModel>, count: nat, inner_len: nat)
    requires
        packet_len(hops, count, inner_len) <= 0x3f_ffff_ff80,
    ensures
        fits_route(hops, count, inner_len),
        inner_len <= packet_len(hops, count, inner_len),
    decreases count,
{
    if count > 0 {
        let len = content_len(hops, count - 1, inner_len);
        short_packets_fit(hops, (count - 1) as nat, (len + LAYER_OVERHEAD) as nat);
    }
}

} // verus!
