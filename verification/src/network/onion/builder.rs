//! A route through relays, with a fresh ephemeral key for each.
use vstd::prelude::*;

use crate::constants::{ONION_MAX_HOPS, ONION_MIN_HOPS};
use crate::crypto;
use crate::crypto::suite;
use crate::errors::MessengerError;
use crate::network::onion;
use crate::network::onion::{HopModel, OnionHop};
use crate::types::{DestinationHint, DestinationModel};

verus! {

/// A route: its relays from the first to the last, and for each of them an
/// ephemeral key that is used once.
pub struct OnionCircuit {
    pub hops: Vec<OnionHop>,
    pub(crate) ephemeral_secrets: Vec<Option<[u8; 32]>>,
    pub(crate) ephemeral_publics: Vec<[u8; 32]>,
    pub destination: DestinationHint,
}

/// A route as it is compared.
#[verifier::ext_equal]
pub struct CircuitModel {
    pub hops: Seq<HopModel>,
    /// The ephemeral secrets that were not used yet.
    pub secrets: Seq<Option<Seq<u8>>>,
    pub publics: Seq<Seq<u8>>,
    pub destination: DestinationModel,
}

impl View for OnionCircuit {
    type V = CircuitModel;

    closed spec fn view(&self) -> CircuitModel {
        CircuitModel {
            hops: onion::hop_models(self.hops@),
            secrets: self.ephemeral_secrets@.map_values(
                |s: Option<[u8; 32]>| crypto::key_model(s),
            ),
            publics: self.ephemeral_publics@.map_values(|k: [u8; 32]| k@),
            destination: self.destination@,
        }
    }
}

impl CircuitModel {
    /// There is one ephemeral key for each relay, and an unused secret
    /// belongs to its public key.
    pub open spec fn wf(self) -> bool {
        &&& self.secrets.len() == self.hops.len()
        &&& self.publics.len() == self.hops.len()
        &&& forall|i: int|
            0 <= i < self.hops.len() ==> (#[trigger] self.secrets[i] matches Some(s) ==> s.len()
                == 32 && suite::x25519_public(s) == self.publics[i])
    }

    /// No ephemeral secret was used yet.
    pub open spec fn unused(self) -> bool {
        forall|i: int| 0 <= i < self.secrets.len() ==> #[trigger] self.secrets[i] is Some
    }
}

impl OnionCircuit {
    /// The parts of a route, for the code that wraps layers.
    pub(crate) proof fn parts(&self)
        ensures
            self@.hops == onion::hop_models(self.hops@),
            self@.destination == self.destination@,
            self@.hops.len() == self.hops@.len(),
            self@.secrets.len() == self.ephemeral_secrets@.len(),
    {
    }

    /// The ephemeral public key that a relay of the route will see.
    pub fn ephemeral_public_for_hop(&self, index: usize) -> (public: [u8; 32])
        requires
            index < self@.publics.len(),
        ensures
            public@ == self@.publics[index as int],
    {
        self.ephemeral_publics[index]
    }

    /// Takes the ephemeral secret of a relay; a second call gives `None`.
    pub fn take_ephemeral_secret(&mut self, index: usize) -> (secret: Option<[u8; 32]>)
        requires
            index < old(self)@.secrets.len(),
        ensures
            crypto::key_model(secret) == old(self)@.secrets[index as int],
            final(self)@ == (CircuitModel {
                secrets: old(self)@.secrets.update(index as int, None),
                ..old(self)@
            }),
    {
        let ghost before = self@;
        let secret: Option<[u8; 32]> = self.ephemeral_secrets[index];
        self.ephemeral_secrets.set(index, None);
        assert(self@.secrets =~= before.secrets.update(index as int, None));
        secret
    }

    /// The number of relays.
    pub fn len(&self) -> (len: usize)
        ensures
            len == self@.hops.len(),
    {
        self.hops.len()
    }

    /// Whether the route has no relay.
    pub fn is_empty(&self) -> (empty: bool)
        ensures
            empty == (self@.hops.len() == 0),
    {
        self.hops.len() == 0
    }
}

/// Why a route of some length is refused: it has too few relays to hide its
/// ends, or more than help.
pub open spec fn route_fault(hops: nat) -> Option<MessengerError> {
    if hops < ONION_MIN_HOPS {
        Some(MessengerError::OnionChainTooShort { min: ONION_MIN_HOPS, got: hops as usize })
    } else if hops > ONION_MAX_HOPS {
        Some(MessengerError::OnionChainTooLong { max: ONION_MAX_HOPS, got: hops as usize })
    } else {
        None
    }
}

/// A route through relays that were chosen already. Too few of them are
/// refused, and so are too many.
pub fn build_circuit(selected_hops: Vec<OnionHop>, destination: DestinationHint) -> (result: Result<
    OnionCircuit,
    MessengerError,
>)
    ensures
        match route_fault(selected_hops@.len()) {
            Some(fault) => result == Err::<OnionCircuit, _>(fault),
            None => {
                &&& result matches Ok(c)
                &&& c@.wf()
                &&& c@.unused()
                &&& c@.destination == destination@
                &&& c@.hops == onion::hop_models(selected_hops@)
                &&& forall|i: int|
                    0 <= i < c@.secrets.len() ==> (#[trigger] c@.secrets[i] matches Some(s)
                        && suite::drawn_key(s) && suite::drawn_key_number(i, s))
            },
        },
        result is Ok <==> 3 <= selected_hops@.len() <= 5,
        selected_hops@.len() < 3 ==> result == Err::<OnionCircuit, _>(
            MessengerError::OnionChainTooShort { min: 3, got: selected_hops@.len() as usize },
        ),
        selected_hops@.len() > 5 ==> result == Err::<OnionCircuit, _>(
            MessengerError::OnionChainTooLong { max: 5, got: selected_hops@.len() as usize },
        ),
        result matches Ok(c) ==> c@.secrets.len() == c@.hops.len() && c@.hops.len()
            == selected_hops@.len(),
{
    if selected_hops.len() < ONION_MIN_HOPS {
        return Err(
            MessengerError::OnionChainTooShort { min: ONION_MIN_HOPS, got: selected_hops.len() },
        );
    }
    if selected_hops.len() > ONION_MAX_HOPS {
        return Err(
            MessengerError::OnionChainTooLong { max: ONION_MAX_HOPS, got: selected_hops.len() },
        );
    }
    let hops = selected_hops;
    let mut ephemeral_secrets: Vec<Option<[u8; 32]>> = Vec::new();
    let mut ephemeral_publics: Vec<[u8; 32]> = Vec::new();
    let mut i: usize = 0;
    while i < hops.len()
        invariant
            i <= hops@.len(),
            ephemeral_secrets@.len() == i,
            ephemeral_publics@.len() == i,
            forall|j: int|
                0 <= j < i ==> (#[trigger] ephemeral_secrets@[j] matches Some(s)
                    && suite::x25519_public(s@) == ephemeral_publics@[j]@ && suite::drawn_key(s@)
                    && suite::drawn_key_number(j, s@)),
        decreases hops@.len() - i,
    {
        let secret: [u8; 32] = suite::draw_key_number(i);
        ephemeral_publics.push(suite::x25519_public_key(&secret));
        ephemeral_secrets.push(Some(secret));
        i = i + 1;
    }
    Ok(OnionCircuit { hops, ephemeral_secrets, ephemeral_publics, destination })
}

} // verus!
