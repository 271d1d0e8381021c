//! Onion keys from a fixed list of relays.
use vstd::prelude::*;

use crate::config::StaticRelay;
use crate::encoding;
use crate::errors::MessengerError;
use crate::network::onion::RelayOnionKey;
use crate::network::relay::registry;
use crate::network::relay::registry::parse_hex_key;
use crate::network::relay::scoring::OnionKeySource;
use crate::table::Table;
use crate::types::RelayId;

verus! {

/// The keys of the first `count` of some configured relays; those with an
/// invalid key are left out.
pub open spec fn configured_keys(relays: Seq<StaticRelay>, count: nat) -> Map<Seq<char>, Seq<u8>>
    decreases count,
{
    if count == 0 {
        Map::empty()
    } else {
        let before = configured_keys(relays, (count - 1) as nat);
        let last = relays[count - 1];
        match registry::hex_key(last.onion_public_key_hex@) {
            Some(key) => before.insert(last.relay_id@, key),
            None => before,
        }
    }
}

/// The onion keys of the configured relays.
pub struct StaticOnionKeySource {
    keys: Table<RelayId, RelayOnionKey>,
}

impl View for StaticOnionKeySource {
    type V = Map<Seq<char>, Seq<u8>>;

    closed spec fn view(&self) -> Map<Seq<char>, Seq<u8>> {
        self.keys@.map_values(|k: [u8; 32]| k@)
    }
}

impl StaticOnionKeySource {
    /// No relay occurs twice.
    pub closed spec fn wf(&self) -> bool {
        self.keys.wf()
    }

    /// The keys of the configured relays. One with an invalid key is left
    /// out and does not affect the others.
    pub fn from_config(relays: &Vec<StaticRelay>) -> (source: Self)
        ensures
            source.wf(),
            source@ == configured_keys(relays@, relays@.len()),
    {
        let mut keys: Table<RelayId, RelayOnionKey> = Table::new();
        let mut i: usize = 0;
        assert(keys@.map_values(|k: [u8; 32]| k@) =~= configured_keys(relays@, 0));
        while i < relays.len()
            invariant
                i <= relays@.len(),
                keys.wf(),
                keys@.map_values(|k: [u8; 32]| k@) == configured_keys(relays@, i as nat),
            decreases relays@.len() - i,
        {
            let ghost before = keys@;
            match parse_hex_key(relays[i].onion_public_key_hex.as_str()) {
                Some(key) => {
                    keys.insert(relays[i].relay_id.clone(), key);
                    assert(keys@.map_values(|k: [u8; 32]| k@) =~= before.map_values(
                        |k: [u8; 32]| k@,
                    ).insert(relays@[i as int].relay_id@, key@));
                },
                None => {},
            }
            i = i + 1;
        }
        StaticOnionKeySource { keys }
    }
}

impl OnionKeySource for StaticOnionKeySource {
    open spec fn valid(&self) -> bool {
        self.wf()
    }

    open spec fn onion_key(&self, relay: Seq<char>) -> Option<Seq<u8>> {
        if self@.dom().contains(relay) {
            Some(self@[relay])
        } else {
            None
        }
    }

    fn fetch_onion_key(&self, relay: &RelayId) -> (key: Result<RelayOnionKey, MessengerError>) {
        match self.keys.get(relay) {
            Some(key) => Ok(*key),
            None => Err(MessengerError::OnionKeyNotFound(relay.clone())),
        }
    }
}

/// Whether a configured relay has a valid key and is the last one with its id
/// that has.
pub open spec fn is_last_valid(relays: Seq<StaticRelay>, i: int, id: Seq<char>) -> bool {
    &&& 0 <= i < relays.len()
    &&& relays[i].relay_id@ == id
    &&& registry::hex_key(relays[i].onion_public_key_hex@) is Some
    &&& forall|j: int|
        i < j < relays.len() && (#[trigger] relays[j]).relay_id@ == id ==> registry::hex_key(
            relays[j].onion_public_key_hex@,
        ) is None
}

/// Every configured relay with a valid key is known by it, of those with one id
/// the last; one with an invalid key does not affect the others.
pub proof fn configured_relays_have_their_keys(relays: Seq<StaticRelay>, count: nat)
    requires
        count <= relays.len(),
    ensures
        forall|id: Seq<char>| #[trigger]
            configured_keys(relays, count).dom().contains(id) ==> exists|i: int| #[trigger]
                is_last_valid(relays.take(count as int), i, id) && encoding::hex_value(
                    relays[i].onion_public_key_hex@,
                ) == Some(configured_keys(relays, count)[id]),
        forall|i: int|
            0 <= i < count && (encoding::hex_value(
                (#[trigger] relays[i]).onion_public_key_hex@,
            ) matches Some(v) && v.len() == 32) ==> configured_keys(relays, count).dom().contains(
                relays[i].relay_id@,
            ),
    decreases count,
{
    if count > 0 {
        let last = count - 1;
        configured_relays_have_their_keys(relays, last as nat);
        let fewer = relays.take(last);
        let all = relays.take(count as int);
        assert forall|id: Seq<char>| #[trigger]
            configured_keys(relays, count).dom().contains(id) implies exists|i: int| #[trigger]
            is_last_valid(all, i, id) && encoding::hex_value(relays[i].onion_public_key_hex@)
                == Some(configured_keys(relays, count)[id]) by {
            let valid = registry::hex_key(relays[last].onion_public_key_hex@) is Some;
            if relays[last].relay_id@ == id && valid {
                assert(is_last_valid(all, last, id));
            } else {
                assert(configured_keys(relays, last as nat).dom().contains(id));
                let i = choose|i: int| #[trigger]
                    is_last_valid(fewer, i, id) && encoding::hex_value(
                        relays[i].onion_public_key_hex@,
                    ) == Some(configured_keys(relays, last as nat)[id]);
                assert(fewer[i] == all[i]);
                assert forall|j: int|
                    i < j < all.len() && (#[trigger] all[j]).relay_id@
                        == id implies registry::hex_key(all[j].onion_public_key_hex@) is None by {
                    if j < last {
                        assert(fewer[j] == all[j]);
                    }
                }
                assert(is_last_valid(all, i, id));
            }
        }
    }
}

} // verus!
