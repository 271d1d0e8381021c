//! The relays that a bootstrap server reported.
use vstd::prelude::*;

use crate::bytes;
use crate::encoding;
use crate::errors::MessengerError;
use crate::network::onion::RelayOnionKey;
use crate::network::relay::scoring::OnionKeySource;
use crate::table::Table;
use crate::types::RelayId;

verus! {

/// What is known of one relay.
#[derive(Debug)]
pub struct RelayEntry {
    pub relay_id: String,
    /// Where to connect.
    pub address: String,
    pub onion_public_key: RelayOnionKey,
}

/// The 32-byte key in a hexadecimal text, if it is one.
pub open spec fn hex_key(text: Seq<char>) -> Option<Seq<u8>> {
    match encoding::hex_value(text) {
        Some(key) => if key.len() == 32 {
            Some(key)
        } else {
            None
        },
        None => None,
    }
}

/// The 32-byte key in a hexadecimal text, if it is one.
pub fn parse_hex_key(text: &str) -> (key: Option<[u8; 32]>)
    ensures
        match hex_key(text@) {
            Some(k) => key matches Some(x) && x@ == k,
            None => key is None,
        },
        key matches Some(k) ==> encoding::hex_value(text@) == Some(k@),
        key is None ==> (encoding::hex_value(text@) matches Some(v) ==> v.len() != 32),
{
    match encoding::hex_decode(text) {
        Some(data) => bytes::to_array32(data.as_slice()),
        None => None,
    }
}

impl RelayEntry {
    /// An entry with a hexadecimal onion key; `None` where that is not 64
    /// hexadecimal digits.
    pub fn from_hex_key(relay_id: String, address: String, onion_public_key_hex: &str) -> (entry:
        Option<Self>)
        ensures
            match hex_key(onion_public_key_hex@) {
                Some(k) => entry matches Some(e) && e.relay_id == relay_id && e.address == address
                    && e.onion_public_key@ == k,
                None => entry is None,
            },
    {
        match parse_hex_key(onion_public_key_hex) {
            Some(onion_public_key) => Some(RelayEntry { relay_id, address, onion_public_key }),
            None => None,
        }
    }

    /// An owned copy of this entry.
    pub fn copy(&self) -> (copy: Self)
        ensures
            copy == *self,
    {
        RelayEntry {
            relay_id: self.relay_id.clone(),
            address: self.address.clone(),
            onion_public_key: self.onion_public_key,
        }
    }
}

/// The registry that holds the first `count` of some entries: of two with
/// the same id the later one stays.
pub open spec fn registered(relays: Seq<RelayEntry>, count: nat) -> Map<Seq<char>, RelayEntry>
    decreases count,
{
    if count == 0 {
        Map::empty()
    } else {
        let last = relays[count - 1];
        registered(relays, (count - 1) as nat).insert(last.relay_id@, last)
    }
}

/// The entries with a valid key among the first `count` triples of id,
/// address and hexadecimal key, as far as an entry is determined by them.
pub open spec fn valid_entries(relays: Seq<(String, String, String)>, count: nat) -> Seq<
    (Seq<char>, Seq<char>, Seq<u8>),
>
    decreases count,
{
    if count == 0 {
        Seq::empty()
    } else {
        let before = valid_entries(relays, (count - 1) as nat);
        let (id, address, key) = relays[count - 1];
        match hex_key(key@) {
            Some(k) => before.push((id@, address@, k)),
            None => before,
        }
    }
}

/// Whether some parts are those of the triples at some places, in their order,
/// each with the key that its hexadecimal digits write; and no triple with a
/// key of 32 bytes is left out.
pub open spec fn valid_at(
    relays: Seq<(String, String, String)>,
    entries: Seq<(Seq<char>, Seq<char>, Seq<u8>)>,
    places: Seq<int>,
) -> bool {
    &&& entries.len() == places.len()
    &&& forall|k: int|
        0 <= k < places.len() ==> {
            &&& 0 <= #[trigger] places[k] < relays.len()
            &&& entries[k].0 == relays[places[k]].0@
            &&& entries[k].1 == relays[places[k]].1@
            &&& encoding::hex_value(relays[places[k]].2@) == Some(entries[k].2)
            &&& entries[k].2.len() == 32
        }
    &&& forall|k: int, l: int| 0 <= k < l < places.len() ==> places[k] < places[l]
    &&& forall|i: int|
        0 <= i < relays.len() ==> (encoding::hex_value((#[trigger] relays[i]).2@) matches Some(v)
            ==> v.len() == 32 ==> places.contains(i))
}

/// Where the valid entries stand.
pub proof fn valid_places(relays: Seq<(String, String, String)>, count: nat) -> (places: Seq<int>)
    requires
        count <= relays.len(),
    ensures
        valid_at(relays.take(count as int), valid_entries(relays, count), places),
    decreases count,
{
    if count == 0 {
        Seq::empty()
    } else {
        let last = count - 1;
        let fewer = relays.take(last);
        let all = relays.take(count as int);
        let before = valid_places(relays, last as nat);
        let good = hex_key(relays[last].2@) is Some;
        let places = if good {
            before.push(last)
        } else {
            before
        };
        let entries = valid_entries(relays, count);
        assert forall|k: int| 0 <= k < places.len() implies ({
            &&& 0 <= #[trigger] places[k] < all.len()
            &&& entries[k].0 == all[places[k]].0@
            &&& entries[k].1 == all[places[k]].1@
            &&& encoding::hex_value(all[places[k]].2@) == Some(entries[k].2)
            &&& entries[k].2.len() == 32
        }) by {
            if k < before.len() {
                assert(0 <= before[k] < fewer.len());
                assert(fewer[before[k]] == all[before[k]]);
            }
        }
        assert forall|i: int| 0 <= i < all.len() && (encoding::hex_value(
            (#[trigger] all[i]).2@,
        ) matches Some(v) && v.len() == 32) implies places.contains(i) by {
            if i < last {
                assert(fewer[i] == all[i]);
                let k = choose|k: int| 0 <= k < before.len() && before[k] == i;
                assert(places[k] == i);
            } else {
                assert(places[before.len() as int] == i);
            }
        }
        places
    }
}

/// Whether an entry is the last one with an id.
pub open spec fn is_last_with_id(relays: Seq<RelayEntry>, i: int, id: Seq<char>) -> bool {
    &&& 0 <= i < relays.len()
    &&& relays[i].relay_id@ == id
    &&& forall|j: int| i < j < relays.len() ==> (#[trigger] relays[j]).relay_id@ != id
}

/// Of entries with one id the last one stays, and every id stays.
pub proof fn later_entries_stay(relays: Seq<RelayEntry>, count: nat)
    requires
        count <= relays.len(),
    ensures
        forall|id: Seq<char>| #[trigger]
            registered(relays, count).dom().contains(id) ==> exists|i: int| #[trigger]
                is_last_with_id(relays.take(count as int), i, id) && registered(
                    relays,
                    count,
                )[id] == relays[i],
        forall|i: int|
            0 <= i < count ==> registered(relays, count).dom().contains(
                (#[trigger] relays[i]).relay_id@,
            ),
        relays.take(relays.len() as int) == relays,
    decreases count,
{
    assert(relays.take(relays.len() as int) =~= relays);
    if count > 0 {
        let last = count - 1;
        later_entries_stay(relays, last as nat);
        let fewer = relays.take(last);
        let all = relays.take(count as int);
        assert forall|id: Seq<char>| #[trigger]
            registered(relays, count).dom().contains(id) implies exists|i: int| #[trigger]
            is_last_with_id(all, i, id) && registered(relays, count)[id] == relays[i] by {
            if relays[last].relay_id@ == id {
                assert(is_last_with_id(all, last, id));
            } else {
                assert(registered(relays, last as nat).dom().contains(id));
                let i = choose|i: int| #[trigger]
                    is_last_with_id(fewer, i, id) && registered(relays, last as nat)[id]
                        == relays[i];
                assert forall|j: int| i < j < all.len() implies (#[trigger] all[j]).relay_id@
                    != id by {
                    if j < last {
                        assert(fewer[j] == all[j]);
                    }
                }
                assert(fewer[i] == all[i]);
                assert(is_last_with_id(all, i, id));
            }
        }
        assert forall|i: int| 0 <= i < count implies registered(relays, count).dom().contains(
            (#[trigger] relays[i]).relay_id@,
        ) by {
            if i < last {
                assert(registered(relays, last as nat).dom().contains(relays[i].relay_id@));
            }
        }
    }
}

/// The parts of some entries.
pub open spec fn entry_parts(entries: Seq<RelayEntry>) -> Seq<(Seq<char>, Seq<char>, Seq<u8>)> {
    entries.map_values(|e: RelayEntry| (e.relay_id@, e.address@, e.onion_public_key@))
}

/// The values of some names.
pub open spec fn names(list: Seq<String>) -> Seq<Seq<char>> {
    list.map_values(|s: String| s@)
}

/// Whether a list holds the entries of a registry, each once, in the order of
/// `ids`.
pub open spec fn lists_entries(
    list: Seq<RelayEntry>,
    entries: Map<Seq<char>, RelayEntry>,
    ids: Seq<Seq<char>>,
) -> bool {
    &&& ids.no_duplicates()
    &&& forall|id: Seq<char>| ids.contains(id) <==> #[trigger] entries.dom().contains(id)
    &&& list.len() == ids.len()
    &&& forall|i: int| 0 <= i < list.len() ==> #[trigger] list[i] == entries[ids[i]]
}

/// The relays that are known right now.
pub struct RelayRegistry {
    entries: Table<RelayId, RelayEntry>,
}

impl View for RelayRegistry {
    type V = Map<Seq<char>, RelayEntry>;

    closed spec fn view(&self) -> Map<Seq<char>, RelayEntry> {
        self.entries@
    }
}

impl RelayRegistry {
    /// No relay occurs twice.
    pub closed spec fn wf(&self) -> bool {
        self.entries.wf()
    }

    /// A registry without relays.
    pub fn new() -> (registry: Self)
        ensures
            registry.wf(),
            registry@ == Map::<Seq<char>, RelayEntry>::empty(),
    {
        RelayRegistry { entries: Table::new() }
    }

    /// Replaces all relays by the given ones.
    pub fn update(&mut self, relays: &Vec<RelayEntry>)
        ensures
            final(self).wf(),
            final(self)@ == registered(relays@, relays@.len()),
            forall|id: Seq<char>| #[trigger]
                final(self)@.dom().contains(id) ==> exists|i: int| #[trigger]
                    is_last_with_id(relays@, i, id) && final(self)@[id] == relays@[i],
            forall|i: int|
                0 <= i < relays@.len() ==> final(self)@.dom().contains(
                    (#[trigger] relays@[i]).relay_id@,
                ),
    {
        proof {
            later_entries_stay(relays@, relays@.len());
        }
        let mut entries: Table<RelayId, RelayEntry> = Table::new();
        let mut i: usize = 0;
        while i < relays.len()
            invariant
                i <= relays@.len(),
                entries.wf(),
                entries@ == registered(relays@, i as nat),
            decreases relays@.len() - i,
        {
            let entry = relays[i].copy();
            entries.insert(entry.relay_id.clone(), entry);
            i = i + 1;
        }
        self.entries = entries;
    }

    /// The ids of the relays, each once.
    pub fn relay_ids(&self) -> (ids: Vec<RelayId>)
        requires
            self.wf(),
        ensures
            names(ids@).no_duplicates(),
            forall|id: Seq<char>| names(ids@).contains(id) <==> #[trigger] self@.dom().contains(id),
    {
        let mut ids: Vec<RelayId> = Vec::new();
        let mut i: usize = 0;
        while i < self.entries.len()
            invariant
                self.wf(),
                i <= self.entries.order().len(),
                names(ids@) =~= self.entries.order().take(i as int),
            decreases self.entries.order().len() - i,
        {
            ids.push(self.entries.key_at(i).clone());
            assert(names(ids@) =~= self.entries.order().take(i as int).push(
                self.entries.order()[i as int],
            ));
            assert(self.entries.order().take(i as int).push(self.entries.order()[i as int])
                =~= self.entries.order().take(i + 1));
            i = i + 1;
        }
        proof {
            self.entries.order_is_complete();
            assert(names(ids@) =~= self.entries.order());
        }
        ids
    }

    /// The entries of all relays, each once.
    pub fn all_entries(&self) -> (list: Vec<RelayEntry>)
        requires
            self.wf(),
        ensures
            exists|ids: Seq<Seq<char>>| #[trigger] lists_entries(list@, self@, ids),
    {
        let mut list: Vec<RelayEntry> = Vec::new();
        let mut i: usize = 0;
        while i < self.entries.len()
            invariant
                self.wf(),
                i <= self.entries.order().len(),
                list@.len() == i,
                forall|j: int|
                    0 <= j < i ==> #[trigger] list@[j] == self@[self.entries.order()[j]]
                        && self@.dom().contains(self.entries.order()[j]),
            decreases self.entries.order().len() - i,
        {
            list.push(self.entries.value_at(i).copy());
            i = i + 1;
        }
        proof {
            self.entries.order_is_complete();
            assert(lists_entries(list@, self@, self.entries.order()));
        }
        list
    }

    /// Whether no relay is known.
    pub fn is_empty(&self) -> (empty: bool)
        requires
            self.wf(),
        ensures
            empty == (self@ == Map::<Seq<char>, RelayEntry>::empty()),
    {
        proof {
            self.entries.order_is_complete();
        }
        self.entries.len() == 0
    }

    /// The entries of triples of id, address and hexadecimal key. Triples
    /// with an invalid key are left out.
    pub fn entries_from_hex(relays: &Vec<(String, String, String)>) -> (entries: Vec<RelayEntry>)
        ensures
            entry_parts(entries@) == valid_entries(relays@, relays@.len()),
            exists|places: Seq<int>| #[trigger]
                valid_at(relays@, entry_parts(entries@), places),
    {
        proof {
            let places = valid_places(relays@, relays@.len());
            assert(relays@.take(relays@.len() as int) =~= relays@);
            assert(valid_at(relays@, valid_entries(relays@, relays@.len()), places));
        }
        let mut entries: Vec<RelayEntry> = Vec::new();
        let mut i: usize = 0;
        while i < relays.len()
            invariant
                i <= relays@.len(),
                entry_parts(entries@) =~= valid_entries(relays@, i as nat),
            decreases relays@.len() - i,
        {
            let (relay_id, address, key) = &relays[i];
            match RelayEntry::from_hex_key(relay_id.clone(), address.clone(), key.as_str()) {
                Some(entry) => {
                    entries.push(entry);
                    assert(entry_parts(entries@) =~= valid_entries(relays@, i as nat).push(
                        (entry.relay_id@, entry.address@, entry.onion_public_key@),
                    ));
                },
                None => {},
            }
            i = i + 1;
        }
        entries
    }
}

impl OnionKeySource for RelayRegistry {
    open spec fn valid(&self) -> bool {
        self.wf()
    }

    open spec fn onion_key(&self, relay: Seq<char>) -> Option<Seq<u8>> {
        if self@.dom().contains(relay) {
            Some(self@[relay].onion_public_key@)
        } else {
            None
        }
    }

    fn fetch_onion_key(&self, relay: &RelayId) -> (key: Result<RelayOnionKey, MessengerError>) {
        match self.entries.get(relay) {
            Some(entry) => Ok(entry.onion_public_key),
            None => Err(MessengerError::OnionKeyNotFound(relay.clone())),
        }
    }
}

/// An update leaves no relay of before: only ids of the new list are known.
pub proof fn updates_replace_everything(relays: Seq<RelayEntry>, count: nat, id: Seq<char>)
    requires
        count <= relays.len(),
    ensures
        registered(relays, count).dom().contains(id) <==> exists|i: int|
            0 <= i < count && #[trigger] relays[i].relay_id@ == id,
    decreases count,
{
    if count > 0 {
        updates_replace_everything(relays, (count - 1) as nat, id);
        if relays[count - 1].relay_id@ == id {
            assert(registered(relays, count).dom().contains(id));
        }
    }
}

} // verus!
