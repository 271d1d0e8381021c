//! Choosing relays for a route: those with a known onion key that did not
//! fail too often in a row.
use vstd::prelude::*;

use crate::constants::{ONION_MAX_HOPS, ONION_MIN_HOPS, RELAY_FAILURE_THRESHOLD};
use crate::errors::MessengerError;
use crate::network::onion;
use crate::network::onion::{HopModel, OnionHop, RelayOnionKey};
use crate::table::Table;
use crate::types::RelayId;

verus! {

/// Where the onion keys of relays come from.
pub trait OnionKeySource {
    /// The source is in order.
    spec fn valid(&self) -> bool;

    /// The onion key of a relay, if it is known.
    spec fn onion_key(&self, relay: Seq<char>) -> Option<Seq<u8>>;

    /// The onion key of a relay.
    fn fetch_onion_key(&self, relay: &RelayId) -> (key: Result<RelayOnionKey, MessengerError>)
        requires
            self.valid(),
        ensures
            match self.onion_key(relay@) {
                Some(k) => key matches Ok(x) && x@ == k,
                None => key == Err::<RelayOnionKey, _>(MessengerError::OnionKeyNotFound(*relay)),
            },
    ;
}

/// Whether a relay failed too often in a row.
pub open spec fn excluded(failures: Map<Seq<char>, u32>, relay: Seq<char>) -> bool {
    failures.dom().contains(relay) && failures[relay] >= RELAY_FAILURE_THRESHOLD
}

/// The usable relays among the first `count` candidates, in their order.
pub open spec fn usable<K: OnionKeySource>(
    failures: Map<Seq<char>, u32>,
    keys: K,
    candidates: Seq<String>,
    count: nat,
) -> Seq<HopModel>
    decreases count,
{
    if count == 0 {
        Seq::empty()
    } else {
        let before = usable(failures, keys, candidates, (count - 1) as nat);
        let last = candidates[count - 1]@;
        if excluded(failures, last) {
            before
        } else {
            match keys.onion_key(last) {
                Some(onion_key) => before.push(HopModel { relay_id: last, onion_key }),
                None => before,
            }
        }
    }
}

/// Whether the candidate at a place can be used: it did not fail three times
/// in a row, and its onion key is known.
pub open spec fn works<K: OnionKeySource>(
    failures: Map<Seq<char>, u32>,
    keys: K,
    candidates: Seq<String>,
    place: int,
) -> bool {
    &&& 0 <= place < candidates.len()
    &&& failures.dom().contains(candidates[place]@) ==> failures[candidates[place]@] < 3
    &&& keys.onion_key(candidates[place]@) is Some
}

/// Whether some places of a list are in its order and all can be used.
pub open spec fn all_work<K: OnionKeySource>(
    failures: Map<Seq<char>, u32>,
    keys: K,
    candidates: Seq<String>,
    places: Seq<int>,
) -> bool {
    &&& forall|i: int|
        0 <= i < places.len() ==> #[trigger] works(failures, keys, candidates, places[i])
    &&& forall|i: int, j: int| 0 <= i < j < places.len() ==> places[i] < places[j]
}

/// Whether some relays are the candidates at some places, with their onion
/// keys, and these are the first places that can be used: none before the
/// last of them is passed over.
pub open spec fn first_working<K: OnionKeySource>(
    failures: Map<Seq<char>, u32>,
    keys: K,
    candidates: Seq<String>,
    hops: Seq<HopModel>,
    places: Seq<int>,
) -> bool {
    &&& all_work(failures, keys, candidates, places)
    &&& hops.len() == places.len()
    &&& forall|i: int|
        0 <= i < places.len() ==> (#[trigger] hops[i]).relay_id == candidates[places[i]]@
            && keys.onion_key(hops[i].relay_id) == Some(hops[i].onion_key)
    &&& forall|p: int|
        #![trigger works(failures, keys, candidates, p)]
        works(failures, keys, candidates, p) && places.len() > 0 && p <= places.last()
            ==> places.contains(p)
}

/// Whether some relays are the first candidates that can be used.
pub open spec fn are_first<K: OnionKeySource>(
    failures: Map<Seq<char>, u32>,
    keys: K,
    candidates: Seq<String>,
    hops: Seq<HopModel>,
) -> bool {
    exists|places: Seq<int>| #[trigger] first_working(failures, keys, candidates, hops, places)
}

/// Whether fewer than `count` candidates can be used.
pub open spec fn too_few<K: OnionKeySource>(
    failures: Map<Seq<char>, u32>,
    keys: K,
    candidates: Seq<String>,
    count: nat,
) -> bool {
    forall|places: Seq<int>| #[trigger]
        all_work(failures, keys, candidates, places) ==> places.len() < count
}

/// The places of the usable ones among the first `count` candidates.
spec fn places_of<K: OnionKeySource>(
    failures: Map<Seq<char>, u32>,
    keys: K,
    candidates: Seq<String>,
    count: nat,
) -> Seq<int>
    decreases count,
{
    if count == 0 {
        Seq::empty()
    } else {
        let before = places_of(failures, keys, candidates, (count - 1) as nat);
        if works(failures, keys, candidates, count - 1) {
            before.push(count - 1)
        } else {
            before
        }
    }
}

/// The usable candidates stand at the places that can be used.
proof fn places_match<K: OnionKeySource>(
    failures: Map<Seq<char>, u32>,
    keys: K,
    candidates: Seq<String>,
    count: nat,
)
    requires
        count <= candidates.len(),
    ensures
        first_working(
            failures,
            keys,
            candidates,
            usable(failures, keys, candidates, count),
            places_of(failures, keys, candidates, count),
        ),
        forall|i: int|
            0 <= i < places_of(failures, keys, candidates, count).len() ==> #[trigger] places_of(
                failures,
                keys,
                candidates,
                count,
            )[i] < count,
        forall|p: int| #[trigger]
            works(failures, keys, candidates, p) && p < count ==> places_of(
                failures,
                keys,
                candidates,
                count,
            ).contains(p),
    decreases count,
{
    let places = places_of(failures, keys, candidates, count);
    if count > 0 {
        let last = count - 1;
        let before = places_of(failures, keys, candidates, last as nat);
        places_match(failures, keys, candidates, last as nat);
        if works(failures, keys, candidates, last) {
            assert(places[before.len() as int] == last);
        }
        assert forall|p: int| #[trigger]
            works(failures, keys, candidates, p) && p < count implies places.contains(p) by {
            if p < last {
                let i = choose|i: int| 0 <= i < before.len() && before[i] == p;
                assert(places[i] == p);
            }
        }
    }
}

/// Whatever places can be used, the usable candidates are at least as many.
proof fn places_are_covered<K: OnionKeySource>(
    failures: Map<Seq<char>, u32>,
    keys: K,
    candidates: Seq<String>,
    places: Seq<int>,
)
    requires
        all_work(failures, keys, candidates, places),
    ensures
        places.len() <= usable(failures, keys, candidates, candidates.len()).len(),
{
    let all = places_of(failures, keys, candidates, candidates.len());
    places_match(failures, keys, candidates, candidates.len());
    assert(places.no_duplicates());
    assert(all.no_duplicates());
    places.unique_seq_to_set();
    all.unique_seq_to_set();
    assert(places.to_set().subset_of(all.to_set())) by {
        assert forall|p: int| places.to_set().contains(p) implies all.to_set().contains(p) by {
            let i = choose|i: int| 0 <= i < places.len() && places[i] == p;
            assert(works(failures, keys, candidates, places[i]));
        }
    }
    vstd::set_lib::lemma_len_subset(places.to_set(), all.to_set());
}

/// The usable candidates, as far as they are taken, are the first that can be
/// used; and there are too few where they do not suffice.
pub proof fn usable_are_first<K: OnionKeySource>(
    failures: Map<Seq<char>, u32>,
    keys: K,
    candidates: Seq<String>,
    count: nat,
)
    ensures
        ({
            let found = usable(failures, keys, candidates, candidates.len());
            &&& found.len() >= count ==> are_first(
                failures,
                keys,
                candidates,
                found.take(count as int),
            )
            &&& found.len() < count ==> too_few(failures, keys, candidates, count)
        }),
{
    let found = usable(failures, keys, candidates, candidates.len());
    let all = places_of(failures, keys, candidates, candidates.len());
    places_match(failures, keys, candidates, candidates.len());
    if found.len() >= count {
        let hops = found.take(count as int);
        let places = all.take(count as int);
        assert forall|i: int| 0 <= i < places.len() implies #[trigger] works(
            failures,
            keys,
            candidates,
            places[i],
        ) by {
            assert(works(failures, keys, candidates, all[i]));
        }
        assert forall|i: int| 0 <= i < places.len() implies (#[trigger] hops[i]).relay_id
            == candidates[places[i]]@ && keys.onion_key(hops[i].relay_id) == Some(
            hops[i].onion_key,
        ) by {
            assert(hops[i] == found[i]);
        }
        assert forall|p: int|
            #![trigger works(failures, keys, candidates, p)]
            works(failures, keys, candidates, p) && places.len() > 0 && p
                <= places.last() implies places.contains(p) by {
            let i = choose|i: int| 0 <= i < all.len() && all[i] == p;
            assert(all[count - 1] == places.last());
            if i >= count {
                assert(all[count - 1] < all[i]);
            }
            assert(places[i] == p);
        }
        assert(first_working(failures, keys, candidates, hops, places));
    } else {
        assert forall|places: Seq<int>| #[trigger]
            all_work(failures, keys, candidates, places) implies places.len() < count by {
            places_are_covered(failures, keys, candidates, places);
        }
    }
}

/// The number of relays that a route of about `hop_count` gets.
pub open spec fn route_len(hop_count: usize) -> usize {
    if hop_count < ONION_MIN_HOPS {
        ONION_MIN_HOPS
    } else if hop_count > ONION_MAX_HOPS {
        ONION_MAX_HOPS
    } else {
        hop_count
    }
}

/// Considering more candidates keeps the usable ones found before.
pub proof fn usable_grows<K: OnionKeySource>(
    failures: Map<Seq<char>, u32>,
    keys: K,
    candidates: Seq<String>,
    fewer: nat,
    more: nat,
)
    requires
        fewer <= more <= candidates.len(),
    ensures
        usable(failures, keys, candidates, fewer).len() <= usable(
            failures,
            keys,
            candidates,
            more,
        ).len(),
        usable(failures, keys, candidates, more).take(
            usable(failures, keys, candidates, fewer).len() as int,
        ) == usable(failures, keys, candidates, fewer),
    decreases more,
{
    let small = usable(failures, keys, candidates, fewer);
    if fewer < more {
        usable_grows(failures, keys, candidates, fewer, (more - 1) as nat);
        let before = usable(failures, keys, candidates, (more - 1) as nat);
        let after = usable(failures, keys, candidates, more);
        assert(after.take(small.len() as int) =~= before.take(small.len() as int));
    } else {
        assert(small.take(small.len() as int) =~= small);
    }
}

/// How often relays failed since they last worked. This is kept in memory
/// only: after a restart every relay gets another chance.
pub struct RelayScoring {
    consecutive_failures: Table<RelayId, u32>,
}

impl View for RelayScoring {
    type V = Map<Seq<char>, u32>;

    closed spec fn view(&self) -> Map<Seq<char>, u32> {
        self.consecutive_failures@
    }
}

impl RelayScoring {
    /// No relay occurs twice.
    pub closed spec fn wf(&self) -> bool {
        self.consecutive_failures.wf()
    }

    /// No failures yet.
    pub fn new() -> (scoring: Self)
        ensures
            scoring.wf(),
            scoring@ == Map::<Seq<char>, u32>::empty(),
    {
        RelayScoring { consecutive_failures: Table::new() }
    }

    /// A relay worked: its failures are forgotten.
    pub fn record_success(&mut self, relay: &RelayId)
        requires
            old(self).wf(),
        ensures
            final(self).wf(),
            final(self)@ == old(self)@.remove(relay@),
    {
        let ghost before = self@;
        let _ = self.consecutive_failures.remove(relay);
        assert(self@ =~= before.remove(relay@));
    }

    /// A relay failed once more. The count stays at its largest value.
    pub fn record_failure(&mut self, relay: &RelayId)
        requires
            old(self).wf(),
        ensures
            final(self).wf(),
            final(self)@ == old(self)@.insert(relay@, failures_after(old(self)@, relay@)),
            !old(self)@.dom().contains(relay@) ==> final(self)@[relay@] == 1,
            old(self)@.dom().contains(relay@) && old(self)@[relay@] < u32::MAX
                ==> final(self)@[relay@] == old(self)@[relay@] + 1,
            old(self)@.dom().contains(relay@) && old(self)@[relay@] == u32::MAX
                ==> final(self)@[relay@] == u32::MAX,
    {
        let count: u32 = match self.consecutive_failures.get(relay) {
            Some(count) => *count,
            None => 0,
        };
        self.consecutive_failures.insert(relay.clone(), count.saturating_add(1));
    }

    /// Whether a relay failed too often in a row.
    pub fn is_excluded(&self, relay: &RelayId) -> (result: bool)
        requires
            self.wf(),
        ensures
            result == excluded(self@, relay@),
            result == (self@.dom().contains(relay@) && self@[relay@] >= 3),
    {
        match self.consecutive_failures.get(relay) {
            Some(count) => *count >= RELAY_FAILURE_THRESHOLD,
            None => false,
        }
    }

    /// How many candidates to look at for a route of about `hop_count`
    /// relays.
    pub fn candidate_limit(hop_count: usize) -> (limit: u32)
        ensures
            limit == 4 * route_len(hop_count),
            hop_count <= 3 ==> limit == 12,
            3 <= hop_count <= 5 ==> limit == 4 * hop_count,
            hop_count >= 5 ==> limit == 20,
    {
        4 * (Self::route_length(hop_count) as u32)
    }

    /// The number of relays that a route of about `hop_count` gets.
    fn route_length(hop_count: usize) -> (len: usize)
        ensures
            len == route_len(hop_count),
    {
        if hop_count < ONION_MIN_HOPS {
            ONION_MIN_HOPS
        } else if hop_count > ONION_MAX_HOPS {
            ONION_MAX_HOPS
        } else {
            hop_count
        }
    }

    /// The hop for one candidate, if it is usable.
    fn usable_hop<K: OnionKeySource>(&self, relay: &RelayId, keys: &K) -> (hop: Option<OnionHop>)
        requires
            self.wf(),
            keys.valid(),
        ensures
            hop is Some <==> !excluded(self@, relay@) && keys.onion_key(relay@) is Some,
            hop matches Some(h) ==> h.relay_id@ == relay@ && keys.onion_key(relay@) == Some(
                h.onion_key@,
            ),
    {
        if self.is_excluded(relay) {
            return None;
        }
        match keys.fetch_onion_key(relay) {
            Ok(onion_key) => Some(OnionHop { relay_id: relay.clone(), onion_key }),
            Err(_) => None,
        }
    }

    /// Chooses the first usable candidates for a route. The candidates come
    /// best first. Too few usable ones are an error.
    pub fn select_hops<K: OnionKeySource>(
        &self,
        hop_count: usize,
        candidates: &Vec<RelayId>,
        keys: &K,
    ) -> (result: Result<Vec<OnionHop>, MessengerError>)
        requires
            self.wf(),
            keys.valid(),
        ensures
            ({
                let found = usable(self@, *keys, candidates@, candidates@.len());
                let wanted = route_len(hop_count);
                if found.len() >= wanted {
                    result matches Ok(hops) && onion::hop_models(hops@) == found.take(wanted as int)
                } else {
                    result == Err::<Vec<OnionHop>, _>(
                        MessengerError::OnionChainTooShort {
                            min: wanted,
                            got: found.len() as usize,
                        },
                    )
                }
            }),
            ({
                let wanted: nat = if hop_count < 3 {
                    3
                } else if hop_count > 5 {
                    5
                } else {
                    hop_count as nat
                };
                match result {
                    Ok(hops) => hops@.len() == wanted && are_first(
                        self@,
                        *keys,
                        candidates@,
                        onion::hop_models(hops@),
                    ),
                    Err(_) => too_few(self@, *keys, candidates@, wanted),
                }
            }),
    {
        proof {
            usable_are_first(self@, *keys, candidates@, route_len(hop_count) as nat);
        }
        let wanted: usize = Self::route_length(hop_count);
        let mut hops: Vec<OnionHop> = Vec::new();
        let mut i: usize = 0;
        while i < candidates.len() && hops.len() < wanted
            invariant
                self.wf(),
                keys.valid(),
                i <= candidates@.len(),
                hops@.len() <= wanted,
                onion::hop_models(hops@) =~= usable(self@, *keys, candidates@, i as nat),
            decreases candidates@.len() - i,
        {
            match self.usable_hop(&candidates[i], keys) {
                Some(hop) => {
                    hops.push(hop);
                    assert(onion::hop_models(hops@) =~= usable(
                        self@,
                        *keys,
                        candidates@,
                        i as nat,
                    ).push(hop@));
                },
                None => {},
            }
            i = i + 1;
        }
        proof {
            usable_grows(self@, *keys, candidates@, i as nat, candidates@.len());
        }
        if hops.len() < wanted {
            return Err(MessengerError::OnionChainTooShort { min: wanted, got: hops.len() });
        }
        Ok(hops)
    }

    /// Chooses the last relay of a route: the first usable one of those that
    /// the receiver asks for messages.
    pub fn select_exit_from<K: OnionKeySource>(&self, candidates: &Vec<RelayId>, keys: &K) -> (
        result: Result<OnionHop, MessengerError>)
        requires
            self.wf(),
            keys.valid(),
        ensures
            ({
                let found = usable(self@, *keys, candidates@, candidates@.len());
                if found.len() > 0 {
                    result matches Ok(hop) && hop@ == found[0]
                } else {
                    result == Err::<OnionHop, _>(
                        MessengerError::OnionChainTooShort { min: 1, got: 0 },
                    )
                }
            }),
            match result {
                Ok(hop) => are_first(self@, *keys, candidates@, seq![hop@]),
                Err(_) => too_few(self@, *keys, candidates@, 1),
            },
    {
        let mut i: usize = 0;
        while i < candidates.len()
            invariant
                self.wf(),
                keys.valid(),
                i <= candidates@.len(),
                usable(self@, *keys, candidates@, i as nat).len() == 0,
            decreases candidates@.len() - i,
        {
            match self.usable_hop(&candidates[i], keys) {
                Some(hop) => {
                    proof {
                        let found = usable(self@, *keys, candidates@, (i + 1) as nat);
                        assert(found[0] == hop@);
                        usable_grows(
                            self@,
                            *keys,
                            candidates@,
                            (i + 1) as nat,
                            candidates@.len(),
                        );
                        let all = usable(self@, *keys, candidates@, candidates@.len());
                        assert(all.take(1)[0] == all[0]);
                        usable_are_first(self@, *keys, candidates@, 1);
                        assert(all.take(1) =~= seq![hop@]);
                    }
                    return Ok(hop);
                },
                None => {},
            }
            i = i + 1;
        }
        proof {
            usable_are_first(self@, *keys, candidates@, 1);
        }
        Err(MessengerError::OnionChainTooShort { min: 1, got: 0 })
    }
}

/// The failure count of a relay after one more failure.
pub open spec fn failures_after(failures: Map<Seq<char>, u32>, relay: Seq<char>) -> u32 {
    if !failures.dom().contains(relay) {
        1
    } else if failures[relay] < u32::MAX {
        (failures[relay] + 1) as u32
    } else {
        u32::MAX
    }
}

/// The failures of a relay after `times` more failures in a row.
pub open spec fn failing(failures: Map<Seq<char>, u32>, relay: Seq<char>, times: nat) -> Map<
    Seq<char>,
    u32,
>
    decreases times,
{
    if times == 0 {
        failures
    } else {
        let before = failing(failures, relay, (times - 1) as nat);
        before.insert(relay, failures_after(before, relay))
    }
}

/// A relay that fails as often in a row as the threshold says is excluded,
/// whatever happened before; one success brings it back; other relays are
/// not affected by either.
pub proof fn failures_exclude_and_success_restores(
    failures: Map<Seq<char>, u32>,
    relay: Seq<char>,
    other: Seq<char>,
    times: nat,
)
    requires
        times >= RELAY_FAILURE_THRESHOLD,
        other != relay,
    ensures
        excluded(failing(failures, relay, times), relay),
        !excluded(failing(failures, relay, times).remove(relay), relay),
        excluded(failing(failures, relay, times), other) == excluded(failures, other),
{
    failures_count(failures, relay, other, times);
}

/// Failures in a row are counted.
proof fn failures_count(
    failures: Map<Seq<char>, u32>,
    relay: Seq<char>,
    other: Seq<char>,
    times: nat,
)
    requires
        other != relay,
    ensures
        times > 0 ==> failing(failures, relay, times).dom().contains(relay),
        times > 0 ==> failing(failures, relay, times)[relay] >= if times < u32::MAX {
            times
        } else {
            u32::MAX as nat
        },
        excluded(failing(failures, relay, times), other) == excluded(failures, other),
    decreases times,
{
    if times > 0 {
        failures_count(failures, relay, other, (times - 1) as nat);
    }
}

} // verus!
