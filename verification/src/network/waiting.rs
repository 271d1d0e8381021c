//! Work that has to wait until the prekeys of strangers were looked up.
use vstd::prelude::*;

use crate::network::dispatcher;
use crate::network::dispatcher::IncomingPlan;
use crate::network::p2p::LookupResult;
use crate::protocol::{DhtRecord, Packet, PacketType, PreKeyBundleRecord};
use crate::session::manager;
use crate::session::manager::SessionManager;
use crate::storage::mailbox_store;
use crate::storage::session_store;
use crate::storage::session_store::SessionStore;
use crate::table::Table;
use crate::types::{SessionId, UserId};
use crate::wire;

verus! {

/// The sender of a first message, by the payload that carries it.
pub open spec fn newcomer(payload: Seq<u8>) -> Option<Seq<char>> {
    match wire::parse_envelope(payload) {
        Some(e) => if e.session_init is Some {
            Some(e.sender_id)
        } else {
            None
        },
        None => None,
    }
}

/// The senders of the first messages among the first `count` payloads, in
/// their order.
pub open spec fn newcomers(payloads: Seq<Seq<u8>>, count: nat) -> Seq<Seq<char>>
    decreases count,
{
    if count == 0 {
        Seq::empty()
    } else {
        let before = newcomers(payloads, (count - 1) as nat);
        match newcomer(payloads[count - 1]) {
            Some(name) => before.push(name),
            None => before,
        }
    }
}

/// The names of users.
pub open spec fn names(users: Seq<UserId>) -> Seq<Seq<char>> {
    users.map_values(|u: UserId| u@)
}

/// The sender of the first message that a packet carries.
pub fn newcomer_in(packet: &Packet) -> (user: Option<UserId>)
    ensures
        match newcomer(packet.encrypted_payload@) {
            Some(name) => user matches Some(u) && u@ == name,
            None => user is None,
        },
{
    match manager::envelope_of(packet) {
        Ok(envelope) => match envelope.session_init {
            Some(_) => Some(envelope.sender_id),
            None => None,
        },
        Err(_) => None,
    }
}

/// Whose prekeys handling a packet from a peer may take: those of the sender
/// of a first message for this node.
pub fn newcomers_in_request(packet: &Packet, our_onion_secret: &[u8; 32]) -> (users: Vec<UserId>)
    ensures
        exists|plan: IncomingPlan|
            {
                &&& #[trigger] dispatcher::plan_fits(plan, packet@, our_onion_secret@)
                &&& names(users@) == if plan is Decrypt {
                    newcomers(seq![packet.encrypted_payload@], 1)
                } else {
                    Seq::empty()
                }
            },
{
    let plan = dispatcher::plan_incoming(packet, our_onion_secret);
    let ghost decided = plan;
    let mut users: Vec<UserId> = Vec::new();
    proof {
        assert(names(users@) =~= Seq::empty());
        reveal_with_fuel(newcomers, 2);
    }
    match plan {
        IncomingPlan::Decrypt => match newcomer_in(packet) {
            Some(user) => {
                users.push(user);
                assert(names(users@) =~= newcomers(seq![packet.encrypted_payload@], 1));
            },
            None => {},
        },
        _ => {},
    }
    assert(dispatcher::plan_fits(decided, packet@, our_onion_secret@));
    users
}

/// Whose prekeys handling an answer may take: those of the senders of the
/// first messages that waited in a mailbox.
pub fn newcomers_in_response(response: &Packet) -> (users: Vec<UserId>)
    ensures
        match wire::parse_batch(response.encrypted_payload@) {
            Some(payloads) if response.kind == PacketType::MailboxFetch.number() => {
                names(users@) == newcomers(payloads, payloads.len())
            },
            _ => users@.len() == 0,
        },
{
    let mut users: Vec<UserId> = Vec::new();
    let packets = match dispatcher::mailbox_messages(response) {
        Some(packets) => packets,
        None => {
            return users;
        },
    };
    let ghost payloads = wire::parse_batch(response.encrypted_payload@)->Some_0;
    let mut i: usize = 0;
    assert(dispatcher::packet_models(packets@).len() == dispatcher::direct_packets(payloads).len());
    while i < packets.len()
        invariant
            i <= packets@.len(),
            packets@.len() == payloads.len(),
            dispatcher::packet_models(packets@) == dispatcher::direct_packets(payloads),
            names(users@) =~= newcomers(payloads, i as nat),
        decreases packets@.len() - i,
    {
        assert(dispatcher::packet_models(packets@)[i as int] == dispatcher::direct_packets(
            payloads,
        )[i as int]);
        let ghost before = users@;
        match newcomer_in(&packets[i]) {
            Some(user) => {
                users.push(user);
                assert(names(users@) =~= names(before).push(user@));
            },
            None => {},
        }
        i = i + 1;
    }
    users
}

/// The users among some with whom there is no session in memory: their first
/// messages set up new ones.
pub fn not_in_memory(users: &Vec<UserId>, session_manager: &SessionManager) -> (found: Vec<UserId>)
    requires
        session_manager.wf(),
    ensures
        found@ == mailbox_store::keep(
            users@,
            |u: UserId| !session_manager@.sessions.dom().contains(u@),
        ),
{
    let ghost lacking = |u: UserId| !session_manager@.sessions.dom().contains(u@);
    let mut found: Vec<UserId> = Vec::new();
    let mut i: usize = 0;
    assert(users@.take(0) =~= Seq::empty());
    while i < users.len()
        invariant
            session_manager.wf(),
            i <= users@.len(),
            lacking == |u: UserId| !session_manager@.sessions.dom().contains(u@),
            found@ == mailbox_store::keep(users@.take(i as int), lacking),
        decreases users@.len() - i,
    {
        proof {
            mailbox_store::keep_next(users@, i as int, lacking);
        }
        if !session_manager.has_session(&users[i]) {
            found.push(users[i].clone());
        }
        i = i + 1;
    }
    assert(users@.take(i as int) =~= users@);
    found
}

/// The users among some with whom there is no session, neither in memory nor
/// stored, as far as the store can tell: a text to them sets up a new one.
pub fn strangers<S: SessionStore>(
    users: &Vec<UserId>,
    session_manager: &SessionManager,
    store: &S,
) -> (found: Vec<UserId>)
    requires
        session_manager.wf(),
    ensures
        forall|i: int|
            0 <= i < found@.len() ==> manager::found_session(
                session_manager@,
                session_store::store_model(*store),
                (#[trigger] found@[i])@,
            ) is None,
        store.dependable() ==> found@ == mailbox_store::keep(
            users@,
            |u: UserId|
                manager::found_session(
                    session_manager@,
                    session_store::store_model(*store),
                    u@,
                ) is None,
        ),
{
    let ghost lacking = |u: UserId|
        manager::found_session(
            session_manager@,
            session_store::store_model(*store),
            u@,
        ) is None;
    let mut found: Vec<UserId> = Vec::new();
    let mut i: usize = 0;
    assert(users@.take(0) =~= Seq::empty());
    while i < users.len()
        invariant
            session_manager.wf(),
            i <= users@.len(),
            lacking == |u: UserId|
                manager::found_session(
                    session_manager@,
                    session_store::store_model(*store),
                    u@,
                ) is None,
            forall|j: int| 0 <= j < found@.len() ==> lacking(#[trigger] found@[j]),
            store.dependable() ==> found@ == mailbox_store::keep(users@.take(i as int), lacking),
        decreases users@.len() - i,
    {
        proof {
            mailbox_store::keep_next(users@, i as int, lacking);
        }
        if !session_manager.has_session(&users[i]) {
            match store.load(&SessionId::for_peer(&users[i])) {
                Ok(None) => {
                    let user: UserId = users[i].clone();
                    assert(lacking(user));
                    found.push(user);
                },
                _ => {},
            }
        }
        i = i + 1;
    }
    proof {
        assert(users@.take(i as int) =~= users@);
        assert forall|j: int| 0 <= j < found@.len() implies manager::found_session(
            session_manager@,
            session_store::store_model(*store),
            (#[trigger] found@[j])@,
        ) is None by {
            assert(lacking(found@[j]));
        }
    }
    found
}

/// The two lookups that lead to the prekeys of a user, and what they found:
/// nothing yet, or a record, or that there is none.
pub struct BundleJob {
    pub user_lookup: u64,
    pub prekey_lookup: u64,
    pub user: Option<Option<DhtRecord>>,
    pub prekeys: Option<Option<PreKeyBundleRecord>>,
}

/// What the two lookups for a user found.
pub struct FoundRecords {
    pub user_id: UserId,
    pub user: Option<DhtRecord>,
    pub prekeys: Option<PreKeyBundleRecord>,
}

/// Work that waits, by its number and by the users whose prekeys it takes.
pub type Waiting = (u64, Vec<UserId>);

/// Work that waits for lookups, and the lookups that are under way.
pub struct WaitingRoom {
    pub jobs: Table<UserId, BundleJob>,
    /// The waiting work in the order of its arrival.
    pub waiting: Vec<Waiting>,
}

/// The users among the first `count` of some for whom no lookups are under
/// way, each once.
pub open spec fn without_job(
    jobs: Map<Seq<char>, BundleJob>,
    users: Seq<UserId>,
    count: nat,
) -> Seq<Seq<char>>
    decreases count,
{
    if count == 0 {
        Seq::empty()
    } else {
        let before = without_job(jobs, users, (count - 1) as nat);
        let name = users[count - 1]@;
        if jobs.dom().contains(name) || before.contains(name) {
            before
        } else {
            before.push(name)
        }
    }
}

/// Whether a lookup is one of a job's.
pub open spec fn awaits(job: BundleJob, lookup: u64) -> bool {
    job.user_lookup == lookup || job.prekey_lookup == lookup
}

/// A job once one of its lookups has ended.
pub open spec fn noted(job: BundleJob, lookup: u64, found: LookupResult) -> BundleJob {
    if job.user_lookup == lookup {
        BundleJob {
            user: Some(
                match found {
                    LookupResult::FoundUser(record) => Some(record),
                    _ => None,
                },
            ),
            ..job
        }
    } else {
        BundleJob {
            prekeys: Some(
                match found {
                    LookupResult::FoundPreKeys(record) => Some(record),
                    _ => None,
                },
            ),
            ..job
        }
    }
}

/// Whether work has nothing to wait for any more.
pub open spec fn settled(work: Waiting, jobs: Map<Seq<char>, BundleJob>) -> bool {
    forall|i: int| 0 <= i < work.1@.len() ==> !jobs.dom().contains((#[trigger] work.1@[i])@)
}

/// Whether lookups are under way for one of some users.
pub open spec fn still_waits(users: Seq<UserId>, jobs: Map<Seq<char>, BundleJob>) -> bool {
    exists|j: int| 0 <= j < users.len() && jobs.dom().contains((#[trigger] users[j])@)
}

/// The numbers of work.
pub open spec fn numbers(work: Seq<Waiting>) -> Seq<u64> {
    work.map_values(|w: Waiting| w.0)
}

/// Whether a name is among some.
fn contains_name(users: &Vec<UserId>, user: &UserId) -> (found: bool)
    ensures
        found == names(users@).contains(user@),
{
    let mut i: usize = 0;
    while i < users.len()
        invariant
            i <= users@.len(),
            forall|j: int| 0 <= j < i ==> names(users@)[j] != user@,
        decreases users@.len() - i,
    {
        if users[i] == *user {
            assert(names(users@)[i as int] == user@);
            return true;
        }
        i = i + 1;
    }
    false
}

impl WaitingRoom {
    /// Nothing waits.
    pub fn new() -> (room: Self)
        ensures
            room.jobs.wf(),
            room.jobs@ == Map::<Seq<char>, BundleJob>::empty(),
            room.waiting@ == Seq::<Waiting>::empty(),
    {
        WaitingRoom { jobs: Table::new(), waiting: Vec::new() }
    }

    /// Lets work wait for the prekeys of some users. Returns the users for
    /// whom lookups have to be started.
    pub fn wait(&mut self, number: u64, needed: Vec<UserId>) -> (to_start: Vec<UserId>)
        requires
            old(self).jobs.wf(),
        ensures
            final(self).jobs == old(self).jobs,
            final(self).waiting@ == old(self).waiting@.push((number, needed)),
            names(to_start@) == without_job(old(self).jobs@, needed@, needed@.len()),
    {
        let mut to_start: Vec<UserId> = Vec::new();
        let mut i: usize = 0;
        assert(names(to_start@) =~= Seq::empty());
        while i < needed.len()
            invariant
                self.jobs.wf(),
                i <= needed@.len(),
                names(to_start@) =~= without_job(self.jobs@, needed@, i as nat),
            decreases needed@.len() - i,
        {
            let ghost before = to_start@;
            if !self.jobs.contains_key(&needed[i]) && !contains_name(&to_start, &needed[i]) {
                let user: UserId = needed[i].clone();
                to_start.push(user);
                assert(names(to_start@) =~= names(before).push(user@));
            }
            i = i + 1;
        }
        self.waiting.push((number, needed));
        to_start
    }

    /// The two lookups for a user have started.
    pub fn started(&mut self, user_id: UserId, user_lookup: u64, prekey_lookup: u64)
        requires
            old(self).jobs.wf(),
        ensures
            final(self).jobs.wf(),
            final(self).waiting == old(self).waiting,
            final(self).jobs@ == old(self).jobs@.insert(
                user_id@,
                (BundleJob { user_lookup, prekey_lookup, user: None, prekeys: None }),
            ),
    {
        self.jobs.insert(
            user_id,
            BundleJob { user_lookup, prekey_lookup, user: None, prekeys: None },
        );
    }

    /// The position of the job that waits for a lookup.
    fn job_of(&self, lookup: u64) -> (at: Option<usize>)
        requires
            self.jobs.wf(),
        ensures
            match at {
                Some(i) => i < self.jobs.order().len() && awaits(
                    self.jobs@[self.jobs.order()[i as int]],
                    lookup,
                ),
                None => forall|user: Seq<char>| #[trigger]
                    self.jobs@.dom().contains(user) ==> !awaits(self.jobs@[user], lookup),
            },
    {
        let mut i: usize = 0;
        while i < self.jobs.len()
            invariant
                self.jobs.wf(),
                i <= self.jobs.order().len(),
                forall|j: int|
                    0 <= j < i ==> !awaits(self.jobs@[#[trigger] self.jobs.order()[j]], lookup),
            decreases self.jobs.order().len() - i,
        {
            let job = self.jobs.value_at(i);
            if job.user_lookup == lookup || job.prekey_lookup == lookup {
                return Some(i);
            }
            i = i + 1;
        }
        proof {
            self.jobs.order_is_complete();
            assert forall|user: Seq<char>| #[trigger] self.jobs@.dom().contains(user) implies
                !awaits(self.jobs@[user], lookup) by {
                assert(self.jobs.order().contains(user));
                let j = choose|j: int|
                    0 <= j < self.jobs.order().len() && self.jobs.order()[j] == user;
                assert(!awaits(self.jobs@[self.jobs.order()[j]], lookup));
            }
        }
        None
    }

    /// A lookup has ended. Returns what the two lookups for a user found, once
    /// both have ended; the job is then over.
    pub fn ended(&mut self, lookup: u64, found: LookupResult) -> (records: Option<FoundRecords>)
        requires
            old(self).jobs.wf(),
        ensures
            final(self).jobs.wf(),
            final(self).waiting == old(self).waiting,
            (forall|user: Seq<char>| #[trigger]
                old(self).jobs@.dom().contains(user) ==> !awaits(old(self).jobs@[user], lookup))
                ==> final(self).jobs@ == old(self).jobs@ && records is None,
            (exists|user: Seq<char>| #[trigger]
                old(self).jobs@.dom().contains(user) && awaits(old(self).jobs@[user], lookup))
                ==> exists|user: Seq<char>|
                {
                    let job = noted(old(self).jobs@[user], lookup, found);
                    &&& #[trigger] old(self).jobs@.dom().contains(user)
                    &&& awaits(old(self).jobs@[user], lookup)
                    &&& if job.user is Some && job.prekeys is Some {
                        &&& final(self).jobs@ == old(self).jobs@.remove(user)
                        &&& records matches Some(r)
                        &&& r.user_id@ == user
                        &&& r.user == job.user->Some_0
                        &&& r.prekeys == job.prekeys->Some_0
                    } else {
                        &&& final(self).jobs@ == old(self).jobs@.insert(user, job)
                        &&& records is None
                    }
                },
            records matches Some(r) ==> {
                let job = old(self).jobs@[r.user_id@];
                &&& old(self).jobs@.dom().contains(r.user_id@)
                &&& !final(self).jobs@.dom().contains(r.user_id@)
                &&& job.user_lookup == lookup ==> job.prekeys == Some(r.prekeys) && r.user == (
                match found {
                    LookupResult::FoundUser(record) => Some(record),
                    _ => None,
                })
                &&& job.user_lookup != lookup ==> job.prekey_lookup == lookup && job.user == Some(
                    r.user,
                ) && r.prekeys == (match found {
                    LookupResult::FoundPreKeys(record) => Some(record),
                    _ => None,
                })
            },
    {
        let at = match self.job_of(lookup) {
            Some(at) => at,
            None => {
                return None;
            },
        };
        let ghost user = self.jobs.order()[at as int];
        let user_id: UserId = self.jobs.key_at(at).clone();
        let mut job = self.jobs.remove_at(at);
        let ghost before = job;
        assert(old(self).jobs@.dom().contains(user));
        if job.user_lookup == lookup {
            job.user = Some(
                match found {
                    LookupResult::FoundUser(record) => Some(record),
                    _ => None,
                },
            );
        } else {
            job.prekeys = Some(
                match found {
                    LookupResult::FoundPreKeys(record) => Some(record),
                    _ => None,
                },
            );
        }
        assert(job == noted(before, lookup, found));
        match (job.user, job.prekeys) {
            (Some(user), Some(prekeys)) => Some(FoundRecords { user_id, user, prekeys }),
            (user, prekeys) => {
                let BundleJob { user_lookup, prekey_lookup, .. } = job;
                let open = BundleJob { user_lookup, prekey_lookup, user, prekeys };
                self.jobs.insert(user_id, open);
                assert(self.jobs@ =~= old(self).jobs@.insert(user_id@, open));
                None
            },
        }
    }

    /// The work that has nothing to wait for any more, in the order of its
    /// arrival; it waits no longer.
    pub fn ready(&mut self) -> (work: Vec<u64>)
        requires
            old(self).jobs.wf(),
        ensures
            final(self).jobs == old(self).jobs,
            work@ == numbers(
                mailbox_store::keep(
                    old(self).waiting@,
                    |w: Waiting| settled(w, old(self).jobs@),
                ),
            ),
            final(self).waiting@ == mailbox_store::keep(
                old(self).waiting@,
                |w: Waiting| !settled(w, old(self).jobs@),
            ),
            forall|i: int|
                0 <= i < final(self).waiting@.len() ==> still_waits(
                    (#[trigger] final(self).waiting@[i]).1@,
                    old(self).jobs@,
                ),
            work@.len() + final(self).waiting@.len() == old(self).waiting@.len(),
    {
        let ghost all = self.waiting@;
        let ghost jobs = self.jobs@;
        let ghost done = |w: Waiting| settled(w, jobs);
        let ghost open = |w: Waiting| !settled(w, jobs);
        let mut work: Vec<u64> = Vec::new();
        let mut i: usize = 0;
        let ghost mut seen: int = 0;
        assert(all.take(0) =~= Seq::empty());
        assert(numbers(mailbox_store::keep(all.take(0), done)) =~= Seq::empty());
        while i < self.waiting.len()
            invariant
                self.jobs == old(self).jobs,
                self.jobs.wf(),
                jobs == self.jobs@,
                done == |w: Waiting| settled(w, jobs),
                open == |w: Waiting| !settled(w, jobs),
                0 <= seen <= all.len(),
                i <= self.waiting@.len(),
                self.waiting@.len() - i == all.len() - seen,
                self.waiting@.skip(i as int) =~= all.skip(seen),
                self.waiting@.take(i as int) =~= mailbox_store::keep(all.take(seen), open),
                work@ =~= numbers(mailbox_store::keep(all.take(seen), done)),
                work@.len() + i == seen,
            decreases self.waiting@.len() - i,
        {
            proof {
                mailbox_store::keep_next(all, seen, open);
                mailbox_store::keep_next(all, seen, done);
                assert(self.waiting@.skip(i as int)[0] == all.skip(seen)[0]);
            }
            let ghost before = self.waiting@;
            if self.is_settled(&self.waiting[i].1) {
                let (number, _) = self.waiting.remove(i);
                work.push(number);
                assert(self.waiting@.take(i as int) =~= before.take(i as int));
                assert(self.waiting@.skip(i as int) =~= before.skip(i + 1));
            } else {
                i = i + 1;
                assert(before.take(i as int) =~= before.take(i - 1).push(before[i - 1]));
            }
            proof {
                seen = seen + 1;
                assert(all.skip(seen) =~= all.skip(seen - 1).skip(1));
            }
        }
        proof {
            assert(all.take(seen) =~= all);
            assert(self.waiting@.take(i as int) =~= self.waiting@);
            assert forall|i: int| 0 <= i < self.waiting@.len() implies still_waits(
                (#[trigger] self.waiting@[i]).1@,
                jobs,
            ) by {
                mailbox_store::keep_contains(all, open, self.waiting@[i]);
                assert(self.waiting@.contains(self.waiting@[i]));
            }
        }
        work
    }

    /// Whether no lookup is under way for some users.
    fn is_settled(&self, users: &Vec<UserId>) -> (settled: bool)
        requires
            self.jobs.wf(),
        ensures
            settled == (forall|i: int|
                0 <= i < users@.len() ==> !self.jobs@.dom().contains((#[trigger] users@[i])@)),
    {
        let mut i: usize = 0;
        while i < users.len()
            invariant
                self.jobs.wf(),
                i <= users@.len(),
                forall|j: int|
                    0 <= j < i ==> !self.jobs@.dom().contains((#[trigger] users@[j])@),
            decreases users@.len() - i,
        {
            if self.jobs.contains_key(&users[i]) {
                return false;
            }
            i = i + 1;
        }
        true
    }
}

/// Whether a payload carries a first message, one that announces a session.
pub open spec fn is_first_message(payload: Seq<u8>) -> bool {
    wire::parse_envelope(payload) matches Some(e) && e.session_init is Some
}

/// The newcomers in some payloads are the senders of all first messages among
/// them, in their order.
pub proof fn newcomers_sent_first_messages(payloads: Seq<Seq<u8>>, count: nat) -> (places: Seq<int>)
    requires
        count <= payloads.len(),
    ensures
        newcomers(payloads, count).len() == places.len(),
        forall|k: int|
            0 <= k < places.len() ==> {
                &&& 0 <= #[trigger] places[k] < count
                &&& is_first_message(payloads[places[k]])
                &&& newcomers(payloads, count)[k] == wire::parse_envelope(
                    payloads[places[k]],
                )->Some_0.sender_id
            },
        forall|k: int, l: int| 0 <= k < l < places.len() ==> places[k] < places[l],
        forall|i: int|
            0 <= i < count && #[trigger] is_first_message(payloads[i]) ==> places.contains(i),
    decreases count,
{
    if count == 0 {
        Seq::empty()
    } else {
        let last = count - 1;
        let before = newcomers_sent_first_messages(payloads, last as nat);
        let places = if is_first_message(payloads[last]) {
            before.push(last)
        } else {
            before
        };
        assert forall|k: int| 0 <= k < places.len() implies ({
            &&& 0 <= #[trigger] places[k] < count
            &&& is_first_message(payloads[places[k]])
            &&& newcomers(payloads, count)[k] == wire::parse_envelope(
                payloads[places[k]],
            )->Some_0.sender_id
        }) by {
            if k < before.len() {
                assert(0 <= before[k] < last);
            }
        }
        assert forall|i: int|
            0 <= i < count && #[trigger] is_first_message(payloads[i]) implies places.contains(
            i,
        ) by {
            if i < last {
                let k = choose|k: int| 0 <= k < before.len() && before[k] == i;
                assert(places[k] == i);
            } else {
                assert(places[before.len() as int] == i);
            }
        }
        places
    }
}

/// No lookups are under way for the users for whom they are started.
proof fn without_job_have_none(
    jobs: Map<Seq<char>, BundleJob>,
    users: Seq<UserId>,
    count: nat,
    k: int,
)
    requires
        count <= users.len(),
        0 <= k < without_job(jobs, users, count).len(),
    ensures
        !jobs.dom().contains(without_job(jobs, users, count)[k]),
    decreases count,
{
    if count > 0 {
        let before = without_job(jobs, users, (count - 1) as nat);
        if k < before.len() {
            without_job_have_none(jobs, users, (count - 1) as nat, k);
        }
    }
}

/// Lookups are started for every user whose prekeys are needed and for whom
/// none are under way, and once for each.
pub proof fn lookups_start_once(jobs: Map<Seq<char>, BundleJob>, users: Seq<UserId>, count: nat)
    requires
        count <= users.len(),
    ensures
        without_job(jobs, users, count).no_duplicates(),
        forall|i: int|
            0 <= i < count ==> (without_job(jobs, users, count).contains((#[trigger] users[i])@)
                <==> !jobs.dom().contains(users[i]@)),
        forall|k: int|
            0 <= k < without_job(jobs, users, count).len() ==> names(users).contains(
                #[trigger] without_job(jobs, users, count)[k],
            ),
    decreases count,
{
    if count > 0 {
        let last = count - 1;
        let name = users[last]@;
        let before = without_job(jobs, users, last as nat);
        let all = without_job(jobs, users, count);
        lookups_start_once(jobs, users, last as nat);
        assert(names(users)[last] == name);
        let added = !jobs.dom().contains(name) && !before.contains(name);
        if added {
            assert(all[before.len() as int] == name);
        }
        assert forall|i: int| 0 <= i < count implies (all.contains((#[trigger] users[i])@)
            <==> !jobs.dom().contains(users[i]@)) by {
            let other = users[i]@;
            if i < last {
                assert(before.contains(users[i]@) <==> !jobs.dom().contains(users[i]@));
            }
            if before.contains(other) && i == last {
                let k = choose|k: int| 0 <= k < before.len() && before[k] == other;
                without_job_have_none(jobs, users, last as nat, k);
            }
            if before.contains(other) {
                let k = choose|k: int| 0 <= k < before.len() && before[k] == other;
                assert(all[k] == other);
            }
            if all.contains(other) && !before.contains(other) {
                let k = choose|k: int| 0 <= k < all.len() && all[k] == other;
                assert(k == before.len());
            }
        }
        assert forall|k: int| 0 <= k < all.len() implies names(users).contains(
            #[trigger] all[k],
        ) by {
            if k < before.len() {
                assert(before[k] == all[k]);
            }
        }
    }
}

} // verus!
