//! What a mailbox store does, whatever it is made of.
use vstd::prelude::*;

use crate::clock;
use crate::errors::MessengerError;
use crate::types::UserId;

verus! {

/// A message that waits for its receiver.
#[derive(Debug)]
pub struct StoredMailboxEntry {
    pub id: i64,
    pub encrypted_blob: Vec<u8>,
    pub stored_at_unix: u64,
    pub expires_at_unix: u64,
}

/// A stored message and whom it is for.
#[verifier::ext_equal]
pub struct MailModel {
    pub recipient: Seq<char>,
    pub id: i64,
    pub blob: Seq<u8>,
    pub stored_at: u64,
    pub expires_at: u64,
}

/// The elements that satisfy a condition, in their order.
pub open spec fn keep<A>(items: Seq<A>, wanted: spec_fn(A) -> bool) -> Seq<A>
    decreases items.len(),
{
    if items.len() == 0 {
        Seq::empty()
    } else {
        let before = keep(items.drop_last(), wanted);
        if wanted(items.last()) {
            before.push(items.last())
        } else {
            before
        }
    }
}

/// The messages for one user.
pub open spec fn mail_for(mail: Seq<MailModel>, user: Seq<char>) -> Seq<MailModel> {
    keep(mail, |m: MailModel| m.recipient == user)
}

/// The messages that are left when some of one user's are deleted.
pub open spec fn without_ids(mail: Seq<MailModel>, user: Seq<char>, ids: Seq<i64>) -> Seq<
    MailModel,
> {
    keep(mail, |m: MailModel| !(m.recipient == user && ids.contains(m.id)))
}

/// The messages that are left when the expired ones are deleted.
pub open spec fn unexpired(mail: Seq<MailModel>, now: u64) -> Seq<MailModel> {
    keep(mail, |m: MailModel| m.expires_at > now)
}

/// A message as it is handed out to its receiver.
pub open spec fn handed_out(entry: StoredMailboxEntry, user: Seq<char>) -> MailModel {
    MailModel {
        recipient: user,
        id: entry.id,
        blob: entry.encrypted_blob@,
        stored_at: entry.stored_at_unix,
        expires_at: entry.expires_at_unix,
    }
}

/// Messages as they are handed out to their receiver.
pub open spec fn all_handed_out(entries: Seq<StoredMailboxEntry>, user: Seq<char>) -> Seq<
    MailModel,
> {
    entries.map_values(|e: StoredMailboxEntry| handed_out(e, user))
}

/// Whether `after` is `before` with one more message in it.
pub open spec fn one_more(before: Seq<MailModel>, after: Seq<MailModel>, mail: MailModel) -> bool {
    exists|at: int| 0 <= at <= before.len() && after == #[trigger] before.insert(at, mail)
}

/// Whether no message has an id.
pub open spec fn fresh_id(mail: Seq<MailModel>, id: i64) -> bool {
    forall|i: int| 0 <= i < mail.len() ==> (#[trigger] mail[i]).id != id
}

/// The time at which something that starts now and lasts `ttl_secs` ends;
/// the end of time where that is too far away to be written.
pub open spec fn expiry(now: u64, ttl_secs: u64) -> u64 {
    if now + ttl_secs <= u64::MAX {
        (now + ttl_secs) as u64
    } else {
        u64::MAX
    }
}

/// A place where messages wait. An operation that fails leaves everything as
/// it was.
pub trait MailboxStore {
    /// The store is in order.
    spec fn valid(&self) -> bool;

    /// The messages in the store.
    spec fn mail(&self) -> Seq<MailModel>;

    /// Whether no operation fails, as long as there is room.
    spec fn dependable(&self) -> bool;

    /// How many more messages are sure to find room.
    spec fn room(&self) -> nat;

    /// Stores a message that expires after `ttl_secs`.
    fn insert(&mut self, recipient: &UserId, blob: Vec<u8>, ttl_secs: u64) -> (result: Result<
        (),
        MessengerError,
    >)
        requires
            old(self).valid(),
        ensures
            final(self).valid(),
            old(self).dependable() ==> final(self).dependable(),
            old(self).dependable() && old(self).room() > 0 ==> result is Ok,
            result is Err ==> final(self).mail() == old(self).mail() && final(self).room() == old(
                self,
            ).room(),
            result is Ok ==> final(self).room() + 1 >= old(self).room(),
            result is Ok ==> exists|id: i64, now: u64|
                clock::told(now) && fresh_id(old(self).mail(), id) && one_more(
                    old(self).mail(),
                    final(self).mail(),
                    #[trigger] new_mail(recipient@, id, blob@, now, ttl_secs),
                ),
    ;

    /// The messages for a user.
    fn fetch_all(&self, recipient: &UserId) -> (result: Result<
        Vec<StoredMailboxEntry>,
        MessengerError,
    >)
        requires
            self.valid(),
        ensures
            self.dependable() ==> result is Ok,
            result matches Ok(entries) ==> all_handed_out(entries@, recipient@) == mail_for(
                self.mail(),
                recipient@,
            ),
    ;

    /// Deletes messages of a user by their ids.
    fn delete(&mut self, recipient: &UserId, ids: &Vec<i64>) -> (result: Result<(), MessengerError>)
        requires
            old(self).valid(),
        ensures
            final(self).valid(),
            old(self).dependable() ==> result is Ok && final(self).dependable(),
            final(self).room() >= old(self).room(),
            result is Err ==> final(self).mail() == old(self).mail(),
            result is Ok ==> final(self).mail() == without_ids(
                old(self).mail(),
                recipient@,
                ids@,
            ),
    ;

    /// The number of messages for a user.
    fn count_for_user(&self, recipient: &UserId) -> (result: Result<usize, MessengerError>)
        requires
            self.valid(),
        ensures
            self.dependable() ==> result is Ok,
            result matches Ok(count) ==> count == mail_for(self.mail(), recipient@).len(),
    ;

    /// Deletes all messages that have expired at the time `now`. Returns how
    /// many they were.
    fn delete_expired(&mut self, now: u64) -> (result: Result<usize, MessengerError>)
        requires
            old(self).valid(),
        ensures
            final(self).valid(),
            old(self).dependable() ==> result is Ok && final(self).dependable(),
            final(self).room() >= old(self).room(),
            result is Err ==> final(self).mail() == old(self).mail(),
            result matches Ok(deleted) ==> {
                &&& final(self).mail() == unexpired(old(self).mail(), now)
                &&& deleted == old(self).mail().len() - final(self).mail().len()
            },
    ;
}

/// A message that was stored at the time `now`.
pub open spec fn new_mail(
    recipient: Seq<char>,
    id: i64,
    blob: Seq<u8>,
    now: u64,
    ttl_secs: u64,
) -> MailModel {
    MailModel { recipient, id, blob, stored_at: now, expires_at: expiry(now, ttl_secs) }
}

/// Keeping takes one element after another.
pub proof fn keep_push<A>(items: Seq<A>, item: A, wanted: spec_fn(A) -> bool)
    ensures
        keep(items.push(item), wanted) == if wanted(item) {
            keep(items, wanted).push(item)
        } else {
            keep(items, wanted)
        },
{
    assert(items.push(item).drop_last() =~= items);
}

/// The next element of a sequence is kept or not.
pub proof fn keep_next<A>(items: Seq<A>, count: int, wanted: spec_fn(A) -> bool)
    requires
        0 <= count < items.len(),
    ensures
        keep(items.take(count + 1), wanted) == if wanted(items[count]) {
            keep(items.take(count), wanted).push(items[count])
        } else {
            keep(items.take(count), wanted)
        },
{
    assert(items.take(count + 1) =~= items.take(count).push(items[count]));
    keep_push(items.take(count), items[count], wanted);
}

/// What is kept of two sequences in a row is what is kept of each.
pub proof fn keep_add<A>(a: Seq<A>, b: Seq<A>, wanted: spec_fn(A) -> bool)
    ensures
        keep(a + b, wanted) == keep(a, wanted) + keep(b, wanted),
    decreases b.len(),
{
    if b.len() == 0 {
        assert(a + b =~= a);
        assert(keep(a, wanted) + keep(b, wanted) =~= keep(a, wanted));
    } else {
        keep_add(a, b.drop_last(), wanted);
        assert(a + b =~= (a + b.drop_last()).push(b.last()));
        keep_push(a + b.drop_last(), b.last(), wanted);
        assert(keep(a + b, wanted) =~= keep(a, wanted) + keep(b, wanted));
    }
}

/// What is kept satisfies the condition and was there before, and nothing
/// that satisfies it is lost.
pub proof fn keep_contains<A>(items: Seq<A>, wanted: spec_fn(A) -> bool, item: A)
    ensures
        keep(items, wanted).contains(item) <==> items.contains(item) && wanted(item),
        keep(items, wanted).len() <= items.len(),
    decreases items.len(),
{
    if items.len() > 0 {
        let rest = items.drop_last();
        keep_contains(rest, wanted, item);
        assert(items =~= rest.push(items.last()));
        let kept = keep(rest, wanted);
        if keep(items, wanted).contains(item) {
            let i = choose|i: int|
                0 <= i < keep(items, wanted).len() && keep(items, wanted)[i] == item;
            if i < kept.len() {
                assert(kept[i] == item);
                let j = choose|j: int| 0 <= j < rest.len() && rest[j] == item;
                assert(items[j] == item);
            } else {
                assert(items[items.len() - 1] == item);
            }
        }
        if items.contains(item) && wanted(item) {
            let j = choose|j: int| 0 <= j < items.len() && items[j] == item;
            if j < rest.len() {
                assert(rest[j] == item);
                let i = choose|i: int| 0 <= i < kept.len() && kept[i] == item;
                assert(keep(items, wanted)[i] == item);
            } else {
                assert(keep(items, wanted)[kept.len() as int] == item);
            }
        }
    }
}

/// Two conditions that agree on the elements keep the same.
pub proof fn keep_same<A>(items: Seq<A>, p: spec_fn(A) -> bool, q: spec_fn(A) -> bool)
    requires
        forall|i: int| 0 <= i < items.len() ==> p(#[trigger] items[i]) == q(items[i]),
    ensures
        keep(items, p) == keep(items, q),
    decreases items.len(),
{
    if items.len() > 0 {
        assert(p(items[items.len() - 1]) == q(items[items.len() - 1]));
        assert forall|i: int| 0 <= i < items.drop_last().len() implies p(
            #[trigger] items.drop_last()[i],
        ) == q(items.drop_last()[i]) by {
            assert(items.drop_last()[i] == items[i]);
        }
        keep_same(items.drop_last(), p, q);
    }
}

/// Keeping twice keeps what satisfies both conditions.
pub proof fn keep_twice<A>(items: Seq<A>, p: spec_fn(A) -> bool, q: spec_fn(A) -> bool)
    ensures
        keep(keep(items, p), q) == keep(items, |a: A| p(a) && q(a)),
    decreases items.len(),
{
    if items.len() > 0 {
        keep_twice(items.drop_last(), p, q);
        if p(items.last()) {
            keep_push(keep(items.drop_last(), p), items.last(), q);
        }
    }
}

/// Whether some places of a sequence are in its order and hold what was kept
/// of it.
pub open spec fn stand_at<A>(items: Seq<A>, kept: Seq<A>, places: Seq<int>) -> bool {
    &&& kept.len() == places.len()
    &&& forall|k: int|
        0 <= k < places.len() ==> 0 <= #[trigger] places[k] < items.len() && kept[k]
            == items[places[k]]
    &&& forall|k: int, l: int| 0 <= k < l < places.len() ==> places[k] < places[l]
}

/// What is kept stands at the places that satisfy the condition, in their
/// order, and at no others.
pub proof fn keep_places<A>(items: Seq<A>, wanted: spec_fn(A) -> bool) -> (places: Seq<int>)
    ensures
        stand_at(items, keep(items, wanted), places),
        forall|i: int|
            0 <= i < items.len() ==> (wanted(#[trigger] items[i]) <==> places.contains(i)),
    decreases items.len(),
{
    if items.len() == 0 {
        Seq::empty()
    } else {
        let rest = items.drop_last();
        let last = items.len() - 1;
        let before = keep_places(rest, wanted);
        let places = if wanted(items.last()) {
            before.push(last)
        } else {
            before
        };
        assert forall|k: int| 0 <= k < places.len() implies 0 <= #[trigger] places[k]
            < items.len() && keep(items, wanted)[k] == items[places[k]] by {
            if k < before.len() {
                assert(0 <= before[k] < rest.len());
                assert(rest[before[k]] == items[before[k]]);
            }
        }
        assert forall|i: int| 0 <= i < items.len() implies (wanted(#[trigger] items[i])
            <==> places.contains(i)) by {
            if i < last {
                assert(rest[i] == items[i]);
                assert(wanted(rest[i]) <==> before.contains(i));
                if before.contains(i) {
                    let k = choose|k: int| 0 <= k < before.len() && before[k] == i;
                    assert(places[k] == i);
                }
                if places.contains(i) {
                    let k = choose|k: int| 0 <= k < places.len() && places[k] == i;
                    assert(before[k] == i);
                }
            } else {
                if wanted(items[i]) {
                    assert(places[before.len() as int] == i);
                }
                if places.contains(i) {
                    let k = choose|k: int| 0 <= k < places.len() && places[k] == i;
                    if k < before.len() {
                        assert(before[k] < rest.len());
                    }
                }
            }
        }
        places
    }
}

/// The messages for a user are all that are addressed to the user, in the
/// order in which they stand in the store.
pub proof fn mail_waits_in_order(mail: Seq<MailModel>, user: Seq<char>) -> (places: Seq<int>)
    ensures
        stand_at(mail, mail_for(mail, user), places),
        forall|i: int|
            0 <= i < mail.len() ==> ((#[trigger] mail[i]).recipient == user <==> places.contains(
                i,
            )),
{
    keep_places(mail, |m: MailModel| m.recipient == user)
}

/// Deleting some of a user's messages deletes those with the given ids and no
/// others, and leaves the rest in order.
pub proof fn deleting_is_by_owner_and_id(mail: Seq<MailModel>, user: Seq<char>, ids: Seq<i64>) -> (
    places: Seq<int>)
    ensures
        stand_at(mail, without_ids(mail, user, ids), places),
        forall|i: int|
            0 <= i < mail.len() ==> (places.contains(i) <==> !((#[trigger] mail[i]).recipient
                == user && ids.contains(mail[i].id))),
{
    keep_places(mail, |m: MailModel| !(m.recipient == user && ids.contains(m.id)))
}

/// A message is kept until its time is over: at the time `now` those are left
/// whose expiry lies ahead, in order, and no others.
pub proof fn mail_is_kept_until_it_expires(mail: Seq<MailModel>, now: u64) -> (places: Seq<int>)
    ensures
        stand_at(mail, unexpired(mail, now), places),
        forall|i: int|
            0 <= i < mail.len() ==> (places.contains(i) <==> now < (#[trigger] mail[i]).expires_at),
{
    keep_places(mail, |m: MailModel| m.expires_at > now)
}

/// A message that is stored expires after its time to live, or at the end of
/// time where that is sooner.
pub proof fn mail_expires_after_its_time(
    recipient: Seq<char>,
    id: i64,
    blob: Seq<u8>,
    now: u64,
    ttl_secs: u64,
)
    ensures
        ({
            let mail = new_mail(recipient, id, blob, now, ttl_secs);
            &&& mail.recipient == recipient
            &&& mail.id == id
            &&& mail.blob == blob
            &&& mail.stored_at == now
            &&& now + ttl_secs <= u64::MAX ==> mail.expires_at == now + ttl_secs
            &&& now + ttl_secs > u64::MAX ==> mail.expires_at == u64::MAX
        }),
{
}

} // verus!
