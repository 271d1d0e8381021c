//! Mailboxes with their limits.
use vstd::prelude::*;

use crate::clock;
use crate::constants::{MAILBOX_MAX_MESSAGES_PER_USER, MAILBOX_MESSAGE_TTL_DAYS};
use crate::errors::MessengerError;
use crate::storage::mailbox_store;
use crate::storage::mailbox_store::{MailModel, MailboxStore};
use crate::table::Table;
use crate::types::UserId;
use crate::wire;

verus! {

/// How long a mailbox keeps a message, in seconds.
pub open spec fn message_ttl() -> u64 {
    (MAILBOX_MESSAGE_TTL_DAYS * 86400) as u64
}

/// The contents of the messages that wait for a user.
pub open spec fn pending(mail: Seq<MailModel>, user: Seq<char>) -> Seq<Seq<u8>> {
    mailbox_store::mail_for(mail, user).map_values(|m: MailModel| m.blob)
}

/// Whether some contents are those of all messages for a user, in the order in
/// which they were stored.
pub open spec fn handed_in_order(
    mail: Seq<MailModel>,
    user: Seq<char>,
    blobs: Seq<Seq<u8>>,
    places: Seq<int>,
) -> bool {
    &&& blobs.len() == places.len()
    &&& forall|k: int|
        0 <= k < places.len() ==> 0 <= #[trigger] places[k] < mail.len() && blobs[k]
            == mail[places[k]].blob
    &&& forall|k: int, l: int| 0 <= k < l < places.len() ==> places[k] < places[l]
    &&& forall|i: int|
        0 <= i < mail.len() ==> ((#[trigger] mail[i]).recipient == user <==> places.contains(i))
}

/// The messages of everybody but one user.
pub open spec fn mail_of_others(mail: Seq<MailModel>, user: Seq<char>) -> Seq<MailModel> {
    mailbox_store::keep(mail, |m: MailModel| m.recipient != user)
}

/// The ids of messages.
pub open spec fn mail_ids(mail: Seq<MailModel>) -> Seq<i64> {
    mail.map_values(|m: MailModel| m.id)
}

/// How storing a message for a user ends.
pub open spec fn store_outcome<S: MailboxStore>(
    before: S,
    after: S,
    recipient: UserId,
    blob: Seq<u8>,
    result: Result<(), MessengerError>,
) -> bool {
    let waiting = mailbox_store::mail_for(before.mail(), recipient@).len();
    &&& before.dependable() ==> after.dependable()
    &&& after.room() + 1 >= before.room()
    &&& result is Err ==> after.mail() == before.mail() && after.room() == before.room()
    &&& waiting >= MAILBOX_MAX_MESSAGES_PER_USER ==> result is Err
    &&& waiting >= MAILBOX_MAX_MESSAGES_PER_USER && before.dependable() ==> result == Err::<(), _>(
        MessengerError::MailboxFull { user: recipient, limit: MAILBOX_MAX_MESSAGES_PER_USER },
    )
    &&& waiting < MAILBOX_MAX_MESSAGES_PER_USER && before.dependable() && before.room() > 0
        ==> result is Ok
    &&& result is Ok ==> exists|id: i64, now: u64|
        clock::told(now) && mailbox_store::fresh_id(before.mail(), id) && mailbox_store::one_more(
            before.mail(),
            after.mail(),
            #[trigger] mailbox_store::new_mail(recipient@, id, blob, now, message_ttl()),
        )
}

/// The mailboxes on this node.
pub struct MailboxService<S> {
    pub store: S,
    /// The ids of the messages that were handed out to each user last and
    /// are not acknowledged yet.
    pub handed: Table<UserId, Vec<i64>>,
}

impl<S: MailboxStore> MailboxService<S> {
    /// The parts are in order.
    pub open spec fn valid(&self) -> bool {
        self.store.valid() && self.handed.wf()
    }

    /// The ids of the messages that were handed out to a user last and are
    /// not acknowledged yet.
    pub open spec fn handed_to(&self, user: Seq<char>) -> Seq<i64> {
        if self.handed@.dom().contains(user) {
            self.handed@[user]@
        } else {
            Seq::empty()
        }
    }

    /// Mailboxes over a store.
    pub fn new(store: S) -> (service: Self)
        ensures
            service.store == store,
            store.valid() ==> service.valid(),
            service.handed@ == Map::<Seq<char>, Vec<i64>>::empty(),
    {
        MailboxService { store, handed: Table::new() }
    }

    /// Puts a message into a user's mailbox, unless the mailbox is full. The
    /// limit is tested before anything is stored.
    pub fn store_message(&mut self, recipient: &UserId, encrypted_blob: Vec<u8>) -> (result: Result<
        (),
        MessengerError,
    >)
        requires
            old(self).valid(),
        ensures
            final(self).valid(),
            final(self).handed == old(self).handed,
            store_outcome(
                old(self).store,
                final(self).store,
                *recipient,
                encrypted_blob@,
                result,
            ),
            result is Ok ==> pending(old(self).store.mail(), recipient@).len() < 1000,
            pending(old(self).store.mail(), recipient@).len() < 1000
                && old(self).store.dependable() && old(self).store.room() > 0 ==> result is Ok,
            result is Ok ==> exists|kept: MailModel|
                {
                    &&& clock::told(kept.stored_at)
                    &&& mailbox_store::fresh_id(old(self).store.mail(), kept.id)
                    &&& #[trigger] mailbox_store::one_more(
                        old(self).store.mail(),
                        final(self).store.mail(),
                        kept,
                    )
                    &&& kept.recipient == recipient@
                    &&& kept.blob == encrypted_blob@
                    &&& kept.expires_at == if kept.stored_at + 1209600 <= u64::MAX {
                        kept.stored_at + 1209600
                    } else {
                        u64::MAX as int
                    }
                },
            result == Err::<(), _>(
                MessengerError::MailboxFull { user: *recipient, limit: 1000 },
            ) || pending(old(self).store.mail(), recipient@).len() < 1000 || !old(
                self,
            ).store.dependable(),
    {
        let current_count: usize = match self.store.count_for_user(recipient) {
            Ok(count) => count,
            Err(e) => {
                return Err(e);
            },
        };
        if current_count >= MAILBOX_MAX_MESSAGES_PER_USER {
            return Err(
                MessengerError::MailboxFull {
                    user: recipient.clone(),
                    limit: MAILBOX_MAX_MESSAGES_PER_USER,
                },
            );
        }
        let ttl_secs: u64 = (MAILBOX_MESSAGE_TTL_DAYS as u64) * 24 * 60 * 60;
        assert(ttl_secs == message_ttl());
        let result = self.store.insert(recipient, encrypted_blob, ttl_secs);
        proof {
            if result is Ok {
                let (id, now) = choose|id: i64, now: u64|
                    clock::told(now) && mailbox_store::fresh_id(old(self).store.mail(), id)
                        && mailbox_store::one_more(
                        old(self).store.mail(),
                        self.store.mail(),
                        #[trigger] mailbox_store::new_mail(
                            recipient@,
                            id,
                            encrypted_blob@,
                            now,
                            ttl_secs,
                        ),
                    );
                let kept = mailbox_store::new_mail(
                    recipient@,
                    id,
                    encrypted_blob@,
                    now,
                    ttl_secs,
                );
                assert(mailbox_store::one_more(old(self).store.mail(), self.store.mail(), kept));
            }
        }
        result
    }

    /// The messages that wait for a user. They stay until they are
    /// acknowledged; which ones were handed out is remembered until then.
    pub fn fetch_pending(&mut self, recipient: &UserId) -> (result: Result<
        Vec<Vec<u8>>,
        MessengerError,
    >)
        requires
            old(self).valid(),
        ensures
            final(self).valid(),
            final(self).store == old(self).store,
            old(self).store.dependable() ==> result is Ok,
            result is Err ==> *final(self) == *old(self),
            result matches Ok(blobs) ==> {
                &&& wire::blob_models(blobs@) == pending(old(self).store.mail(), recipient@)
                &&& exists|places: Seq<int>| #[trigger]
                    handed_in_order(
                        old(self).store.mail(),
                        recipient@,
                        wire::blob_models(blobs@),
                        places,
                    )
                &&& final(self).handed_to(recipient@) == mail_ids(
                    mailbox_store::mail_for(old(self).store.mail(), recipient@),
                )
                &&& forall|other: Seq<char>|
                    other != recipient@ ==> #[trigger] final(self).handed_to(other) == old(
                        self,
                    ).handed_to(other)
            },
    {
        let entries = match self.store.fetch_all(recipient) {
            Ok(entries) => entries,
            Err(e) => {
                return Err(e);
            },
        };
        let ghost found = mailbox_store::all_handed_out(entries@, recipient@);
        let ghost user = recipient@;
        let mut entries = entries;
        let mut blobs: Vec<Vec<u8>> = Vec::new();
        let mut ids: Vec<i64> = Vec::new();
        let ghost total = entries@.len();
        while entries.len() > 0
            invariant
                entries@.len() + blobs@.len() == total,
                found.len() == total,
                ids@.len() == blobs@.len(),
                mailbox_store::all_handed_out(entries@, user) =~= found.skip(blobs@.len() as int),
                wire::blob_models(blobs@) =~= found.take(blobs@.len() as int).map_values(
                    |m: MailModel| m.blob,
                ),
                ids@ =~= mail_ids(found.take(blobs@.len() as int)),
            decreases entries@.len(),
        {
            let ghost before = blobs@;
            let ghost rest = entries@;
            let entry = entries.remove(0);
            proof {
                assert(mailbox_store::all_handed_out(rest, user)[0] == found[before.len() as int]);
                assert(mailbox_store::all_handed_out(entries@, user)
                    =~= mailbox_store::all_handed_out(rest, user).skip(1));
            }
            ids.push(entry.id);
            blobs.push(entry.encrypted_blob);
            assert(found.take(before.len() as int + 1) =~= found.take(before.len() as int).push(
                found[before.len() as int],
            ));
            assert(wire::blob_models(blobs@) =~= wire::blob_models(before).push(
                found[before.len() as int].blob,
            ));
        }
        assert(found.take(total as int) =~= found);
        proof {
            let mail = self.store.mail();
            let places = mailbox_store::mail_waits_in_order(mail, user);
            assert(handed_in_order(mail, user, wire::blob_models(blobs@), places));
        }
        self.handed.insert(recipient.clone(), ids);
        Ok(blobs)
    }

    /// The receiver has the messages that were handed out last: deletes
    /// those, and no others.
    pub fn acknowledge_delivered(&mut self, recipient: &UserId) -> (result: Result<
        (),
        MessengerError,
    >)
        requires
            old(self).valid(),
        ensures
            final(self).valid(),
            old(self).store.dependable() ==> result is Ok && final(self).store.dependable(),
            final(self).store.room() >= old(self).store.room(),
            result is Err ==> final(self).store.mail() == old(self).store.mail()
                && final(self).handed == old(self).handed,
            result is Ok ==> {
                &&& final(self).store.mail() == mailbox_store::without_ids(
                    old(self).store.mail(),
                    recipient@,
                    old(self).handed_to(recipient@),
                )
                &&& final(self).handed@ == old(self).handed@.remove(recipient@)
            },
    {
        let nothing: Vec<i64> = Vec::new();
        let ids: &Vec<i64> = match self.handed.get(recipient) {
            Some(ids) => ids,
            None => &nothing,
        };
        assert(ids@ =~= self.handed_to(recipient@));
        match self.store.delete(recipient, ids) {
            Ok(_) => {
                self.handed.remove(recipient);
                Ok(())
            },
            Err(e) => Err(e),
        }
    }
}

/// Puts a message into a user's mailbox, as the last relay of a route does.
pub fn store_for_user<S: MailboxStore>(
    mailbox_service: &mut MailboxService<S>,
    recipient: &UserId,
    encrypted_blob: Vec<u8>,
) -> (result: Result<(), MessengerError>)
    requires
        old(mailbox_service).valid(),
    ensures
        final(mailbox_service).valid(),
        final(mailbox_service).handed == old(mailbox_service).handed,
        store_outcome(
            old(mailbox_service).store,
            final(mailbox_service).store,
            *recipient,
            encrypted_blob@,
            result,
        ),
        result is Ok ==> exists|kept: MailModel|
            {
                &&& clock::told(kept.stored_at)
                &&& #[trigger] mailbox_store::one_more(
                    old(mailbox_service).store.mail(),
                    final(mailbox_service).store.mail(),
                    kept,
                )
                &&& kept.recipient == recipient@
                &&& kept.blob == encrypted_blob@
                &&& kept.expires_at == if kept.stored_at + 1209600 <= u64::MAX {
                    kept.stored_at + 1209600
                } else {
                    u64::MAX as int
                }
            },
        pending(old(mailbox_service).store.mail(), recipient@).len() < 1000 && old(
            mailbox_service,
        ).store.dependable() && old(mailbox_service).store.room() > 0 ==> result is Ok,
{
    mailbox_service.store_message(recipient, encrypted_blob)
}

/// A stored message waits for its receiver and for nobody else.
pub proof fn stored_mail_is_pending(
    before: Seq<MailModel>,
    after: Seq<MailModel>,
    mail: MailModel,
    other: Seq<char>,
)
    requires
        mailbox_store::one_more(before, after, mail),
    ensures
        pending(after, mail.recipient).contains(mail.blob),
        pending(after, mail.recipient).len() == pending(before, mail.recipient).len() + 1,
        other != mail.recipient ==> pending(after, other) == pending(before, other),
{
    let at = choose|at: int| 0 <= at <= before.len() && after == #[trigger] before.insert(at, mail);
    let head = before.take(at);
    let tail = before.skip(at);
    assert(after =~= head.push(mail) + tail);
    assert(before =~= head + tail);
    let mine = |m: MailModel| m.recipient == mail.recipient;
    let theirs = |m: MailModel| m.recipient == other;
    mailbox_store::keep_add(head, tail, mine);
    mailbox_store::keep_add(head.push(mail), tail, mine);
    mailbox_store::keep_push(head, mail, mine);
    mailbox_store::keep_add(head, tail, theirs);
    mailbox_store::keep_add(head.push(mail), tail, theirs);
    mailbox_store::keep_push(head, mail, theirs);
    let place = mailbox_store::keep(head, mine).len() as int;
    assert(mailbox_store::mail_for(after, mail.recipient)[place] == mail);
    assert(pending(after, mail.recipient)[place] == mail.blob);
}

/// Acknowledging what was handed out deletes the messages of one fetch and no
/// others: right after the fetch the receiver's mailbox is empty and the
/// mailboxes of the others are as they were.
pub proof fn acknowledged_mail_is_gone(mail: Seq<MailModel>, user: Seq<char>, other: Seq<char>)
    requires
        other != user,
    ensures
        ({
            let handed = mail_ids(mailbox_store::mail_for(mail, user));
            let after = mailbox_store::without_ids(mail, user, handed);
            &&& after == mail_of_others(mail, user)
            &&& pending(after, user) == Seq::<Seq<u8>>::empty()
            &&& pending(after, other) == pending(mail, other)
        }),
{
    all_handed_is_all(mail, user);
    let rest = |m: MailModel| m.recipient != user;
    let mine = |m: MailModel| m.recipient == user;
    let theirs = |m: MailModel| m.recipient == other;
    mailbox_store::keep_twice(mail, rest, mine);
    mailbox_store::keep_twice(mail, rest, theirs);
    nothing_kept(mail, |m: MailModel| rest(m) && mine(m));
    mailbox_store::keep_same(mail, |m: MailModel| rest(m) && theirs(m), theirs);
    assert(pending(mail_of_others(mail, user), user) =~= Seq::<Seq<u8>>::empty());
}

/// Deleting all messages that wait for a user leaves those of the others.
pub(crate) proof fn all_handed_is_all(mail: Seq<MailModel>, user: Seq<char>)
    ensures
        mailbox_store::without_ids(
            mail,
            user,
            mail_ids(mailbox_store::mail_for(mail, user)),
        ) == mail_of_others(mail, user),
{
    let waiting = mailbox_store::mail_for(mail, user);
    let ids = mail_ids(waiting);
    let mine = |m: MailModel| m.recipient == user;
    let p = |m: MailModel| !(m.recipient == user && ids.contains(m.id));
    let q = |m: MailModel| m.recipient != user;
    assert forall|k: int| 0 <= k < mail.len() implies p(#[trigger] mail[k]) == q(mail[k]) by {
        if mail[k].recipient == user {
            assert(mail.contains(mail[k]));
            mailbox_store::keep_contains(mail, mine, mail[k]);
            let j = choose|j: int| 0 <= j < waiting.len() && waiting[j] == mail[k];
            assert(ids[j] == mail[k].id);
        }
    }
    mailbox_store::keep_same(mail, p, q);
}

/// A message that arrives after the fetch outlives the acknowledgement: it is
/// then the only one that waits for the receiver.
pub proof fn late_mail_survives(
    fetched: Seq<MailModel>,
    stored: Seq<MailModel>,
    mail: MailModel,
    other: Seq<char>,
)
    requires
        mailbox_store::one_more(fetched, stored, mail),
        other != mail.recipient,
        mailbox_store::fresh_id(fetched, mail.id),
    ensures
        ({
            let handed = mail_ids(mailbox_store::mail_for(fetched, mail.recipient));
            let after = mailbox_store::without_ids(stored, mail.recipient, handed);
            &&& pending(after, mail.recipient) == seq![mail.blob]
            &&& pending(after, other) == pending(fetched, other)
        }),
{
    let user = mail.recipient;
    let handed = mail_ids(mailbox_store::mail_for(fetched, user));
    assert(!handed.contains(mail.id)) by {
        if handed.contains(mail.id) {
            let waiting = mailbox_store::mail_for(fetched, user);
            let j = choose|j: int| 0 <= j < handed.len() && handed[j] == mail.id;
            mailbox_store::keep_contains(fetched, |m: MailModel| m.recipient == user, waiting[j]);
            assert(waiting.contains(waiting[j]));
            let k = choose|k: int| 0 <= k < fetched.len() && fetched[k] == waiting[j];
            assert(fetched[k].id == mail.id);
        }
    }
    let left = |m: MailModel| !(m.recipient == user && handed.contains(m.id));
    let mine = |m: MailModel| m.recipient == user;
    let theirs = |m: MailModel| m.recipient == other;
    let mine_left = |m: MailModel| left(m) && mine(m);
    let theirs_left = |m: MailModel| left(m) && theirs(m);
    mailbox_store::keep_twice(stored, left, mine);
    mailbox_store::keep_twice(stored, left, theirs);
    mailbox_store::keep_twice(fetched, left, mine);
    mailbox_store::keep_same(stored, theirs_left, theirs);
    acknowledged_mail_is_gone(fetched, user, other);
    assert(mailbox_store::keep(fetched, mine_left) =~= Seq::<MailModel>::empty()) by {
        assert(pending(mailbox_store::without_ids(fetched, user, handed), user).len() == 0);
    }
    let at = choose|at: int|
        0 <= at <= fetched.len() && stored == #[trigger] fetched.insert(at, mail);
    let head = fetched.take(at);
    let tail = fetched.skip(at);
    assert(stored =~= head.push(mail) + tail);
    assert(fetched =~= head + tail);
    mailbox_store::keep_add(head, tail, mine_left);
    mailbox_store::keep_add(head.push(mail), tail, mine_left);
    mailbox_store::keep_push(head, mail, mine_left);
    let after = mailbox_store::without_ids(stored, user, handed);
    assert(mailbox_store::mail_for(after, user) =~= seq![mail]);
    assert(pending(after, user) =~= seq![mail.blob]);
    stored_mail_is_pending(fetched, stored, mail, other);
}

/// A condition that nothing satisfies keeps nothing.
proof fn nothing_kept(mail: Seq<MailModel>, wanted: spec_fn(MailModel) -> bool)
    requires
        forall|m: MailModel| !#[trigger] wanted(m),
    ensures
        mailbox_store::keep(mail, wanted) == Seq::<MailModel>::empty(),
    decreases mail.len(),
{
    if mail.len() > 0 {
        nothing_kept(mail.drop_last(), wanted);
    }
}

/// Whether no mailbox holds more than it may.
pub open spec fn within_limits(mail: Seq<MailModel>) -> bool {
    forall|user: Seq<char>|
        (#[trigger] pending(mail, user)).len() <= MAILBOX_MAX_MESSAGES_PER_USER
}

/// No mailbox grows past the limit: neither storing a message where there is
/// room nor acknowledging any messages, nor clearing out what has expired,
/// makes one larger than it may be.
pub proof fn mailboxes_stay_within_limit(
    before: Seq<MailModel>,
    stored: Seq<MailModel>,
    mail: MailModel,
    user: Seq<char>,
    ids: Seq<i64>,
    now: u64,
)
    requires
        within_limits(before),
        mailbox_store::one_more(before, stored, mail),
        pending(before, mail.recipient).len() < MAILBOX_MAX_MESSAGES_PER_USER,
    ensures
        within_limits(stored),
        within_limits(mailbox_store::without_ids(before, user, ids)),
        within_limits(mailbox_store::unexpired(before, now)),
{
    assert forall|other: Seq<char>|
        (#[trigger] pending(stored, other)).len() <= MAILBOX_MAX_MESSAGES_PER_USER by {
        stored_mail_is_pending(before, stored, mail, other);
        assert(pending(before, other).len() <= MAILBOX_MAX_MESSAGES_PER_USER);
    }
    fewer_are_pending(before, |m: MailModel| !(m.recipient == user && ids.contains(m.id)));
    fewer_are_pending(before, |m: MailModel| m.expires_at > now);
}

/// Keeping only some messages makes no mailbox larger.
proof fn fewer_are_pending(mail: Seq<MailModel>, wanted: spec_fn(MailModel) -> bool)
    requires
        within_limits(mail),
    ensures
        within_limits(mailbox_store::keep(mail, wanted)),
{
    assert forall|user: Seq<char>|
        (#[trigger] pending(mailbox_store::keep(mail, wanted), user)).len()
            <= MAILBOX_MAX_MESSAGES_PER_USER by {
        let mine = |m: MailModel| m.recipient == user;
        mailbox_store::keep_twice(mail, wanted, mine);
        fewer_are_kept(mail, |m: MailModel| wanted(m) && mine(m), mine);
        assert(pending(mail, user).len() <= MAILBOX_MAX_MESSAGES_PER_USER);
    }
}

/// A narrower condition keeps no more.
proof fn fewer_are_kept(
    mail: Seq<MailModel>,
    narrow: spec_fn(MailModel) -> bool,
    wide: spec_fn(MailModel) -> bool,
)
    requires
        forall|m: MailModel| #[trigger] narrow(m) ==> wide(m),
    ensures
        mailbox_store::keep(mail, narrow).len() <= mailbox_store::keep(mail, wide).len(),
    decreases mail.len(),
{
    if mail.len() > 0 {
        fewer_are_kept(mail.drop_last(), narrow, wide);
    }
}

/// A cleanup removes exactly the expired messages.
pub proof fn cleanup_removes_only_expired(mail: Seq<MailModel>, now: u64, m: MailModel)
    ensures
        mailbox_store::unexpired(mail, now).contains(m) <==> mail.contains(m) && m.expires_at > now,
{
    mailbox_store::keep_contains(mail, |x: MailModel| x.expires_at > now, m);
}

/// When a user's messages are deleted, those of all others stay, in order, and
/// none of the user's.
pub proof fn others_keep_their_mail(mail: Seq<MailModel>, user: Seq<char>) -> (places: Seq<int>)
    ensures
        mailbox_store::stand_at(mail, mail_of_others(mail, user), places),
        forall|i: int|
            0 <= i < mail.len() ==> ((#[trigger] mail[i]).recipient != user <==> places.contains(
                i,
            )),
{
    mailbox_store::keep_places(mail, |m: MailModel| m.recipient != user)
}

} // verus!
