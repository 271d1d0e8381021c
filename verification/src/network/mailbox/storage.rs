//! A mailbox store in memory.
use vstd::prelude::*;

use crate::bytes;
use crate::clock;
use crate::errors::MessengerError;
use crate::storage::mailbox_store;
use crate::storage::mailbox_store::{MailModel, MailboxStore, StoredMailboxEntry};
use crate::types::UserId;

verus! {

/// One waiting message.
struct InMemoryEntry {
    recipient: UserId,
    id: i64,
    encrypted_blob: Vec<u8>,
    stored_at_unix: u64,
    expires_at_unix: u64,
}

/// The value of an entry.
spec fn entry_mail(e: InMemoryEntry) -> MailModel {
    MailModel {
        recipient: e.recipient@,
        id: e.id,
        blob: e.encrypted_blob@,
        stored_at: e.stored_at_unix,
        expires_at: e.expires_at_unix,
    }
}

/// The values of entries.
spec fn entries_mail(entries: Seq<InMemoryEntry>) -> Seq<MailModel> {
    entries.map_values(|e: InMemoryEntry| entry_mail(e))
}

/// Messages in memory, the oldest first.
pub struct InMemoryMailboxStore {
    entries: Vec<InMemoryEntry>,
    next_id: i64,
}

impl InMemoryMailboxStore {
    /// The id that the next message gets.
    pub closed spec fn next(&self) -> i64 {
        self.next_id
    }

    /// Ids are handed out in order: every message has a smaller one than the
    /// next, and no two have the same.
    pub closed spec fn wf(&self) -> bool {
        &&& 1 <= self.next_id
        &&& forall|i: int|
            0 <= i < self.entries@.len() ==> 1 <= (#[trigger] self.entries@[i]).id < self.next_id
        &&& forall|i: int, j: int|
            0 <= i < j < self.entries@.len() ==> (#[trigger] self.entries@[i]).id < (
            #[trigger] self.entries@[j]).id
    }

    /// A store without messages.
    pub fn new() -> (store: Self)
        ensures
            store.valid(),
            store.mail() == Seq::<MailModel>::empty(),
            store.next() == 1,
    {
        let store = InMemoryMailboxStore { entries: Vec::new(), next_id: 1 };
        assert(store.mail() =~= Seq::<MailModel>::empty());
        store
    }

    /// Stores a message at the time `now`. It fails only when there is no id
    /// left.
    pub fn insert_at(&mut self, recipient: &UserId, blob: Vec<u8>, ttl_secs: u64, now: u64) -> (
        result: Result<(), MessengerError>)
        requires
            old(self).valid(),
        ensures
            final(self).valid(),
            result is Ok <==> old(self).next() < i64::MAX,
            result is Err ==> *final(self) == *old(self),
            result is Ok ==> final(self).mail() == old(self).mail().push(
                mailbox_store::new_mail(recipient@, old(self).next(), blob@, now, ttl_secs),
            ) && final(self).next() == old(self).next() + 1,
    {
        if self.next_id == i64::MAX {
            return Err(MessengerError::Storage("no message id is left".to_owned()));
        }
        let ghost before = self.entries@;
        let id: i64 = self.next_id;
        self.next_id = self.next_id + 1;
        let entry = InMemoryEntry {
            recipient: recipient.clone(),
            id,
            encrypted_blob: blob,
            stored_at_unix: now,
            expires_at_unix: now.saturating_add(ttl_secs),
        };
        self.entries.push(entry);
        assert(self.mail() =~= entries_mail(before).push(entry_mail(entry)));
        Ok(())
    }
}

impl Default for InMemoryMailboxStore {
    fn default() -> (store: Self)
        ensures
            store.valid(),
            store.mail() == Seq::<MailModel>::empty(),
            store.next() == 1,
    {
        InMemoryMailboxStore::new()
    }
}

impl MailboxStore for InMemoryMailboxStore {
    closed spec fn valid(&self) -> bool {
        self.wf()
    }

    closed spec fn mail(&self) -> Seq<MailModel> {
        entries_mail(self.entries@)
    }

    open spec fn dependable(&self) -> bool {
        true
    }

    open spec fn room(&self) -> nat {
        (i64::MAX - self.next()) as nat
    }

    fn insert(&mut self, recipient: &UserId, blob: Vec<u8>, ttl_secs: u64) -> (result: Result<
        (),
        MessengerError,
    >)
        ensures
            result is Ok <==> old(self).next() < i64::MAX,
            result is Ok ==> final(self).next() == old(self).next() + 1,
            result is Err ==> *final(self) == *old(self),
    {
        let ghost before = self.mail();
        let ghost id = self.next();
        let now: u64 = clock::now_unix();
        let result = self.insert_at(recipient, blob, ttl_secs, now);
        proof {
            if result is Ok {
                let mail = mailbox_store::new_mail(recipient@, id, blob@, now, ttl_secs);
                assert(before.push(mail) =~= before.insert(before.len() as int, mail));
                assert(mailbox_store::one_more(before, self.mail(), mail));
                assert(mailbox_store::fresh_id(before, id)) by {
                    assert forall|i: int| 0 <= i < before.len() implies (#[trigger] before[i]).id
                        != id by {
                        assert(1 <= old(self).entries@[i].id < id);
                    }
                }
            }
        }
        result
    }

    fn fetch_all(&self, recipient: &UserId) -> (result: Result<
        Vec<StoredMailboxEntry>,
        MessengerError,
    >) {
        let mut found: Vec<StoredMailboxEntry> = Vec::new();
        let mut i: usize = 0;
        let ghost wanted = |m: MailModel| m.recipient == recipient@;
        assert(self.mail().take(0) =~= Seq::<MailModel>::empty());
        while i < self.entries.len()
            invariant
                i <= self.entries@.len(),
                wanted == |m: MailModel| m.recipient == recipient@,
                mailbox_store::all_handed_out(found@, recipient@) =~= mailbox_store::keep(
                    self.mail().take(i as int),
                    wanted,
                ),
            decreases self.entries@.len() - i,
        {
            let entry = &self.entries[i];
            proof {
                mailbox_store::keep_next(self.mail(), i as int, wanted);
                assert(self.mail()[i as int] == entry_mail(*entry));
            }
            if entry.recipient == *recipient {
                let handed = StoredMailboxEntry {
                    id: entry.id,
                    encrypted_blob: bytes::to_vec(entry.encrypted_blob.as_slice()),
                    stored_at_unix: entry.stored_at_unix,
                    expires_at_unix: entry.expires_at_unix,
                };
                let ghost before = found@;
                found.push(handed);
                assert(mailbox_store::all_handed_out(found@, recipient@)
                    =~= mailbox_store::all_handed_out(before, recipient@).push(
                    entry_mail(*entry),
                ));
            }
            i = i + 1;
        }
        assert(self.mail().take(i as int) =~= self.mail());
        Ok(found)
    }

    fn delete(&mut self, recipient: &UserId, ids: &Vec<i64>) -> (result: Result<(), MessengerError>)
        ensures
            result is Ok,
            final(self).next() == old(self).next(),
    {
        let ghost all = self.mail();
        let ghost total = self.entries@;
        let ghost wanted = |m: MailModel| !(m.recipient == recipient@ && ids@.contains(m.id));
        let mut i: usize = 0;
        let ghost mut seen: int = 0;
        assert(all.take(0) =~= Seq::<MailModel>::empty());
        assert(entries_mail(self.entries@.take(0)) =~= Seq::<MailModel>::empty());
        while i < self.entries.len()
            invariant
                self.wf(),
                self.next() == old(self).next(),
                all == entries_mail(total),
                wanted == |m: MailModel| !(m.recipient == recipient@ && ids@.contains(m.id)),
                0 <= seen <= total.len(),
                i <= self.entries@.len(),
                self.entries@.len() - i == total.len() - seen,
                self.entries@.skip(i as int) =~= total.skip(seen),
                entries_mail(self.entries@.take(i as int)) =~= mailbox_store::keep(
                    all.take(seen),
                    wanted,
                ),
            decreases self.entries@.len() - i,
        {
            proof {
                mailbox_store::keep_next(all, seen, wanted);
                assert(self.entries@.skip(i as int)[0] == total.skip(seen)[0]);
                assert(all[seen] == entry_mail(self.entries@[i as int]));
            }
            let ghost before = self.entries@;
            let unwanted = self.entries[i].recipient == *recipient && contains_id(
                ids,
                self.entries[i].id,
            );
            if unwanted {
                self.entries.remove(i);
                assert(self.entries@.take(i as int) =~= before.take(i as int));
                assert(self.entries@.skip(i as int) =~= before.skip(i + 1));
            } else {
                i = i + 1;
                assert(entries_mail(before.take(i as int)) =~= entries_mail(
                    before.take(i - 1),
                ).push(entry_mail(before[i - 1])));
            }
            proof {
                seen = seen + 1;
                assert(total.skip(seen) =~= total.skip(seen - 1).skip(1));
            }
        }
        proof {
            assert(all.take(seen) =~= all);
            assert(self.entries@.take(i as int) =~= self.entries@);
        }
        Ok(())
    }

    fn count_for_user(&self, recipient: &UserId) -> (result: Result<usize, MessengerError>) {
        let mut count: usize = 0;
        let mut i: usize = 0;
        let ghost wanted = |m: MailModel| m.recipient == recipient@;
        assert(self.mail().take(0) =~= Seq::<MailModel>::empty());
        while i < self.entries.len()
            invariant
                i <= self.entries@.len(),
                count <= i,
                wanted == |m: MailModel| m.recipient == recipient@,
                count == mailbox_store::keep(self.mail().take(i as int), wanted).len(),
            decreases self.entries@.len() - i,
        {
            proof {
                mailbox_store::keep_next(self.mail(), i as int, wanted);
                assert(self.mail()[i as int] == entry_mail(self.entries@[i as int]));
            }
            if self.entries[i].recipient == *recipient {
                count = count + 1;
            }
            i = i + 1;
        }
        assert(self.mail().take(i as int) =~= self.mail());
        Ok(count)
    }

    fn delete_expired(&mut self, now: u64) -> (result: Result<usize, MessengerError>)
        ensures
            result is Ok,
            final(self).next() == old(self).next(),
    {
        let ghost all = self.mail();
        let ghost total = self.entries@;
        let ghost wanted = |m: MailModel| m.expires_at > now;
        let mut i: usize = 0;
        let mut deleted: usize = 0;
        let ghost mut seen: int = 0;
        assert(self.entries@.len() == self.entries.len());
        assert(all.take(0) =~= Seq::<MailModel>::empty());
        assert(entries_mail(self.entries@.take(0)) =~= Seq::<MailModel>::empty());
        while i < self.entries.len()
            invariant
                self.wf(),
                self.next() == old(self).next(),
                all == entries_mail(total),
                wanted == |m: MailModel| m.expires_at > now,
                0 <= seen <= total.len(),
                total.len() <= usize::MAX,
                i <= self.entries@.len(),
                deleted == seen - i,
                self.entries@.len() - i == total.len() - seen,
                self.entries@.skip(i as int) =~= total.skip(seen),
                entries_mail(self.entries@.take(i as int)) =~= mailbox_store::keep(
                    all.take(seen),
                    wanted,
                ),
            decreases self.entries@.len() - i,
        {
            proof {
                mailbox_store::keep_next(all, seen, wanted);
                assert(self.entries@.skip(i as int)[0] == total.skip(seen)[0]);
                assert(all[seen] == entry_mail(self.entries@[i as int]));
            }
            let ghost before = self.entries@;
            if self.entries[i].expires_at_unix > now {
                i = i + 1;
                assert(entries_mail(before.take(i as int)) =~= entries_mail(
                    before.take(i - 1),
                ).push(entry_mail(before[i - 1])));
            } else {
                self.entries.remove(i);
                deleted = deleted + 1;
                assert(self.entries@.take(i as int) =~= before.take(i as int));
                assert(self.entries@.skip(i as int) =~= before.skip(i + 1));
            }
            proof {
                seen = seen + 1;
                assert(total.skip(seen) =~= total.skip(seen - 1).skip(1));
            }
        }
        proof {
            assert(all.take(seen) =~= all);
            assert(self.entries@.take(i as int) =~= self.entries@);
        }
        Ok(deleted)
    }
}

/// Whether an id is among some ids.
fn contains_id(ids: &Vec<i64>, id: i64) -> (found: bool)
    ensures
        found == ids@.contains(id),
{
    let mut i: usize = 0;
    while i < ids.len()
        invariant
            i <= ids@.len(),
            forall|j: int| 0 <= j < i ==> ids@[j] != id,
        decreases ids@.len() - i,
    {
        if ids[i] == id {
            assert(ids@[i as int] == id);
            return true;
        }
        i = i + 1;
    }
    false
}

} // verus!
