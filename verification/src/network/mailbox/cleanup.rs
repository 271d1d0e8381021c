//! Clearing out expired messages.
use vstd::prelude::*;

use crate::clock;
use crate::errors::MessengerError;
use crate::storage::mailbox_store;
use crate::storage::mailbox_store::MailboxStore;

verus! {

/// Deletes all messages that have expired. Returns how many they were.
pub fn cleanup_once<S: MailboxStore>(store: &mut S) -> (result: Result<usize, MessengerError>)
    requires
        old(store).valid(),
    ensures
        final(store).valid(),
        old(store).dependable() ==> result is Ok && final(store).dependable(),
        final(store).room() >= old(store).room(),
        result is Err ==> final(store).mail() == old(store).mail(),
        result matches Ok(deleted) ==> {
            &&& exists|now: u64|
                clock::told(now) && final(store).mail() == #[trigger] mailbox_store::unexpired(old(store).mail(), now)
            &&& deleted == old(store).mail().len() - final(store).mail().len()
        },
{
    let now: u64 = clock::now_unix();
    let result = store.delete_expired(now);
    assert(result is Ok ==> store.mail() == mailbox_store::unexpired(old(store).mail(), now));
    result
}

} // verus!
