//! What is made of the rows in the local database.
use vstd::prelude::*;

use crate::bytes;
use crate::crypto::suite;
use crate::encoding;
use crate::errors::MessengerError;
use crate::identity::Identity;
use crate::types::UserId;

verus! {

/// The identity in a row. A secret that is not 32 bytes long is damaged and
/// counts as none.
pub fn identity_from_row(secret: &[u8], user_id: String) -> (found: Option<([u8; 32], String)>)
    ensures
        found is Some <==> secret@.len() == 32,
        found matches Some(f) ==> f.0@ == secret@ && f.1 == user_id,
{
    match bytes::to_array32(secret) {
        Some(key) => Some((key, user_id)),
        None => None,
    }
}

/// The session keys in a row. Where one of them is not 32 bytes long, there
/// are none.
pub fn x3dh_keys_from_row(identity_secret: &[u8], prekey_secret: &[u8]) -> (found: Option<
    ([u8; 32], [u8; 32]),
>)
    ensures
        found is Some <==> identity_secret@.len() == 32 && prekey_secret@.len() == 32,
        found matches Some(f) ==> f.0@ == identity_secret@ && f.1@ == prekey_secret@,
{
    match (bytes::to_array32(identity_secret), bytes::to_array32(prekey_secret)) {
        (Some(identity_key), Some(prekey)) => Some((identity_key, prekey)),
        _ => None,
    }
}

/// The onion key in a row. One that is not 32 bytes long counts as none.
pub fn onion_key_from_row(secret: &[u8]) -> (found: Option<[u8; 32]>)
    ensures
        found is Some <==> secret@.len() == 32,
        found matches Some(key) ==> key@ == secret@,
{
    bytes::to_array32(secret)
}

/// The key that verifies a contact's signatures, from what is stored of the
/// contact.
pub fn contact_identity_key(peer: &UserId, stored: Option<Vec<u8>>) -> (key: Result<
    [u8; 32],
    MessengerError,
>)
    ensures
        match stored {
            Some(data) if data@.len() == 32 && suite::ed25519_is_key(data@) => {
                key matches Ok(k) && k@ == data@
            },
            _ => key == Err::<[u8; 32], _>(MessengerError::IdentityKeyNotFound(*peer)),
        },
{
    match stored {
        Some(data) => match Identity::verifying_key_from_bytes(data.as_slice()) {
            Some(key) => Ok(key),
            None => Err(MessengerError::IdentityKeyNotFound(peer.clone())),
        },
        None => Err(MessengerError::IdentityKeyNotFound(peer.clone())),
    }
}

/// The public key that a user entered for a contact, in hexadecimal digits.
pub fn entered_public_key(public_key_hex: &str) -> (key: Option<Vec<u8>>)
    ensures
        match encoding::hex_value(public_key_hex@) {
            Some(data) => key matches Some(k) && k@ == data,
            None => key is None,
        },
{
    encoding::hex_decode(public_key_hex)
}

/// A message in the history with a contact.
#[derive(Debug)]
pub struct HistoryRow {
    /// `sent` or `received`.
    pub direction: String,
    pub text: String,
    pub sent_at: i64,
}

/// The rows of one moment.
pub open spec fn at_time(rows: Seq<HistoryRow>, time: i64) -> Seq<HistoryRow> {
    rows.filter(|r: HistoryRow| r.sent_at == time)
}

/// Whether rows are in the order of time.
pub open spec fn in_order(rows: Seq<HistoryRow>) -> bool {
    forall|i: int, j: int|
        0 <= i < j < rows.len() ==> (#[trigger] rows[i]).sent_at <= (#[trigger] rows[j]).sent_at
}

/// No row of another time passes the filter.
proof fn none_at_time(rows: Seq<HistoryRow>, time: i64)
    requires
        forall|i: int| 0 <= i < rows.len() ==> (#[trigger] rows[i]).sent_at != time,
    ensures
        at_time(rows, time) == Seq::<HistoryRow>::empty(),
    decreases rows.len(),
{
    reveal(Seq::filter);
    if rows.len() > 0 {
        none_at_time(rows.drop_last(), time);
        assert(rows.last() == rows[rows.len() - 1]);
    }
    assert(at_time(rows, time) =~= Seq::<HistoryRow>::empty());
}

/// A row behind all of its time comes last among them.
proof fn inserted_at_time(rows: Seq<HistoryRow>, at: int, row: HistoryRow, time: i64)
    requires
        0 <= at <= rows.len(),
        forall|i: int| at <= i < rows.len() ==> (#[trigger] rows[i]).sent_at > row.sent_at,
    ensures
        at_time(rows.insert(at, row), time) == at_time(rows.push(row), time),
{
    let pred = |r: HistoryRow| r.sent_at == time;
    let head = rows.take(at);
    let tail = rows.skip(at);
    let one = seq![row];
    assert(rows.insert(at, row) =~= head + one + tail);
    assert(rows.push(row) =~= head + tail + one);
    Seq::filter_distributes_over_add(head + one, tail, pred);
    Seq::filter_distributes_over_add(head, one, pred);
    Seq::filter_distributes_over_add(head + tail, one, pred);
    Seq::filter_distributes_over_add(head, tail, pred);
    if time == row.sent_at {
        assert forall|i: int| 0 <= i < tail.len() implies (#[trigger] tail[i]).sent_at != time by {
            assert(tail[i] == rows[at + i]);
        }
        none_at_time(tail, time);
    } else {
        none_at_time(one, time);
    }
    assert(at_time(rows.insert(at, row), time) =~= at_time(rows.push(row), time));
}

/// The messages of a history in the order of time. Messages of the same
/// moment keep their order.
pub fn chronological(rows: Vec<HistoryRow>) -> (sorted: Vec<HistoryRow>)
    ensures
        in_order(sorted@),
        forall|time: i64| #[trigger] at_time(sorted@, time) == at_time(rows@, time),
{
    let ghost all = rows@;
    let mut rows = rows;
    let mut sorted: Vec<HistoryRow> = Vec::new();
    let ghost mut done: int = 0;
    assert(all.take(0) =~= Seq::empty());
    while rows.len() > 0
        invariant
            0 <= done <= all.len(),
            rows@ =~= all.skip(done),
            in_order(sorted@),
            forall|time: i64| #[trigger] at_time(sorted@, time) == at_time(all.take(done), time),
        decreases rows@.len(),
    {
        let ghost before = sorted@;
        let row = rows.remove(0);
        assert(row == all[done]);
        let mut at: usize = sorted.len();
        while at > 0 && sorted[at - 1].sent_at > row.sent_at
            invariant
                at <= sorted@.len(),
                forall|i: int|
                    at <= i < sorted@.len() ==> (#[trigger] sorted@[i]).sent_at > row.sent_at,
            decreases at,
        {
            at = at - 1;
        }
        sorted.insert(at, row);
        proof {
            assert(in_order(sorted@)) by {
                assert forall|i: int, j: int| 0 <= i < j < sorted@.len() implies (
                #[trigger] sorted@[i]).sent_at <= (#[trigger] sorted@[j]).sent_at by {
                    let i0 = if i < at { i } else { i - 1 };
                    let j0 = if j < at { j } else { j - 1 };
                    if i < at && at > 0 {
                        assert(before[i].sent_at <= before[at - 1].sent_at || i == at - 1);
                    }
                    if i != at {
                        assert(sorted@[i] == before[i0]);
                    }
                    if j != at {
                        assert(sorted@[j] == before[j0]);
                    }
                }
            }
            assert(all.take(done + 1) =~= all.take(done).push(row));
            assert forall|time: i64| #[trigger]
                at_time(sorted@, time) == at_time(all.take(done + 1), time) by {
                inserted_at_time(before, at as int, row, time);
                let pred = |r: HistoryRow| r.sent_at == time;
                let one = seq![row];
                assert(before.push(row) =~= before + one);
                assert(all.take(done).push(row) =~= all.take(done) + one);
                Seq::filter_distributes_over_add(before, one, pred);
                Seq::filter_distributes_over_add(all.take(done), one, pred);
                assert(at_time(before, time) == at_time(all.take(done), time));
            }
            done = done + 1;
        }
    }
    assert(all.take(done) =~= all);
    sorted
}

} // verus!
