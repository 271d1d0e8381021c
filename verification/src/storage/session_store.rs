//! Sessions as rows of a table.
use vstd::prelude::*;

use crate::bytes;
use crate::crypto::ratchet;
use crate::crypto::ratchet::RatchetModel;
use crate::crypto::RatchetState;
use crate::errors::{CryptoError, MessengerError};
use crate::session::state;
use crate::session::state::{Session, SessionModel, SessionOrigin};
use crate::types::SessionId;

verus! {

/// What a store holds of the sessions, and whether it can be relied on.
#[verifier::ext_equal]
pub struct StoreModel {
    /// The stored sessions by their ids.
    pub stored: StoredSessions,
    /// Whether no operation can fail.
    pub dependable: bool,
}

/// What is stored of a session: all but the keys of messages that were
/// skipped.
pub open spec fn saved(s: SessionModel) -> SessionModel {
    SessionModel { ratchet: RatchetModel { skipped: Map::empty(), ..s.ratchet }, ..s }
}

/// Sessions by their ids.
pub type StoredSessions = Map<Seq<char>, SessionModel>;

/// Where sessions survive a restart of the process.
pub trait SessionStore {
    /// The stored sessions. Only contracts speak of them: a store whose code
    /// is not verified keeps the promises of the two methods below about what
    /// it holds, and has nothing to compute here.
    spec fn stored(&self) -> StoredSessions;

    /// Whether no operation can fail.
    open spec fn dependable(&self) -> bool {
        false
    }

    /// Stores a session, replacing what was stored of it.
    fn save(&mut self, session: &Session) -> (result: Result<(), MessengerError>)
        ensures
            result is Ok ==> final(self).stored() == old(self).stored().insert(
                session@.id,
                saved(session@),
            ),
            result is Err ==> final(self).stored() == old(self).stored(),
            old(self).dependable() ==> result is Ok && final(self).dependable(),
    ;

    /// The stored session with an id, if there is one.
    fn load(&self, id: &SessionId) -> (result: Result<Option<Session>, MessengerError>)
        ensures
            result matches Ok(found) ==> (match found {
                Some(session) => {
                    &&& self.stored().dom().contains(id.0@)
                    &&& session@ == self.stored()[id.0@]
                    &&& session@.id == id.0@
                },
                None => !self.stored().dom().contains(id.0@),
            }),
            self.dependable() ==> result is Ok,
    ;
}

/// What a store is in the model.
pub open spec fn store_model<S: SessionStore>(store: S) -> StoreModel {
    StoreModel { stored: store.stored(), dependable: store.dependable() }
}

/// A session as a row of a table.
pub struct SessionRow {
    pub session_id: String,
    pub peer: String,
    pub origin: String,
    pub send_chain_key: Vec<u8>,
    pub send_counter: u32,
    pub recv_chain_key: Vec<u8>,
    pub recv_counter: u32,
    pub created_at: i64,
    pub last_used_at: i64,
    pub messages_sent: i64,
    pub messages_received: i64,
}

/// The word for an origin in a row.
pub open spec fn origin_text(origin: SessionOrigin) -> Seq<char> {
    match origin {
        SessionOrigin::Initiated => "initiated"@,
        SessionOrigin::Accepted => "accepted"@,
    }
}

/// The origin that a word in a row stands for.
pub open spec fn text_origin(text: Seq<char>) -> SessionOrigin {
    if text == "accepted"@ {
        SessionOrigin::Accepted
    } else {
        SessionOrigin::Initiated
    }
}

/// The word for an origin in a row.
pub fn origin_to_str(origin: SessionOrigin) -> (text: &'static str)
    ensures
        text@ == origin_text(origin),
        origin == SessionOrigin::Initiated ==> text@ == "initiated"@,
        origin == SessionOrigin::Accepted ==> text@ == "accepted"@,
{
    match origin {
        SessionOrigin::Initiated => "initiated",
        SessionOrigin::Accepted => "accepted",
    }
}

/// The origin that a word in a row stands for.
pub fn str_to_origin(text: &String) -> (origin: SessionOrigin)
    ensures
        origin == text_origin(text@),
{
    let accepted: String = "accepted".to_owned();
    if *text == accepted {
        SessionOrigin::Accepted
    } else {
        SessionOrigin::Initiated
    }
}

/// An origin is read back from its word.
pub proof fn origins_are_read_back(origin: SessionOrigin)
    ensures
        text_origin(origin_text(origin)) == origin,
{
    reveal_strlit("initiated");
    reveal_strlit("accepted");
    assert("initiated"@.len() != "accepted"@.len());
}

/// The state of the chains in a row, when its keys have the right length.
pub open spec fn row_ratchet(row: SessionRow) -> RatchetModel {
    RatchetModel {
        send_chain: row.send_chain_key@,
        send_counter: row.send_counter as nat,
        recv_chain: row.recv_chain_key@,
        recv_counter: row.recv_counter as nat,
        skipped: Map::empty(),
    }
}

/// The session that a row describes.
pub open spec fn row_session(row: SessionRow) -> SessionModel {
    SessionModel {
        id: row.peer@,
        peer: row.peer@,
        origin: text_origin(row.origin@),
        ratchet: row_ratchet(row),
        created_at: row.created_at as u64,
        last_used_at: row.last_used_at as u64,
        messages_sent: row.messages_sent as u64,
        messages_received: row.messages_received as u64,
    }
}

/// Whether a row is the one that stores a session.
pub open spec fn row_of(row: SessionRow, s: SessionModel) -> bool {
    &&& row.session_id@ == s.id
    &&& row.peer@ == s.peer
    &&& row.origin@ == origin_text(s.origin)
    &&& row_ratchet(row) == (RatchetModel { skipped: Map::empty(), ..s.ratchet })
    &&& row.send_chain_key@.len() == 32
    &&& row.recv_chain_key@.len() == 32
    &&& row.created_at == s.created_at as i64
    &&& row.last_used_at == s.last_used_at as i64
    &&& row.messages_sent == s.messages_sent as i64
    &&& row.messages_received == s.messages_received as i64
}

/// The row that stores a session.
pub fn session_to_row(session: &Session) -> (row: SessionRow)
    ensures
        row_of(row, session@),
        row.session_id@ == session@.id,
        row.peer@ == session@.peer,
        row.send_chain_key@ == session@.ratchet.send_chain,
        row.send_counter == session@.ratchet.send_counter,
        row.recv_chain_key@ == session@.ratchet.recv_chain,
        row.recv_counter == session@.ratchet.recv_counter,
        row.created_at as u64 == session@.created_at,
        row.last_used_at as u64 == session@.last_used_at,
        row.messages_sent as u64 == session@.messages_sent,
        row.messages_received as u64 == session@.messages_received,
{
    proof {
        state::session_fields(*session);
    }
    proof {
        stored_number_is_read_back(session.created_at);
        stored_number_is_read_back(session.last_used_at);
        stored_number_is_read_back(session.messages_sent);
        stored_number_is_read_back(session.messages_received);
    }
    let state = session.export_ratchet_state();
    let origin: String = origin_to_str(session.origin).to_owned();
    SessionRow {
        session_id: session.id.0.clone(),
        peer: session.peer.clone(),
        origin,
        send_chain_key: bytes::to_vec(state.send_chain_key.as_slice()),
        send_counter: state.send_counter,
        recv_chain_key: bytes::to_vec(state.recv_chain_key.as_slice()),
        recv_counter: state.recv_counter,
        created_at: #[verifier::truncate] (session.created_at as i64),
        last_used_at: #[verifier::truncate] (session.last_used_at as i64),
        messages_sent: #[verifier::truncate] (session.messages_sent as i64),
        messages_received: #[verifier::truncate] (session.messages_received as i64),
    }
}

/// The session of a row; an error where a chain key is not 32 bytes long.
pub fn session_from_row(row: SessionRow) -> (session: Result<Session, MessengerError>)
    ensures
        session matches Ok(s) ==> {
            &&& s@.id == row.peer@
            &&& s@.peer == row.peer@
            &&& s@.origin == SessionOrigin::Accepted <==> row.origin@ == "accepted"@
            &&& s@.ratchet.send_chain == row.send_chain_key@
            &&& s@.ratchet.send_counter == row.send_counter
            &&& s@.ratchet.recv_chain == row.recv_chain_key@
            &&& s@.ratchet.recv_counter == row.recv_counter
            &&& s@.created_at == row.created_at as u64
            &&& s@.last_used_at == row.last_used_at as u64
            &&& s@.messages_sent == row.messages_sent as u64
            &&& s@.messages_received == row.messages_received as u64
        },
        if row.send_chain_key@.len() == 32 && row.recv_chain_key@.len() == 32 {
            session matches Ok(s) && s@ == row_session(row)
        } else {
            session == Err::<Session, _>(MessengerError::Crypto(CryptoError::StoredChainKey))
        },
{
    match (
        bytes::to_array32(row.send_chain_key.as_slice()),
        bytes::to_array32(row.recv_chain_key.as_slice()),
    ) {
        (Some(send_chain_key), Some(recv_chain_key)) => {
            let origin = str_to_origin(&row.origin);
            let state = RatchetState {
                send_chain_key,
                send_counter: row.send_counter,
                recv_chain_key,
                recv_counter: row.recv_counter,
            };
            Ok(
                Session::restore(
                    row.peer,
                    origin,
                    state,
                    #[verifier::truncate] (row.created_at as u64),
                    #[verifier::truncate] (row.last_used_at as u64),
                    #[verifier::truncate] (row.messages_sent as u64),
                    #[verifier::truncate] (row.messages_received as u64),
                ),
            )
        },
        _ => Err(MessengerError::Crypto(CryptoError::StoredChainKey)),
    }
}

/// A number survives being stored as a signed one.
proof fn stored_number_is_read_back(value: u64)
    ensures
        (value as i64) as u64 == value,
{
    assert((value as i64) as u64 == value) by (bit_vector);
}

/// A session survives a restart: the row that stores it gives back the same
/// session, except for the keys of messages that were skipped.
pub proof fn stored_sessions_are_read_back(row: SessionRow, s: SessionModel)
    requires
        row_of(row, s),
        s.id == s.peer,
    ensures
        row_session(row) == (SessionModel {
            ratchet: RatchetModel { skipped: Map::empty(), ..s.ratchet },
            ..s
        }),
{
    origins_are_read_back(s.origin);
    stored_number_is_read_back(s.created_at);
    stored_number_is_read_back(s.last_used_at);
    stored_number_is_read_back(s.messages_sent);
    stored_number_is_read_back(s.messages_received);
}

} // verus!
