//! One end-to-end session with one peer: a ratchet and what the session
//! manager has to know about its use.
use vstd::prelude::*;

use crate::clock;
use crate::crypto::ratchet;
use crate::crypto::ratchet::RatchetModel;
use crate::crypto::suite;
use crate::crypto::{DoubleRatchet, EncryptedEnvelope, EnvelopeModel, RatchetRole, RatchetState};
use crate::errors::{CryptoError, MessengerError};
use crate::types::{SessionId, UserId};
use vstd::utf8;

verus! {

/// Who started the session.
#[derive(Debug, Clone, Copy, PartialEq, Eq, Structural)]
pub enum SessionOrigin {
    /// This node did.
    Initiated,
    /// The peer did.
    Accepted,
}

/// A session as it is compared and stored.
#[verifier::ext_equal]
pub struct SessionModel {
    pub id: Seq<char>,
    pub peer: Seq<char>,
    pub origin: SessionOrigin,
    pub ratchet: RatchetModel,
    pub created_at: u64,
    pub last_used_at: u64,
    pub messages_sent: u64,
    pub messages_received: u64,
}

/// The side of the ratchet that follows from who started the session.
pub open spec fn role_of(origin: SessionOrigin) -> RatchetRole {
    match origin {
        SessionOrigin::Initiated => RatchetRole::Initiator,
        SessionOrigin::Accepted => RatchetRole::Responder,
    }
}

/// A session that was just set up.
pub open spec fn fresh(
    peer: Seq<char>,
    origin: SessionOrigin,
    root: Seq<u8>,
    now: u64,
) -> SessionModel {
    SessionModel {
        id: peer,
        peer,
        origin,
        ratchet: ratchet::initial(root, role_of(origin)),
        created_at: now,
        last_used_at: now,
        messages_sent: 0,
        messages_received: 0,
    }
}

/// Whether the session's counters have room for one more sent message.
pub open spec fn can_send(s: SessionModel) -> bool {
    s.ratchet.send_counter < u32::MAX && s.messages_sent < u64::MAX
}

/// Whether the session's counters have room for one more received message.
pub open spec fn can_receive(s: SessionModel) -> bool {
    s.messages_received < u64::MAX
}

/// The session after a message was sent.
pub open spec fn sent(s: SessionModel, now: u64) -> SessionModel {
    SessionModel {
        ratchet: ratchet::after_send(s.ratchet),
        messages_sent: (s.messages_sent + 1) as u64,
        last_used_at: now,
        ..s
    }
}

/// The session after a message could not be encrypted.
pub open spec fn send_failed(s: SessionModel) -> SessionModel {
    SessionModel { ratchet: ratchet::after_send(s.ratchet), ..s }
}

/// The session after a message was read.
pub open spec fn received(s: SessionModel, counter: u32, now: u64) -> SessionModel {
    SessionModel {
        ratchet: ratchet::after_attempt(s.ratchet, counter),
        messages_received: (s.messages_received + 1) as u64,
        last_used_at: now,
        ..s
    }
}

/// The session after a message could not be read.
pub open spec fn receive_failed(s: SessionModel, counter: u32) -> SessionModel {
    SessionModel { ratchet: ratchet::after_attempt(s.ratchet, counter), ..s }
}

/// Whether the session was idle for longer than allowed.
pub open spec fn stale(s: SessionModel, now: u64, max_idle_secs: u64) -> bool {
    now - s.last_used_at > max_idle_secs
}

/// An end-to-end session with one peer.
pub struct Session {
    pub id: SessionId,
    pub peer: UserId,
    pub origin: SessionOrigin,
    pub(crate) ratchet: DoubleRatchet,
    pub created_at: u64,
    pub last_used_at: u64,
    /// How many messages were sent over the life of the session.
    pub messages_sent: u64,
    /// How many messages were received over the life of the session.
    pub messages_received: u64,
}

impl View for Session {
    type V = SessionModel;

    closed spec fn view(&self) -> SessionModel {
        SessionModel {
            id: self.id.0@,
            peer: self.peer@,
            origin: self.origin,
            ratchet: self.ratchet@,
            created_at: self.created_at,
            last_used_at: self.last_used_at,
            messages_sent: self.messages_sent,
            messages_received: self.messages_received,
        }
    }
}

/// The public fields of a session are those of its model.
pub(crate) proof fn session_fields(s: Session)
    ensures
        s@.id == s.id.0@,
        s@.peer == s.peer@,
        s@.origin == s.origin,
        s@.created_at == s.created_at,
        s@.last_used_at == s.last_used_at,
        s@.messages_sent == s.messages_sent,
        s@.messages_received == s.messages_received,
{
}

impl Session {
    /// A session over an agreed secret that starts at the time `now`.
    pub fn new_at(peer: UserId, origin: SessionOrigin, root_secret: [u8; 32], now: u64) -> (session:
        Self)
        ensures
            session@ == fresh(peer@, origin, root_secret@, now),
            session@.id == peer@,
            session@.peer == peer@,
            session@.origin == origin,
            session@.created_at == now,
            session@.last_used_at == now,
            session@.messages_sent == 0,
            session@.messages_received == 0,
            session@.ratchet.send_counter == 0,
            session@.ratchet.recv_counter == 0,
            origin == SessionOrigin::Initiated ==> session@.ratchet.send_chain
                == suite::hkdf_sha256(
                root_secret@,
                utf8::encode_utf8("ratchet-chain-initiator-to-responder"@),
            ),
            origin == SessionOrigin::Accepted ==> session@.ratchet.recv_chain
                == suite::hkdf_sha256(
                root_secret@,
                utf8::encode_utf8("ratchet-chain-initiator-to-responder"@),
            ),
            origin == SessionOrigin::Accepted ==> session@.ratchet.send_chain
                == suite::hkdf_sha256(
                root_secret@,
                utf8::encode_utf8("ratchet-chain-responder-to-initiator"@),
            ),
            origin == SessionOrigin::Initiated ==> session@.ratchet.recv_chain
                == suite::hkdf_sha256(
                root_secret@,
                utf8::encode_utf8("ratchet-chain-responder-to-initiator"@),
            ),
    {
        Session {
            id: SessionId::for_peer(&peer),
            peer,
            origin,
            ratchet: DoubleRatchet::new(root_secret, Self::role_for_origin(origin)),
            created_at: now,
            last_used_at: now,
            messages_sent: 0,
            messages_received: 0,
        }
    }

    /// A session over an agreed secret that starts now.
    pub fn new(peer: UserId, origin: SessionOrigin, root_secret: [u8; 32]) -> (session: Self)
        ensures
            session@ == fresh(peer@, origin, root_secret@, session@.created_at),
            clock::told(session@.created_at),
    {
        Self::new_at(peer, origin, root_secret, clock::now_unix())
    }

    /// The side of the ratchet that follows from who started the session.
    pub fn role_for_origin(origin: SessionOrigin) -> (role: RatchetRole)
        ensures
            role == role_of(origin),
    {
        match origin {
            SessionOrigin::Initiated => RatchetRole::Initiator,
            SessionOrigin::Accepted => RatchetRole::Responder,
        }
    }

    /// A session as it was stored.
    pub fn restore(
        peer: UserId,
        origin: SessionOrigin,
        ratchet_state: RatchetState,
        created_at: u64,
        last_used_at: u64,
        messages_sent: u64,
        messages_received: u64,
    ) -> (session: Self)
        ensures
            session@ == (SessionModel {
                id: peer@,
                peer: peer@,
                origin,
                ratchet: ratchet::restored(ratchet_state),
                created_at,
                last_used_at,
                messages_sent,
                messages_received,
            }),
    {
        Session {
            id: SessionId::for_peer(&peer),
            peer,
            origin,
            ratchet: DoubleRatchet::restore(ratchet_state),
            created_at,
            last_used_at,
            messages_sent,
            messages_received,
        }
    }

    /// The state of the ratchet, to store.
    pub fn export_ratchet_state(&self) -> (state: RatchetState)
        ensures
            ratchet::restored(state) == (RatchetModel {
                skipped: Map::empty(),
                ..self@.ratchet
            }),
            state.send_chain_key@ == self@.ratchet.send_chain,
            state.send_counter == self@.ratchet.send_counter,
            state.recv_chain_key@ == self@.ratchet.recv_chain,
            state.recv_counter == self@.ratchet.recv_counter,
    {
        self.ratchet.export_state()
    }

    /// Whether the counters have room for one more sent message.
    pub fn has_room_to_send(&self) -> (room: bool)
        ensures
            room == can_send(self@),
            room == (self@.ratchet.send_counter < u32::MAX && self@.messages_sent < u64::MAX),
    {
        self.ratchet.export_state().send_counter < u32::MAX && self.messages_sent < u64::MAX
    }

    /// Whether the counters have room for one more received message.
    pub fn has_room_to_receive(&self) -> (room: bool)
        ensures
            room == can_receive(self@),
            room == (self@.messages_received < u64::MAX),
    {
        self.messages_received < u64::MAX
    }

    /// Encrypts a message under the given nonce at the time `now`.
    pub fn encrypt_at(&mut self, plaintext: &[u8], nonce: [u8; 12], now: u64) -> (result: Result<
        EncryptedEnvelope,
        MessengerError,
    >)
        requires
            can_send(old(self)@),
        ensures
            plaintext@.len() > suite::MAX_PLAINTEXT ==> final(self)@ == send_failed(old(self)@)
                && result == Err::<EncryptedEnvelope, _>(
                MessengerError::Crypto(
                    CryptoError::Ratchet(ratchet::RatchetError::EncryptionFailed),
                ),
            ),
            plaintext@.len() <= suite::MAX_PLAINTEXT ==> final(self)@ == sent(old(self)@, now) && (
            result matches Ok(e) && e.nonce == nonce && suite::sealed(
                ratchet::message_key(old(self)@.ratchet.send_chain),
                nonce@,
                plaintext@,
            ) == Some(e.ciphertext@)),
            result matches Ok(e) ==> ratchet::carries(e@, old(self)@.ratchet, plaintext@)
                && unstamped(e@),
            result is Ok ==> sent_one(old(self)@, final(self)@, now),
            result matches Ok(e) ==> sealed_next(old(self)@, e@, plaintext@),
    {
        match self.ratchet.encrypt_with_nonce(plaintext, nonce) {
            Ok(envelope) => {
                self.messages_sent = self.messages_sent + 1;
                self.last_used_at = now;
                Ok(envelope)
            },
            Err(e) => Err(MessengerError::Crypto(CryptoError::Ratchet(e))),
        }
    }

    /// Encrypts a message under a random nonce.
    pub fn encrypt(&mut self, plaintext: &[u8]) -> (result: Result<
        EncryptedEnvelope,
        MessengerError,
    >)
        requires
            can_send(old(self)@),
        ensures
            plaintext@.len() > suite::MAX_PLAINTEXT ==> final(self)@ == send_failed(old(self)@)
                && result == Err::<EncryptedEnvelope, _>(
                MessengerError::Crypto(
                    CryptoError::Ratchet(ratchet::RatchetError::EncryptionFailed),
                ),
            ),
            plaintext@.len() <= suite::MAX_PLAINTEXT ==> final(self)@ == sent(
                old(self)@,
                final(self)@.last_used_at,
            ) && clock::told(final(self)@.last_used_at) && result is Ok,
            result matches Ok(e) ==> ratchet::carries(e@, old(self)@.ratchet, plaintext@)
                && unstamped(e@) && suite::drawn_nonce(e.nonce@),
            result is Ok ==> sent_one(old(self)@, final(self)@, final(self)@.last_used_at),
            result matches Ok(e) ==> sealed_next(old(self)@, e@, plaintext@),
    {
        self.encrypt_at(plaintext, suite::draw_nonce(), clock::now_unix())
    }

    /// Decrypts a message at the time `now`.
    pub fn decrypt_at(&mut self, envelope: &EncryptedEnvelope, now: u64) -> (result: Result<
        Vec<u8>,
        MessengerError,
    >)
        requires
            can_receive(old(self)@),
        ensures
            match ratchet::receive_result(old(self)@.ratchet, envelope@) {
                Ok(p) => final(self)@ == received(old(self)@, envelope.counter, now) && (
                result matches Ok(v) && v@ == p),
                Err(e) => final(self)@ == receive_failed(old(self)@, envelope.counter) && result
                    == Err::<Vec<u8>, _>(MessengerError::Crypto(CryptoError::Ratchet(e))),
            },
            result is Ok ==> received_one(old(self)@, final(self)@, now),
            result is Err ==> received_none(old(self)@, final(self)@),
    {
        match self.ratchet.decrypt(envelope) {
            Ok(plaintext) => {
                self.messages_received = self.messages_received + 1;
                self.last_used_at = now;
                Ok(plaintext)
            },
            Err(e) => Err(MessengerError::Crypto(CryptoError::Ratchet(e))),
        }
    }

    /// Decrypts a message.
    pub fn decrypt(&mut self, envelope: &EncryptedEnvelope) -> (result: Result<
        Vec<u8>,
        MessengerError,
    >)
        requires
            can_receive(old(self)@),
        ensures
            match ratchet::receive_result(old(self)@.ratchet, envelope@) {
                Ok(p) => final(self)@ == received(
                    old(self)@,
                    envelope.counter,
                    final(self)@.last_used_at,
                ) && clock::told(final(self)@.last_used_at) && (result matches Ok(v) && v@ == p),
                Err(e) => final(self)@ == receive_failed(old(self)@, envelope.counter) && result
                    == Err::<Vec<u8>, _>(MessengerError::Crypto(CryptoError::Ratchet(e))),
            },
            result is Ok ==> received_one(old(self)@, final(self)@, final(self)@.last_used_at),
            result is Err ==> received_none(old(self)@, final(self)@),
    {
        self.decrypt_at(envelope, clock::now_unix())
    }

    /// Whether the session was idle for longer than allowed at the time
    /// `now`.
    pub fn is_stale_at(&self, now: u64, max_idle_secs: u64) -> (is_stale: bool)
        ensures
            is_stale == stale(self@, now, max_idle_secs),
            is_stale == (now > self@.last_used_at + max_idle_secs),
    {
        now.saturating_sub(self.last_used_at) > max_idle_secs
    }

    /// Whether the session is idle for longer than allowed.
    pub fn is_stale(&self, max_idle_secs: u64) -> (is_stale: bool)
        ensures
            exists|now: u64|
                clock::told(now) && is_stale == #[trigger] stale(self@, now, max_idle_secs),
    {
        let now: u64 = clock::now_unix();
        let is_stale = self.is_stale_at(now, max_idle_secs);
        assert(is_stale == stale(self@, now, max_idle_secs));
        is_stale
    }
}

/// Whether a session counts one more sent message, was used at a time, and has
/// its sending chain one step further, and is the same in all else.
pub open spec fn sent_one(before: SessionModel, after: SessionModel, now: u64) -> bool {
    &&& after.id == before.id
    &&& after.peer == before.peer
    &&& after.origin == before.origin
    &&& after.created_at == before.created_at
    &&& after.last_used_at == now
    &&& after.messages_sent == before.messages_sent + 1
    &&& after.messages_received == before.messages_received
    &&& after.ratchet.send_chain == suite::hkdf_sha256(
        before.ratchet.send_chain,
        utf8::encode_utf8("chain"@),
    )
    &&& after.ratchet.send_counter == before.ratchet.send_counter + 1
    &&& after.ratchet.recv_chain == before.ratchet.recv_chain
    &&& after.ratchet.recv_counter == before.ratchet.recv_counter
    &&& after.ratchet.skipped == before.ratchet.skipped
}

/// Whether an envelope holds a text as the next message of a session: with the
/// next number, and encrypted under the key of the chain's position.
pub open spec fn sealed_next(before: SessionModel, e: EnvelopeModel, text: Seq<u8>) -> bool {
    let key = suite::hkdf_sha256(before.ratchet.send_chain, utf8::encode_utf8("message"@));
    &&& e.counter == before.ratchet.send_counter + 1
    &&& suite::sealed(key, e.nonce, text) == Some(e.ciphertext)
    &&& suite::opened(key, e.nonce, e.ciphertext) == Some(text)
}

/// Whether a session counts one more received message and was used at a time,
/// and is the same in all else but its receiving chain.
pub open spec fn received_one(before: SessionModel, after: SessionModel, now: u64) -> bool {
    &&& after.id == before.id
    &&& after.peer == before.peer
    &&& after.origin == before.origin
    &&& after.created_at == before.created_at
    &&& after.last_used_at == now
    &&& after.messages_sent == before.messages_sent
    &&& after.messages_received == before.messages_received + 1
    &&& after.ratchet.send_chain == before.ratchet.send_chain
    &&& after.ratchet.send_counter == before.ratchet.send_counter
}

/// Whether a session is the same in all but its receiving chain.
pub open spec fn received_none(before: SessionModel, after: SessionModel) -> bool {
    &&& after.id == before.id
    &&& after.peer == before.peer
    &&& after.origin == before.origin
    &&& after.created_at == before.created_at
    &&& after.last_used_at == before.last_used_at
    &&& after.messages_sent == before.messages_sent
    &&& after.messages_received == before.messages_received
    &&& after.ratchet.send_chain == before.ratchet.send_chain
    &&& after.ratchet.send_counter == before.ratchet.send_counter
}

/// Whether an envelope names no sender yet and bears no signature.
pub open spec fn unstamped(e: EnvelopeModel) -> bool {
    &&& e.sender_id == Seq::<char>::empty()
    &&& e.sender_signature == Seq::<u8>::empty()
    &&& e.session_init is None
}

/// A session is not stale as long as it is used often enough.
pub proof fn used_sessions_are_not_stale(s: SessionModel, used: u64, now: u64, max_idle_secs: u64)
    requires
        used <= now <= used + max_idle_secs,
    ensures
        !stale(sent(s, used), now, max_idle_secs),
        forall|counter: u32| !stale(#[trigger] received(s, counter, used), now, max_idle_secs),
{
}

/// A fresh session is not stale.
pub proof fn fresh_sessions_are_not_stale(
    peer: Seq<char>,
    origin: SessionOrigin,
    root: Seq<u8>,
    created: u64,
    now: u64,
    max_idle_secs: u64,
)
    requires
        now <= created + max_idle_secs,
    ensures
        !stale(fresh(peer, origin, root, created), now, max_idle_secs),
{
}

/// Two sessions over the same secret, started by opposite sides, are paired:
/// what one sends, the other reads.
pub proof fn opposite_sessions_are_paired(
    root: Seq<u8>,
    a: Seq<char>,
    b: Seq<char>,
    a_time: u64,
    b_time: u64,
)
    ensures
        ({
            let initiator = fresh(b, SessionOrigin::Initiated, root, a_time).ratchet;
            let responder = fresh(a, SessionOrigin::Accepted, root, b_time).ratchet;
            &&& ratchet::leads(initiator, ratchet::initiator_chain(root))
            &&& ratchet::follows(responder, ratchet::initiator_chain(root))
            &&& ratchet::leads(responder, ratchet::responder_chain(root))
            &&& ratchet::follows(initiator, ratchet::responder_chain(root))
        }),
{
    ratchet::sides_are_crossed(root);
}

} // verus!
