//! A symmetric-key ratchet over a shared root secret: every message has a
//! key of its own, and the two directions of a conversation run on two
//! independent chains.
use vstd::prelude::*;

use crate::crypto::suite;
use crate::crypto::{EncryptedEnvelope, EnvelopeModel};
use std::collections::HashMap;
use vstd::utf8;

verus! {

broadcast use vstd::std_specs::hash::group_hash_axioms;

/// How many messages a receiver lets its chain jump ahead, keeping the keys
/// of the messages in between.
pub const MAX_SKIP: u32 = 1000;

/// Which side of the key agreement this is. The sides use the two chains
/// the opposite way round.
#[derive(Clone, Copy, Debug, PartialEq, Eq, Structural)]
pub enum RatchetRole {
    Initiator,
    Responder,
}

/// Why a message could not be encrypted or decrypted.
#[derive(Clone, Copy, Debug, PartialEq, Eq, Structural)]
pub enum RatchetError {
    /// The plaintext is longer than the cipher can cover.
    EncryptionFailed,
    /// The message is further ahead than a chain may jump.
    SkippedTooFar { skipped: u32, limit: u32 },
    /// The message lies behind the chain and its key is not kept: it was
    /// used already, or dropped.
    KeyUnavailable { counter: u32, position: u32 },
    /// The ciphertext does not authenticate under the message's key.
    DecryptionFailed,
}

/// The part of a ratchet that outlives the process. The keys of skipped
/// messages do not.
#[derive(Clone, Copy)]
pub struct RatchetState {
    pub send_chain_key: [u8; 32],
    pub send_counter: u32,
    pub recv_chain_key: [u8; 32],
    pub recv_counter: u32,
}

/// The state of a ratchet: its two chains and the keys it keeps.
#[verifier::ext_equal]
pub struct RatchetModel {
    pub send_chain: Seq<u8>,
    pub send_counter: nat,
    pub recv_chain: Seq<u8>,
    pub recv_counter: nat,
    pub skipped: Map<u32, Seq<u8>>,
}

/// Only keys of messages that the chain has passed are kept.
pub open spec fn well_formed(m: RatchetModel) -> bool {
    forall|c: u32| #[trigger] m.skipped.dom().contains(c) ==> c <= m.recv_counter
}

/// The key of the message at a position of a chain.
pub open spec fn message_key(chain: Seq<u8>) -> Seq<u8> {
    suite::hkdf_sha256(chain, utf8::encode_utf8("message"@))
}

/// The position after a position of a chain.
pub open spec fn next_chain(chain: Seq<u8>) -> Seq<u8> {
    suite::hkdf_sha256(chain, utf8::encode_utf8("chain"@))
}

/// The position `steps` after a position of a chain.
pub open spec fn chain_after(chain: Seq<u8>, steps: nat) -> Seq<u8>
    decreases steps,
{
    if steps == 0 {
        chain
    } else {
        next_chain(chain_after(chain, (steps - 1) as nat))
    }
}

/// The chain on which the initiator sends.
pub open spec fn initiator_chain(root: Seq<u8>) -> Seq<u8> {
    suite::hkdf_sha256(root, utf8::encode_utf8("ratchet-chain-initiator-to-responder"@))
}

/// The chain on which the responder sends.
pub open spec fn responder_chain(root: Seq<u8>) -> Seq<u8> {
    suite::hkdf_sha256(root, utf8::encode_utf8("ratchet-chain-responder-to-initiator"@))
}

/// A fresh ratchet over a root secret.
pub open spec fn initial(root: Seq<u8>, role: RatchetRole) -> RatchetModel {
    RatchetModel {
        send_chain: match role {
            RatchetRole::Initiator => initiator_chain(root),
            RatchetRole::Responder => responder_chain(root),
        },
        send_counter: 0,
        recv_chain: match role {
            RatchetRole::Initiator => responder_chain(root),
            RatchetRole::Responder => initiator_chain(root),
        },
        recv_counter: 0,
        skipped: Map::empty(),
    }
}

/// The ratchet that a stored state describes.
pub open spec fn restored(state: RatchetState) -> RatchetModel {
    RatchetModel {
        send_chain: state.send_chain_key@,
        send_counter: state.send_counter as nat,
        recv_chain: state.recv_chain_key@,
        recv_counter: state.recv_counter as nat,
        skipped: Map::empty(),
    }
}

/// The ratchet after one message was sent.
pub open spec fn after_send(m: RatchetModel) -> RatchetModel {
    RatchetModel {
        send_chain: next_chain(m.send_chain),
        send_counter: m.send_counter + 1,
        ..m
    }
}

/// Whether the ratchet can produce the key of the message `counter`: it lies
/// ahead within reach, or behind with its key kept.
pub open spec fn key_available(m: RatchetModel, counter: u32) -> bool {
    if counter > m.recv_counter {
        counter - m.recv_counter <= MAX_SKIP
    } else {
        m.skipped.dom().contains(counter)
    }
}

/// The key of the message `counter`, when it is available.
pub open spec fn receive_key(m: RatchetModel, counter: u32) -> Seq<u8> {
    if counter > m.recv_counter {
        message_key(chain_after(m.recv_chain, (counter - m.recv_counter - 1) as nat))
    } else {
        m.skipped[counter]
    }
}

/// The kept keys once the keys of the messages up to `last` were stored.
pub open spec fn stored_through(m: RatchetModel, last: int) -> Map<u32, Seq<u8>> {
    Map::new(
        |c: u32| m.skipped.dom().contains(c) || m.recv_counter < c <= last,
        |c: u32|
            if m.recv_counter < c <= last {
                message_key(chain_after(m.recv_chain, (c - m.recv_counter - 1) as nat))
            } else {
                m.skipped[c]
            },
    )
}

/// The ratchet once the key of the message `counter` was taken.
pub open spec fn after_receive(m: RatchetModel, counter: u32) -> RatchetModel {
    if counter > m.recv_counter {
        RatchetModel {
            recv_chain: chain_after(m.recv_chain, (counter - m.recv_counter) as nat),
            recv_counter: counter as nat,
            skipped: stored_through(m, counter - 1),
            ..m
        }
    } else {
        RatchetModel { skipped: m.skipped.remove(counter), ..m }
    }
}

/// What decrypting a message gives.
pub open spec fn receive_result(m: RatchetModel, e: EnvelopeModel) -> Result<
    Seq<u8>,
    RatchetError,
> {
    if !key_available(m, e.counter) {
        if e.counter > m.recv_counter {
            Err(
                RatchetError::SkippedTooFar {
                    skipped: (e.counter - m.recv_counter) as u32,
                    limit: MAX_SKIP,
                },
            )
        } else {
            Err(
                RatchetError::KeyUnavailable {
                    counter: e.counter,
                    position: m.recv_counter as u32,
                },
            )
        }
    } else {
        match suite::opened(receive_key(m, e.counter), e.nonce, e.ciphertext) {
            Some(plaintext) => Ok(plaintext),
            None => Err(RatchetError::DecryptionFailed),
        }
    }
}

/// The ratchet after an attempt to decrypt a message: unchanged where no key
/// was available, and advanced where one was, whether it fitted or not.
pub open spec fn after_attempt(m: RatchetModel, counter: u32) -> RatchetModel {
    if key_available(m, counter) {
        after_receive(m, counter)
    } else {
        m
    }
}

/// Whether `e` is the message that a ratchet in state `m` sends next for
/// `plaintext`: numbered one further, and readable with the key of that
/// position.
pub open spec fn carries(e: EnvelopeModel, m: RatchetModel, plaintext: Seq<u8>) -> bool {
    &&& e.counter == m.send_counter + 1
    &&& suite::opened(message_key(m.send_chain), e.nonce, e.ciphertext) == Some(plaintext)
}

/// Whether a result is what a message's ciphertext opens to under a key: the
/// plaintext, or an error where it does not authenticate.
pub open spec fn opens_to(
    key: Seq<u8>,
    e: EnvelopeModel,
    result: Result<Vec<u8>, RatchetError>,
) -> bool {
    match suite::opened(key, e.nonce, e.ciphertext) {
        Some(plaintext) => result matches Ok(v) && v@ == plaintext,
        None => result == Err::<Vec<u8>, _>(RatchetError::DecryptionFailed),
    }
}

/// Two independent key chains, one for each direction, and the keys of
/// messages that were overtaken by later ones.
pub struct DoubleRatchet {
    send_chain_key: [u8; 32],
    send_counter: u32,
    recv_chain_key: [u8; 32],
    recv_counter: u32,
    skipped_keys: HashMap<u32, [u8; 32]>,
}

impl View for DoubleRatchet {
    type V = RatchetModel;

    closed spec fn view(&self) -> RatchetModel {
        RatchetModel {
            send_chain: self.send_chain_key@,
            send_counter: self.send_counter as nat,
            recv_chain: self.recv_chain_key@,
            recv_counter: self.recv_counter as nat,
            skipped: self.skipped_keys@.map_values(|k: [u8; 32]| k@),
        }
    }
}

impl DoubleRatchet {
    /// The chain of the initiator and that of the responder.
    fn derive_chains(root_secret: &[u8; 32]) -> (chains: ([u8; 32], [u8; 32]))
        ensures
            chains.0@ == initiator_chain(root_secret@),
            chains.1@ == responder_chain(root_secret@),
    {
        let initiator: [u8; 32] = suite::hkdf_expand(
            root_secret.as_slice(),
            "ratchet-chain-initiator-to-responder".as_bytes(),
        );
        let responder: [u8; 32] = suite::hkdf_expand(
            root_secret.as_slice(),
            "ratchet-chain-responder-to-initiator".as_bytes(),
        );
        (initiator, responder)
    }

    /// A fresh ratchet over the secret that both sides agreed on.
    pub fn new(root_secret: [u8; 32], role: RatchetRole) -> (ratchet: Self)
        ensures
            ratchet@ == initial(root_secret@, role),
            ratchet@.send_counter == 0,
            ratchet@.recv_counter == 0,
            ratchet@.skipped == Map::<u32, Seq<u8>>::empty(),
            role == RatchetRole::Initiator ==> ratchet@.send_chain == suite::hkdf_sha256(
                root_secret@,
                utf8::encode_utf8("ratchet-chain-initiator-to-responder"@),
            ) && ratchet@.recv_chain == suite::hkdf_sha256(
                root_secret@,
                utf8::encode_utf8("ratchet-chain-responder-to-initiator"@),
            ),
            role == RatchetRole::Responder ==> ratchet@.send_chain == suite::hkdf_sha256(
                root_secret@,
                utf8::encode_utf8("ratchet-chain-responder-to-initiator"@),
            ) && ratchet@.recv_chain == suite::hkdf_sha256(
                root_secret@,
                utf8::encode_utf8("ratchet-chain-initiator-to-responder"@),
            ),
    {
        let (initiator, responder) = Self::derive_chains(&root_secret);
        let (send_chain_key, recv_chain_key) = match role {
            RatchetRole::Initiator => (initiator, responder),
            RatchetRole::Responder => (responder, initiator),
        };
        let ratchet = DoubleRatchet {
            send_chain_key,
            send_counter: 0,
            recv_chain_key,
            recv_counter: 0,
            skipped_keys: HashMap::new(),
        };
        assert(ratchet@.skipped =~= Map::empty());
        ratchet
    }

    /// The ratchet of a stored state, at the positions it had reached.
    pub fn restore(state: RatchetState) -> (ratchet: Self)
        ensures
            ratchet@ == restored(state),
            ratchet@.send_chain == state.send_chain_key@,
            ratchet@.send_counter == state.send_counter,
            ratchet@.recv_chain == state.recv_chain_key@,
            ratchet@.recv_counter == state.recv_counter,
            ratchet@.skipped == Map::<u32, Seq<u8>>::empty(),
    {
        let ratchet = DoubleRatchet {
            send_chain_key: state.send_chain_key,
            send_counter: state.send_counter,
            recv_chain_key: state.recv_chain_key,
            recv_counter: state.recv_counter,
            skipped_keys: HashMap::new(),
        };
        assert(ratchet@.skipped =~= Map::empty());
        ratchet
    }

    /// The state to store: everything but the keys of skipped messages.
    pub fn export_state(&self) -> (state: RatchetState)
        ensures
            restored(state) == (RatchetModel { skipped: Map::empty(), ..self@ }),
            state.send_chain_key@ == self@.send_chain,
            state.send_counter == self@.send_counter,
            state.recv_chain_key@ == self@.recv_chain,
            state.recv_counter == self@.recv_counter,
    {
        RatchetState {
            send_chain_key: self.send_chain_key,
            send_counter: self.send_counter,
            recv_chain_key: self.recv_chain_key,
            recv_counter: self.recv_counter,
        }
    }

    /// Takes the key of the next outgoing message and moves the sending
    /// chain on.
    fn ratchet_step_send(&mut self) -> (key: [u8; 32])
        requires
            old(self)@.send_counter < u32::MAX,
        ensures
            key@ == message_key(old(self)@.send_chain),
            final(self)@ == after_send(old(self)@),
    {
        let key: [u8; 32] = suite::hkdf_expand(
            self.send_chain_key.as_slice(),
            "message".as_bytes(),
        );
        let next: [u8; 32] = suite::hkdf_expand(self.send_chain_key.as_slice(), "chain".as_bytes());
        suite::wipe_key(&mut self.send_chain_key);
        self.send_chain_key = next;
        self.send_counter = self.send_counter + 1;
        key
    }

    /// Takes the key of the next incoming message and moves the receiving
    /// chain on.
    fn ratchet_step_recv(&mut self) -> (key: [u8; 32])
        requires
            old(self)@.recv_counter < u32::MAX,
        ensures
            key@ == message_key(old(self)@.recv_chain),
            final(self)@ == (RatchetModel {
                recv_chain: next_chain(old(self)@.recv_chain),
                recv_counter: old(self)@.recv_counter + 1,
                ..old(self)@
            }),
            final(self).skipped_keys@ == old(self).skipped_keys@,
    {
        let key: [u8; 32] = suite::hkdf_expand(
            self.recv_chain_key.as_slice(),
            "message".as_bytes(),
        );
        let next: [u8; 32] = suite::hkdf_expand(self.recv_chain_key.as_slice(), "chain".as_bytes());
        suite::wipe_key(&mut self.recv_chain_key);
        self.recv_chain_key = next;
        self.recv_counter = self.recv_counter + 1;
        key
    }

    /// Encrypts the next outgoing message under the given nonce. The chain
    /// moves on also where the plaintext is too long.
    pub fn encrypt_with_nonce(&mut self, plaintext: &[u8], nonce: [u8; 12]) -> (result: Result<
        EncryptedEnvelope,
        RatchetError,
    >)
        requires
            old(self)@.send_counter < u32::MAX,
        ensures
            final(self)@ == after_send(old(self)@),
            final(self)@.send_chain == suite::hkdf_sha256(
                old(self)@.send_chain,
                utf8::encode_utf8("chain"@),
            ),
            final(self)@.send_counter == old(self)@.send_counter + 1,
            final(self)@.recv_chain == old(self)@.recv_chain,
            final(self)@.recv_counter == old(self)@.recv_counter,
            final(self)@.skipped == old(self)@.skipped,
            result matches Ok(e) ==> suite::sealed(
                suite::hkdf_sha256(old(self)@.send_chain, utf8::encode_utf8("message"@)),
                e.nonce@,
                plaintext@,
            ) == Some(e.ciphertext@),
            plaintext@.len() > suite::MAX_PLAINTEXT ==> result == Err::<EncryptedEnvelope, _>(
                RatchetError::EncryptionFailed,
            ),
            plaintext@.len() <= suite::MAX_PLAINTEXT ==> result is Ok,
            result matches Ok(e) ==> {
                &&& e.sender_id@ == Seq::<char>::empty()
                &&& e.nonce == nonce
                &&& suite::sealed(message_key(old(self)@.send_chain), nonce@, plaintext@) == Some(
                    e.ciphertext@,
                )
                &&& e.counter == old(self)@.send_counter + 1
                &&& e.sender_signature@ == Seq::<u8>::empty()
                &&& e.session_init is None
                &&& e.ciphertext@.len() == plaintext@.len() + suite::TAG_LEN
                &&& carries(e@, old(self)@, plaintext@)
            },
    {
        let key = self.ratchet_step_send();
        match suite::seal(&key, &nonce, plaintext) {
            Some(ciphertext) => Ok(
                EncryptedEnvelope {
                    sender_id: String::new(),
                    nonce,
                    ciphertext,
                    counter: self.send_counter,
                    sender_signature: Vec::new(),
                    session_init: None,
                },
            ),
            None => Err(RatchetError::EncryptionFailed),
        }
    }

    /// Encrypts the next outgoing message under a random nonce. Sender and
    /// signature are left to the layer that knows the identity.
    pub fn encrypt(&mut self, plaintext: &[u8]) -> (result: Result<EncryptedEnvelope, RatchetError>)
        requires
            old(self)@.send_counter < u32::MAX,
        ensures
            final(self)@ == after_send(old(self)@),
            final(self)@.send_chain == suite::hkdf_sha256(
                old(self)@.send_chain,
                utf8::encode_utf8("chain"@),
            ),
            final(self)@.send_counter == old(self)@.send_counter + 1,
            final(self)@.recv_chain == old(self)@.recv_chain,
            final(self)@.recv_counter == old(self)@.recv_counter,
            final(self)@.skipped == old(self)@.skipped,
            result matches Ok(e) ==> suite::sealed(
                suite::hkdf_sha256(old(self)@.send_chain, utf8::encode_utf8("message"@)),
                e.nonce@,
                plaintext@,
            ) == Some(e.ciphertext@),
            plaintext@.len() > suite::MAX_PLAINTEXT ==> result == Err::<EncryptedEnvelope, _>(
                RatchetError::EncryptionFailed,
            ),
            plaintext@.len() <= suite::MAX_PLAINTEXT ==> result is Ok,
            result matches Ok(e) ==> {
                &&& e.sender_id@ == Seq::<char>::empty()
                &&& suite::drawn_nonce(e.nonce@)
                &&& suite::sealed(message_key(old(self)@.send_chain), e.nonce@, plaintext@) == Some(
                    e.ciphertext@,
                )
                &&& e.counter == old(self)@.send_counter + 1
                &&& e.sender_signature@ == Seq::<u8>::empty()
                &&& e.session_init is None
                &&& e.ciphertext@.len() == plaintext@.len() + suite::TAG_LEN
                &&& carries(e@, old(self)@, plaintext@)
            },
    {
        self.encrypt_with_nonce(plaintext, suite::draw_nonce())
    }

    /// Moves the receiving chain on to the message `counter`, keeping the
    /// keys of the messages before it, and returns that message's key.
    fn advance_to(&mut self, counter: u32) -> (key: [u8; 32])
        requires
            old(self)@.recv_counter < counter,
        ensures
            key@ == receive_key(old(self)@, counter),
            final(self)@ == after_receive(old(self)@, counter),
    {
        let ghost start = self@;
        let mut key: [u8; 32] = [0; 32];
        assert(stored_through(start, start.recv_counter as int) =~= start.skipped);
        while self.recv_counter < counter
            invariant
                start.recv_counter <= self@.recv_counter <= counter,
                start.recv_counter < counter,
                self@.send_chain == start.send_chain,
                self@.send_counter == start.send_counter,
                self@.recv_chain == chain_after(
                    start.recv_chain,
                    (self@.recv_counter - start.recv_counter) as nat,
                ),
                self@.recv_counter < counter ==> self@.skipped == stored_through(
                    start,
                    self@.recv_counter as int,
                ),
                self@.recv_counter == counter ==> self@.skipped == stored_through(
                    start,
                    counter - 1,
                ) && key@ == receive_key(start, counter),
            decreases counter - self.recv_counter,
        {
            let ghost before = self@;
            key = self.ratchet_step_recv();
            let step_counter: u32 = self.recv_counter;
            if step_counter != counter {
                let ghost kept = self.skipped_keys@;
                self.skipped_keys.insert(step_counter, key);
                assert(self@.skipped =~= before.skipped.insert(step_counter, key@));
                assert(self@.skipped =~= stored_through(start, step_counter as int));
            }
        }
        key
    }

    /// The kept key of the message `counter`, which leaves the ratchet.
    fn take_skipped(&mut self, counter: u32) -> (key: Option<[u8; 32]>)
        requires
            counter <= old(self)@.recv_counter,
        ensures
            key is Some <==> old(self)@.skipped.dom().contains(counter),
            key matches Some(k) ==> k@ == old(self)@.skipped[counter] && final(self)@
                == after_receive(old(self)@, counter),
            key is None ==> final(self)@ == old(self)@,
    {
        let ghost before = self@;
        let key = self.skipped_keys.remove(&counter);
        proof {
            assert(self@.skipped =~= before.skipped.remove(counter));
            if key is None {
                assert(self@.skipped =~= before.skipped);
            }
        }
        key
    }

    /// Decrypts an incoming message, which may arrive out of order.
    ///
    /// A message ahead of the chain moves it on, and the keys of the messages
    /// in between are kept for later. A message behind the chain needs its
    /// kept key, which is used once.
    pub fn decrypt(&mut self, envelope: &EncryptedEnvelope) -> (result: Result<
        Vec<u8>,
        RatchetError,
    >)
        ensures
            final(self)@ == after_attempt(old(self)@, envelope.counter),
            final(self)@.send_chain == old(self)@.send_chain,
            final(self)@.send_counter == old(self)@.send_counter,
            envelope.counter == old(self)@.recv_counter + 1 ==> {
                &&& final(self)@.recv_chain == suite::hkdf_sha256(
                    old(self)@.recv_chain,
                    utf8::encode_utf8("chain"@),
                )
                &&& final(self)@.recv_counter == envelope.counter
                &&& final(self)@.skipped == old(self)@.skipped
                &&& opens_to(
                    suite::hkdf_sha256(old(self)@.recv_chain, utf8::encode_utf8("message"@)),
                    envelope@,
                    result,
                )
            },
            old(self)@.recv_counter < envelope.counter <= old(self)@.recv_counter + 1000 ==> {
                &&& final(self)@.recv_counter == envelope.counter
                &&& forall|c: u32| #[trigger]
                    final(self)@.skipped.dom().contains(c) <==> old(self)@.skipped.dom().contains(c)
                        || old(self)@.recv_counter < c < envelope.counter
                &&& result is Ok || result == Err::<Vec<u8>, _>(RatchetError::DecryptionFailed)
            },
            envelope.counter > old(self)@.recv_counter + 1000 ==> {
                &&& final(self)@ == old(self)@
                &&& result == Err::<Vec<u8>, _>(
                    RatchetError::SkippedTooFar {
                        skipped: (envelope.counter - old(self)@.recv_counter) as u32,
                        limit: 1000,
                    },
                )
            },
            envelope.counter <= old(self)@.recv_counter && old(self)@.skipped.dom().contains(
                envelope.counter,
            ) ==> {
                &&& final(self)@.recv_chain == old(self)@.recv_chain
                &&& final(self)@.recv_counter == old(self)@.recv_counter
                &&& final(self)@.skipped == old(self)@.skipped.remove(envelope.counter)
                &&& opens_to(old(self)@.skipped[envelope.counter], envelope@, result)
            },
            envelope.counter <= old(self)@.recv_counter && !old(self)@.skipped.dom().contains(
                envelope.counter,
            ) ==> {
                &&& final(self)@ == old(self)@
                &&& result == Err::<Vec<u8>, _>(
                    RatchetError::KeyUnavailable {
                        counter: envelope.counter,
                        position: old(self)@.recv_counter as u32,
                    },
                )
            },
            match receive_result(old(self)@, envelope@) {
                Ok(p) => result matches Ok(v) && v@ == p,
                Err(e) => result == Err::<Vec<u8>, _>(e),
            },
    {
        proof {
            let m = self@;
            if envelope.counter == m.recv_counter + 1 {
                assert(chain_after(m.recv_chain, 0) == m.recv_chain);
                assert(chain_after(m.recv_chain, 1) == next_chain(chain_after(m.recv_chain, 0)));
                assert(stored_through(m, m.recv_counter as int) =~= m.skipped);
            }
        }
        let key = if envelope.counter > self.recv_counter {
            let skipped: u32 = envelope.counter - self.recv_counter;
            if skipped > MAX_SKIP {
                return Err(RatchetError::SkippedTooFar { skipped, limit: MAX_SKIP });
            }
            self.advance_to(envelope.counter)
        } else {
            match self.take_skipped(envelope.counter) {
                Some(key) => key,
                None => {
                    return Err(
                        RatchetError::KeyUnavailable {
                            counter: envelope.counter,
                            position: self.recv_counter,
                        },
                    );
                },
            }
        };
        match suite::open(&key, &envelope.nonce, envelope.ciphertext.as_slice()) {
            Some(plaintext) => Ok(plaintext),
            None => Err(RatchetError::DecryptionFailed),
        }
    }
}

/// Whether the sending chain of `m` started at `origin` and stands where its
/// counter says.
pub open spec fn leads(m: RatchetModel, origin: Seq<u8>) -> bool {
    m.send_chain == chain_after(origin, m.send_counter)
}

/// Whether the receiving chain of `m` started at `origin`, stands where its
/// counter says, and keeps only keys of that chain that it has passed.
pub open spec fn follows(m: RatchetModel, origin: Seq<u8>) -> bool {
    &&& m.recv_chain == chain_after(origin, m.recv_counter)
    &&& forall|c: u32| #[trigger]
        m.skipped.dom().contains(c) ==> 1 <= c <= m.recv_counter && m.skipped[c] == message_key(
            chain_after(origin, (c - 1) as nat),
        )
}

/// Whether the key of the message `counter` was used or given up.
pub open spec fn spent(m: RatchetModel, counter: u32) -> bool {
    counter <= m.recv_counter && !m.skipped.dom().contains(counter)
}

/// Walking a chain in two legs reaches the same position as in one.
pub proof fn chain_after_adds(chain: Seq<u8>, first: nat, second: nat)
    ensures
        chain_after(chain_after(chain, first), second) == chain_after(chain, first + second),
    decreases second,
{
    if second > 0 {
        chain_after_adds(chain, first, (second - 1) as nat);
    }
}

/// The two sides of a key agreement start out with their chains crossed:
/// what one sends on, the other receives on.
pub proof fn sides_are_crossed(root: Seq<u8>)
    ensures
        leads(initial(root, RatchetRole::Initiator), initiator_chain(root)),
        follows(initial(root, RatchetRole::Responder), initiator_chain(root)),
        leads(initial(root, RatchetRole::Responder), responder_chain(root)),
        follows(initial(root, RatchetRole::Initiator), responder_chain(root)),
{
}

/// The two chains of one secret differ, unless HKDF gives the same output for
/// their two labels.
pub proof fn directions_have_their_own_chains(root: Seq<u8>)
    ensures
        initiator_chain(root) != responder_chain(root) || suite::labels_collide(
            root,
            utf8::encode_utf8("ratchet-chain-initiator-to-responder"@),
            utf8::encode_utf8("ratchet-chain-responder-to-initiator"@),
        ),
{
    let there = "ratchet-chain-initiator-to-responder"@;
    let back = "ratchet-chain-responder-to-initiator"@;
    reveal_strlit("ratchet-chain-initiator-to-responder");
    reveal_strlit("ratchet-chain-responder-to-initiator");
    assert(there[14] != back[14]);
    utf8::encode_utf8_decode_utf8(there);
    utf8::encode_utf8_decode_utf8(back);
}

/// Each message has a key of its own: the keys at two positions of a chain
/// differ, unless the chain comes back to the same value or HKDF gives the
/// same output for the two values.
pub proof fn messages_have_their_own_keys(chain: Seq<u8>, first: nat, second: nat)
    ensures
        ({
            let one = chain_after(chain, first);
            let other = chain_after(chain, second);
            ||| message_key(one) != message_key(other)
            ||| one == other
            ||| suite::inputs_collide(one, other, utf8::encode_utf8("message"@))
        }),
        message_key(chain) != message_key(next_chain(chain)) || next_chain(chain) == chain
            || suite::inputs_collide(
            chain,
            next_chain(chain),
            utf8::encode_utf8("message"@),
        ),
{
}

/// From what the value at a position of a sender's chain is expanded: the
/// root secret under the label of the direction at the start, and the value
/// before it under the label of the chain from there on.
pub open spec fn expanded_from(root: Seq<u8>, sender: RatchetRole, position: nat) -> (
    Seq<u8>,
    Seq<u8>,
) {
    if position == 0 {
        (
            root,
            match sender {
                RatchetRole::Initiator => utf8::encode_utf8(
                    "ratchet-chain-initiator-to-responder"@,
                ),
                RatchetRole::Responder => utf8::encode_utf8(
                    "ratchet-chain-responder-to-initiator"@,
                ),
            },
        )
    } else {
        (
            chain_after(initial(root, sender).send_chain, (position - 1) as nat),
            utf8::encode_utf8("chain"@),
        )
    }
}

/// Whether HKDF gives one output for the different origins of two positions.
pub open spec fn positions_collide(
    root: Seq<u8>,
    first_sender: RatchetRole,
    first: nat,
    second_sender: RatchetRole,
    second: nat,
) -> bool {
    let one = expanded_from(root, first_sender, first);
    let other = expanded_from(root, second_sender, second);
    suite::expansions_collide(one.0, one.1, other.0, other.1)
}

/// Whether HKDF gives one output for the different origins of two positions,
/// or of two that lie as far before them.
pub open spec fn paths_collide(
    root: Seq<u8>,
    first_sender: RatchetRole,
    first: nat,
    second_sender: RatchetRole,
    second: nat,
) -> bool {
    exists|back: nat|
        {
            &&& back <= first
            &&& back <= second
            &&& #[trigger] positions_collide(
                root,
                first_sender,
                (first - back) as nat,
                second_sender,
                (second - back) as nat,
            )
        }
}

/// The four labels of the ratchet are different.
proof fn labels_differ()
    ensures
        utf8::encode_utf8("chain"@) != utf8::encode_utf8("message"@),
        utf8::encode_utf8("chain"@) != utf8::encode_utf8("ratchet-chain-initiator-to-responder"@),
        utf8::encode_utf8("chain"@) != utf8::encode_utf8("ratchet-chain-responder-to-initiator"@),
        utf8::encode_utf8("ratchet-chain-initiator-to-responder"@) != utf8::encode_utf8(
            "ratchet-chain-responder-to-initiator"@,
        ),
{
    reveal_strlit("chain");
    reveal_strlit("message");
    reveal_strlit("ratchet-chain-initiator-to-responder");
    reveal_strlit("ratchet-chain-responder-to-initiator");
    assert("chain"@.len() != "message"@.len());
    assert("chain"@.len() != "ratchet-chain-initiator-to-responder"@.len());
    assert("chain"@.len() != "ratchet-chain-responder-to-initiator"@.len());
    assert("ratchet-chain-initiator-to-responder"@[14]
        != "ratchet-chain-responder-to-initiator"@[14]);
    utf8::encode_utf8_decode_utf8("chain"@);
    utf8::encode_utf8_decode_utf8("message"@);
    utf8::encode_utf8_decode_utf8("ratchet-chain-initiator-to-responder"@);
    utf8::encode_utf8_decode_utf8("ratchet-chain-responder-to-initiator"@);
}

/// The value at every position of a chain is what HKDF expands its origin to,
/// and the chain on which one side sends is the one on which the other side
/// receives.
pub proof fn chains_are_expanded(root: Seq<u8>, sender: RatchetRole, position: nat)
    ensures
        ({
            let origin = expanded_from(root, sender, position);
            chain_after(initial(root, sender).send_chain, position) == suite::hkdf_sha256(
                origin.0,
                origin.1,
            )
        }),
        initial(root, RatchetRole::Initiator).send_chain == initial(
            root,
            RatchetRole::Responder,
        ).recv_chain,
        initial(root, RatchetRole::Responder).send_chain == initial(
            root,
            RatchetRole::Initiator,
        ).recv_chain,
{
}

/// No value comes back on the chains of a conversation: two positions, of one
/// side or of both, hold different values, unless HKDF gives one output for
/// the different origins of two positions on the way to them.
pub proof fn chains_never_come_back(
    root: Seq<u8>,
    first_sender: RatchetRole,
    first: nat,
    second_sender: RatchetRole,
    second: nat,
)
    requires
        first_sender != second_sender || first != second,
    ensures
        chain_after(initial(root, first_sender).send_chain, first) != chain_after(
            initial(root, second_sender).send_chain,
            second,
        ) || paths_collide(root, first_sender, first, second_sender, second),
    decreases first,
{
    labels_differ();
    let one = chain_after(initial(root, first_sender).send_chain, first);
    let other = chain_after(initial(root, second_sender).send_chain, second);
    if one == other {
        chains_are_expanded(root, first_sender, first);
        chains_are_expanded(root, second_sender, second);
        if positions_collide(root, first_sender, first, second_sender, second) {
            assert(positions_collide(
                root,
                first_sender,
                (first - 0) as nat,
                second_sender,
                (second - 0) as nat,
            ));
        } else {
            assert(first > 0 && second > 0);
            let before = (first - 1) as nat;
            let before_other = (second - 1) as nat;
            chains_never_come_back(root, first_sender, before, second_sender, before_other);
            let back = choose|back: nat|
                {
                    &&& back <= before
                    &&& back <= before_other
                    &&& #[trigger] positions_collide(
                        root,
                        first_sender,
                        (before - back) as nat,
                        second_sender,
                        (before_other - back) as nat,
                    )
                };
            assert(positions_collide(
                root,
                first_sender,
                (first - (back + 1)) as nat,
                second_sender,
                (second - (back + 1)) as nat,
            ));
        }
    }
}

/// Every message of a conversation has a key of its own, whoever sends it:
/// the keys at two positions differ, unless HKDF gives one output for two
/// different inputs, those of the keys or those of two positions on the way.
pub proof fn every_message_has_its_own_key(
    root: Seq<u8>,
    first_sender: RatchetRole,
    first: nat,
    second_sender: RatchetRole,
    second: nat,
)
    requires
        first_sender != second_sender || first != second,
    ensures
        ({
            let one = after_sends(initial(root, first_sender), first).send_chain;
            let other = after_sends(initial(root, second_sender), second).send_chain;
            let label = utf8::encode_utf8("message"@);
            ||| suite::hkdf_sha256(one, label) != suite::hkdf_sha256(other, label)
            ||| suite::inputs_collide(one, other, label)
            ||| paths_collide(root, first_sender, first, second_sender, second)
        }),
{
    sends_walk_the_chain(initial(root, first_sender), first);
    sends_walk_the_chain(initial(root, second_sender), second);
    chains_never_come_back(root, first_sender, first, second_sender, second);
}

/// Sending messages moves the sending chain on by as many positions.
proof fn sends_walk_the_chain(m: RatchetModel, count: nat)
    ensures
        after_sends(m, count).send_chain == chain_after(m.send_chain, count),
    decreases count,
{
    if count > 0 {
        sends_walk_the_chain(m, (count - 1) as nat);
    }
}

/// Sending moves the chain: what is stored after a message is expanded from
/// what was stored before it, under a label of its own. It differs from the
/// message's key, unless HKDF gives one output for the two labels.
pub proof fn sending_moves_the_chain(m: RatchetModel)
    ensures
        after_send(m).send_chain == suite::hkdf_sha256(
            m.send_chain,
            utf8::encode_utf8("chain"@),
        ),
        after_send(m).send_chain != suite::hkdf_sha256(m.send_chain, utf8::encode_utf8("message"@))
            || suite::labels_collide(
            m.send_chain,
            utf8::encode_utf8("chain"@),
            utf8::encode_utf8("message"@),
        ),
        after_send(m).send_counter == m.send_counter + 1,
{
    labels_differ();
}

/// The key under which the next message ahead is read is that of the sender's
/// chain: one step on for each message in between, under the labels of the
/// chain and of the message.
pub proof fn reading_ahead_walks_the_chain(m: RatchetModel, counter: u32)
    requires
        m.recv_counter < counter <= m.recv_counter + 1000,
    ensures
        counter == m.recv_counter + 1 ==> receive_key(m, counter) == suite::hkdf_sha256(
            m.recv_chain,
            utf8::encode_utf8("message"@),
        ),
        counter > m.recv_counter + 1 ==> receive_key(m, counter) == receive_key(
            RatchetModel {
                recv_chain: suite::hkdf_sha256(m.recv_chain, utf8::encode_utf8("chain"@)),
                recv_counter: m.recv_counter + 1,
                ..m
            },
            counter,
        ),
        counter > m.recv_counter + 1 ==> after_attempt(m, counter).recv_chain == after_attempt(
            RatchetModel {
                recv_chain: suite::hkdf_sha256(m.recv_chain, utf8::encode_utf8("chain"@)),
                recv_counter: m.recv_counter + 1,
                ..m
            },
            counter,
        ).recv_chain,
        forall|c: u32|
            m.recv_counter < c < counter ==> #[trigger] after_attempt(m, counter).skipped[c]
                == receive_key(m, c),
{
    let step = chain_after(m.recv_chain, 1);
    assert(chain_after(m.recv_chain, 0) == m.recv_chain);
    assert(step == next_chain(chain_after(m.recv_chain, 0)));
    let far = (counter - m.recv_counter - 1) as nat;
    if far > 0 {
        chain_after_adds(m.recv_chain, 1, (far - 1) as nat);
    }
    chain_after_adds(m.recv_chain, 1, far);
}

/// Sending moves only the sending chain, by one position.
pub proof fn sending_keeps_both_chains(m: RatchetModel, out: Seq<u8>, back: Seq<u8>)
    requires
        leads(m, out),
        follows(m, back),
    ensures
        leads(after_send(m), out),
        follows(after_send(m), back),
{
}

/// Receiving, whatever arrives, moves only the receiving chain and keeps it
/// in step with the chain it started on.
pub proof fn receiving_keeps_both_chains(m: RatchetModel, out: Seq<u8>, back: Seq<u8>, counter: u32)
    requires
        leads(m, out),
        follows(m, back),
    ensures
        leads(after_attempt(m, counter), out),
        follows(after_attempt(m, counter), back),
{
    let after = after_attempt(m, counter);
    if key_available(m, counter) && counter > m.recv_counter {
        chain_after_adds(back, m.recv_counter, (counter - m.recv_counter) as nat);
        assert forall|c: u32| #[trigger] after.skipped.dom().contains(c) implies 1 <= c
            <= after.recv_counter && after.skipped[c] == message_key(
            chain_after(back, (c - 1) as nat),
        ) by {
            if m.recv_counter < c {
                chain_after_adds(back, m.recv_counter, (c - m.recv_counter - 1) as nat);
            }
        }
    }
}

/// A message reaches its reader. Whatever a paired sender encrypted, the
/// receiver decrypts to the same plaintext, as long as the message's key is
/// available: in order, late or early.
pub proof fn message_is_delivered(
    sender: RatchetModel,
    receiver: RatchetModel,
    origin: Seq<u8>,
    e: EnvelopeModel,
    plaintext: Seq<u8>,
)
    requires
        leads(sender, origin),
        follows(receiver, origin),
        carries(e, sender, plaintext),
        key_available(receiver, e.counter),
    ensures
        receive_result(receiver, e) == Ok::<Seq<u8>, RatchetError>(plaintext),
{
    if e.counter > receiver.recv_counter {
        chain_after_adds(
            origin,
            receiver.recv_counter,
            (e.counter - receiver.recv_counter - 1) as nat,
        );
    }
}

/// The next message in order can always be read.
pub proof fn next_in_order_is_available(m: RatchetModel, counter: u32)
    requires
        counter == m.recv_counter + 1,
    ensures
        key_available(m, counter),
{
}

/// Messages may overtake each other: reading one leaves the key of every
/// other message that could be read available.
pub proof fn reordering_loses_nothing(m: RatchetModel, read: u32, other: u32)
    requires
        key_available(m, other),
        read != other,
    ensures
        key_available(after_attempt(m, read), other),
{
}

/// Every ratchet is well formed: a fresh or restored one is, and sending and
/// receiving keep it so.
pub proof fn ratchets_are_well_formed(
    root: Seq<u8>,
    role: RatchetRole,
    state: RatchetState,
    m: RatchetModel,
    counter: u32,
)
    requires
        well_formed(m),
    ensures
        well_formed(initial(root, role)),
        well_formed(restored(state)),
        well_formed(after_send(m)),
        well_formed(after_attempt(m, counter)),
{
}

/// A message is read at most once: once its key was taken it is spent.
pub proof fn reading_spends_the_key(m: RatchetModel, counter: u32)
    requires
        well_formed(m),
        key_available(m, counter),
    ensures
        spent(after_attempt(m, counter), counter),
{
}

/// A spent key never comes back, and a message with a spent key is refused.
pub proof fn spent_keys_stay_spent(m: RatchetModel, counter: u32, e: EnvelopeModel)
    requires
        spent(m, counter),
    ensures
        spent(after_attempt(m, e.counter), counter),
        spent(after_send(m), counter),
        e.counter == counter ==> receive_result(m, e) is Err,
{
}

/// A ratchet restored from its exported state goes on where it stood: it
/// sends the same next message, reads every message that lies ahead with the
/// same result, and both its chains stay paired.
pub proof fn export_and_restore_continue(
    m: RatchetModel,
    state: RatchetState,
    out: Seq<u8>,
    back: Seq<u8>,
    e: EnvelopeModel,
)
    requires
        restored(state) == (RatchetModel { skipped: Map::empty(), ..m }),
        leads(m, out),
        follows(m, back),
    ensures
        leads(restored(state), out),
        follows(restored(state), back),
        restored(state).send_chain == m.send_chain,
        restored(state).send_counter == m.send_counter,
        e.counter > m.recv_counter ==> receive_result(restored(state), e) == receive_result(m, e),
{
}

/// The ratchet after some messages were sent.
pub open spec fn after_sends(m: RatchetModel, count: nat) -> RatchetModel
    decreases count,
{
    if count == 0 {
        m
    } else {
        after_send(after_sends(m, (count - 1) as nat))
    }
}

/// The ratchet after some messages arrived, one after the other.
pub open spec fn after_arrivals(m: RatchetModel, arrived: Seq<EnvelopeModel>) -> RatchetModel
    decreases arrived.len(),
{
    if arrived.len() == 0 {
        m
    } else {
        after_attempt(after_arrivals(m, arrived.drop_last()), arrived.last().counter)
    }
}

/// Messages in the order in which they arrive.
pub open spec fn in_order(sent: Seq<EnvelopeModel>, order: Seq<int>) -> Seq<EnvelopeModel> {
    Seq::new(order.len(), |k: int| sent[order[k]])
}

/// Whether an order lists each of the numbers below `count` exactly once.
pub open spec fn is_order(order: Seq<int>, count: nat) -> bool {
    &&& order.len() == count
    &&& order.no_duplicates()
    &&& forall|k: int| 0 <= k < order.len() ==> 0 <= #[trigger] order[k] < count
}

/// Whether two fresh ratchets are the ends of one chain, over which the one
/// sent some messages to the other.
pub open spec fn sent_over(
    sender: RatchetModel,
    receiver: RatchetModel,
    origin: Seq<u8>,
    sent: Seq<EnvelopeModel>,
    texts: Seq<Seq<u8>>,
) -> bool {
    &&& leads(sender, origin)
    &&& sender.send_counter == 0
    &&& follows(receiver, origin)
    &&& receiver.recv_counter == 0
    &&& sent.len() == texts.len()
    &&& forall|i: int|
        0 <= i < sent.len() ==> carries(
            #[trigger] sent[i],
            after_sends(sender, i as nat),
            texts[i],
        )
}

/// Sending messages moves the sending chain on by as many positions.
proof fn sends_keep_the_chain(m: RatchetModel, origin: Seq<u8>, count: nat)
    requires
        leads(m, origin),
    ensures
        leads(after_sends(m, count), origin),
        after_sends(m, count).send_counter == m.send_counter + count,
    decreases count,
{
    if count > 0 {
        sends_keep_the_chain(m, origin, (count - 1) as nat);
    }
}

/// Where a receiver stands after the first `count` arrivals: it can still
/// read whatever has not arrived, and nothing that has.
proof fn arrivals_keep_the_rest(
    sender: RatchetModel,
    receiver: RatchetModel,
    origin: Seq<u8>,
    sent: Seq<EnvelopeModel>,
    texts: Seq<Seq<u8>>,
    order: Seq<int>,
    count: nat,
)
    requires
        sent_over(sender, receiver, origin, sent, texts),
        sent.len() <= MAX_SKIP,
        is_order(order, sent.len()),
        count <= order.len(),
    ensures
        ({
            let m = after_arrivals(receiver, in_order(sent, order).take(count as int));
            &&& follows(m, origin)
            &&& m.recv_counter <= sent.len()
            &&& forall|i: int|
                0 <= i < sent.len() ==> (if order.take(count as int).contains(i) {
                    spent(m, (#[trigger] sent[i]).counter)
                } else {
                    key_available(m, sent[i].counter)
                })
        }),
    decreases count,
{
    let arrived = in_order(sent, order);
    let m = after_arrivals(receiver, arrived.take(count as int));
    assert forall|i: int| 0 <= i < sent.len() implies (#[trigger] sent[i]).counter == i + 1 by {
        sends_keep_the_chain(sender, origin, i as nat);
    }
    if count > 0 {
        let last = (count - 1) as nat;
        arrivals_keep_the_rest(sender, receiver, origin, sent, texts, order, last);
        let before = after_arrivals(receiver, arrived.take(last as int));
        assert(arrived.take(count as int).drop_last() =~= arrived.take(last as int));
        let read = order[last as int];
        let e = sent[read];
        assert(arrived.take(count as int).last() == e);
        assert(m == after_attempt(before, e.counter));
        assert(!order.take(last as int).contains(read));
        assert(key_available(before, e.counter));
        receiving_keeps_back(before, origin, e.counter);
        assert forall|i: int| 0 <= i < sent.len() implies (if order.take(count as int).contains(i) {
            spent(m, (#[trigger] sent[i]).counter)
        } else {
            key_available(m, sent[i].counter)
        }) by {
            if i == read {
                assert(order.take(count as int)[last as int] == read);
                reading_spends_the_key(before, e.counter);
            } else {
                assert(order.take(count as int).contains(i) == order.take(last as int).contains(i))
                    by {
                    assert(order.take(count as int) =~= order.take(last as int).push(read));
                    if order.take(last as int).contains(i) {
                        let k = choose|k: int|
                            0 <= k < last && order.take(last as int)[k] == i;
                        assert(order.take(count as int)[k] == i);
                    }
                    if order.take(count as int).contains(i) {
                        let k = choose|k: int|
                            0 <= k < count && order.take(count as int)[k] == i;
                        assert(order.take(last as int)[k] == i);
                    }
                }
                if order.take(last as int).contains(i) {
                    spent_keys_stay_spent(before, sent[i].counter, e);
                } else {
                    reordering_loses_nothing(before, e.counter, sent[i].counter);
                }
            }
        }
    } else {
        assert(arrived.take(0) =~= Seq::<EnvelopeModel>::empty());
        assert(order.take(0) =~= Seq::<int>::empty());
    }
}

/// Receiving keeps the receiving chain in step.
proof fn receiving_keeps_back(m: RatchetModel, back: Seq<u8>, counter: u32)
    requires
        follows(m, back),
    ensures
        follows(after_attempt(m, counter), back),
        well_formed(m),
{
    let out = m.send_chain;
    let level = RatchetModel { send_counter: 0, ..m };
    receiving_keeps_both_chains(level, out, back, counter);
    let after = after_attempt(m, counter);
    let after_level = after_attempt(level, counter);
    assert(after.skipped =~= after_level.skipped);
}

/// Every message opens exactly once, in whatever order they arrive: of up to
/// as many messages as a chain may jump, each is read when it arrives, and
/// none of them a second time.
pub proof fn any_order_opens_each_once(
    sender: RatchetModel,
    receiver: RatchetModel,
    origin: Seq<u8>,
    sent: Seq<EnvelopeModel>,
    texts: Seq<Seq<u8>>,
    order: Seq<int>,
)
    requires
        sent_over(sender, receiver, origin, sent, texts),
        sent.len() <= MAX_SKIP,
        is_order(order, sent.len()),
    ensures
        forall|k: int|
            0 <= k < order.len() ==> receive_result(
                after_arrivals(receiver, in_order(sent, order).take(k)),
                #[trigger] in_order(sent, order)[k],
            ) == Ok::<Seq<u8>, RatchetError>(texts[order[k]]),
        after_arrivals(receiver, in_order(sent, order)).recv_counter == sent.len(),
        forall|i: int|
            0 <= i < sent.len() ==> receive_result(
                after_arrivals(receiver, in_order(sent, order)),
                #[trigger] sent[i],
            ) is Err,
{
    let arrived = in_order(sent, order);
    let end = after_arrivals(receiver, arrived);
    assert forall|k: int| 0 <= k < order.len() implies receive_result(
        after_arrivals(receiver, arrived.take(k)),
        #[trigger] arrived[k],
    ) == Ok::<Seq<u8>, RatchetError>(texts[order[k]]) by {
        arrivals_keep_the_rest(sender, receiver, origin, sent, texts, order, k as nat);
        let i = order[k];
        assert(!order.take(k).contains(i));
        assert(key_available(after_arrivals(receiver, arrived.take(k)), sent[i].counter));
        sends_keep_the_chain(sender, origin, i as nat);
        message_is_delivered(
            after_sends(sender, i as nat),
            after_arrivals(receiver, arrived.take(k)),
            origin,
            sent[i],
            texts[i],
        );
    }
    arrivals_keep_the_rest(sender, receiver, origin, sent, texts, order, order.len());
    assert(arrived.take(order.len() as int) =~= arrived);
    assert(order.take(order.len() as int) =~= order);
    orders_are_complete(order, sent.len());
    assert forall|i: int| 0 <= i < sent.len() implies receive_result(end, #[trigger] sent[i])
        is Err by {
        assert(order.contains(i));
        assert(spent(end, sent[i].counter));
        spent_keys_stay_spent(end, sent[i].counter, sent[i]);
    }
    if sent.len() > 0 {
        let last = sent.len() - 1;
        assert(order.contains(last));
        sends_keep_the_chain(sender, origin, last as nat);
        assert(spent(end, sent[last].counter));
    }
}

/// An order leaves no number out.
proof fn orders_are_complete(order: Seq<int>, count: nat)
    requires
        is_order(order, count),
    ensures
        forall|i: int| 0 <= i < count ==> order.contains(i),
{
    let all = vstd::set_lib::set_int_range(0, count as int);
    vstd::set_lib::lemma_int_range(0, count as int);
    order.unique_seq_to_set();
    assert(order.to_set().subset_of(all));
    vstd::set_lib::lemma_subset_equality(order.to_set(), all);
    assert forall|i: int| 0 <= i < count implies order.contains(i) by {
        assert(all.contains(i));
    }
}

} // verus!
