//! Cryptographic building blocks and the encrypted envelope that travels
//! between two users.
use vstd::prelude::*;

use crate::bytes;
use vstd::utf8;

pub mod pow;
pub mod ratchet;
pub mod suite;
pub mod x3dh;

pub use crate::crypto::ratchet::{DoubleRatchet, RatchetRole, RatchetState};
pub use crate::crypto::x3dh::X3dhSession;

verus! {

/// An encrypted message as it travels through the network. A relay sees the
/// sender, the position in the sender's chain and the ciphertext.
pub struct EncryptedEnvelope {
    /// Who sent it: the receiver finds the session by this name.
    pub sender_id: String,
    pub nonce: [u8; 12],
    pub ciphertext: Vec<u8>,
    /// The number of this message in the sender's chain, counted from one.
    pub counter: u32,
    /// The sender's Ed25519 signature of `signable_bytes`.
    pub sender_signature: Vec<u8>,
    /// What the receiver needs to set the session up, in the first message
    /// of a session only.
    pub session_init: Option<SessionInit>,
}

/// The key-agreement parameters of the first message of a session.
#[derive(Clone, Copy)]
pub struct SessionInit {
    /// The initiator's ephemeral X25519 public key.
    pub ephemeral_key: [u8; 32],
    /// The receiver's one-time prekey that the initiator used, if any.
    pub one_time_prekey_public: Option<[u8; 32]>,
}

/// Session parameters as they are compared and written.
#[verifier::ext_equal]
pub struct InitModel {
    pub ephemeral_key: Seq<u8>,
    pub one_time_prekey_public: Option<Seq<u8>>,
}

/// An envelope as it is compared and written.
#[verifier::ext_equal]
pub struct EnvelopeModel {
    pub sender_id: Seq<char>,
    pub nonce: Seq<u8>,
    pub ciphertext: Seq<u8>,
    pub counter: u32,
    pub sender_signature: Seq<u8>,
    pub session_init: Option<InitModel>,
}

/// The value of an optional key.
pub open spec fn key_model(key: Option<[u8; 32]>) -> Option<Seq<u8>> {
    match key {
        Some(k) => Some(k@),
        None => None,
    }
}

impl View for SessionInit {
    type V = InitModel;

    open spec fn view(&self) -> InitModel {
        InitModel {
            ephemeral_key: self.ephemeral_key@,
            one_time_prekey_public: key_model(self.one_time_prekey_public),
        }
    }
}

/// The value of optional session parameters.
pub open spec fn init_model(init: Option<SessionInit>) -> Option<InitModel> {
    match init {
        Some(i) => Some(i@),
        None => None,
    }
}

impl View for EncryptedEnvelope {
    type V = EnvelopeModel;

    open spec fn view(&self) -> EnvelopeModel {
        EnvelopeModel {
            sender_id: self.sender_id@,
            nonce: self.nonce@,
            ciphertext: self.ciphertext@,
            counter: self.counter,
            sender_signature: self.sender_signature@,
            session_init: init_model(self.session_init),
        }
    }
}

/// The bytes of an optional key: a presence byte, then the key.
pub open spec fn optional_key_bytes(key: Option<Seq<u8>>) -> Seq<u8> {
    match key {
        Some(k) => seq![1u8] + k,
        None => seq![0u8],
    }
}

/// The bytes of optional session parameters: a presence byte, then the
/// parameters.
pub open spec fn session_init_bytes(init: Option<InitModel>) -> Seq<u8> {
    match init {
        Some(i) => seq![1u8] + i.ephemeral_key + optional_key_bytes(i.one_time_prekey_public),
        None => seq![0u8],
    }
}

impl EnvelopeModel {
    /// The bytes that the sender signs: sender, nonce, counter, ciphertext
    /// and session parameters, in this order.
    pub open spec fn signable(self) -> Seq<u8> {
        utf8::encode_utf8(self.sender_id) + self.nonce + bytes::le_bytes(self.counter as nat, 4)
            + self.ciphertext + session_init_bytes(self.session_init)
    }
}

impl EncryptedEnvelope {
    /// The canonical bytes of this envelope that are signed and verified.
    pub fn signable_bytes(&self) -> (buffer: Vec<u8>)
        ensures
            buffer@ == self@.signable(),
            buffer@ == utf8::encode_utf8(self.sender_id@) + self.nonce@ + bytes::le_bytes(
                self.counter as nat,
                4,
            ) + self.ciphertext@ + (match self.session_init {
                Some(init) => seq![1u8] + init.ephemeral_key@ + (match init.one_time_prekey_public {
                    Some(key) => seq![1u8] + key@,
                    None => seq![0u8],
                }),
                None => seq![0u8],
            }),
    {
        let mut buffer: Vec<u8> = Vec::new();
        bytes::append(&mut buffer, self.sender_id.as_str().as_bytes());
        bytes::append(&mut buffer, self.nonce.as_slice());
        bytes::append(&mut buffer, bytes::u32_le(self.counter).as_slice());
        bytes::append(&mut buffer, self.ciphertext.as_slice());
        let ghost head = buffer@;
        match &self.session_init {
            Some(init) => {
                buffer.push(1);
                bytes::append(&mut buffer, init.ephemeral_key.as_slice());
                match &init.one_time_prekey_public {
                    Some(key) => {
                        buffer.push(1);
                        bytes::append(&mut buffer, key.as_slice());
                    },
                    None => {
                        buffer.push(0);
                    },
                }
            },
            None => {
                buffer.push(0);
            },
        }
        assert(head =~= utf8::encode_utf8(self.sender_id@) + self.nonce@ + bytes::le_bytes(
            self.counter as nat,
            4,
        ) + self.ciphertext@);
        assert(buffer@ =~= head + session_init_bytes(self@.session_init));
        buffer
    }
}

/// A sender's signature covers the whole message: two envelopes of one sender,
/// with ciphertexts of one length, have the same signed bytes only where their
/// nonces, counters, ciphertexts and session parameters are the same.
pub proof fn signatures_cover_the_envelope(first: EnvelopeModel, second: EnvelopeModel)
    requires
        first.sender_id == second.sender_id,
        first.nonce.len() == 12 && second.nonce.len() == 12,
        first.ciphertext.len() == second.ciphertext.len(),
        first.session_init matches Some(i) ==> init_fits(i),
        second.session_init matches Some(i) ==> init_fits(i),
        first.signable() == second.signable(),
    ensures
        first.nonce == second.nonce,
        first.counter == second.counter,
        first.ciphertext == second.ciphertext,
        first.session_init == second.session_init,
{
    let a = first.signable();
    let b = second.signable();
    bytes::pow256_values();
    bytes::le_roundtrip(first.counter as nat, 4);
    bytes::le_roundtrip(second.counter as nat, 4);
    let n0 = utf8::encode_utf8(first.sender_id).len() as int;
    let n1 = n0 + 12;
    let n2 = n1 + 4;
    let n3 = n2 + first.ciphertext.len();
    assert(first.nonce =~= a.subrange(n0, n1) && second.nonce =~= b.subrange(n0, n1));
    assert(bytes::le_bytes(first.counter as nat, 4) =~= a.subrange(n1, n2));
    assert(bytes::le_bytes(second.counter as nat, 4) =~= b.subrange(n1, n2));
    assert(first.ciphertext =~= a.subrange(n2, n3) && second.ciphertext =~= b.subrange(n2, n3));
    let x = session_init_bytes(first.session_init);
    let y = session_init_bytes(second.session_init);
    assert(x =~= a.skip(n3) && y =~= b.skip(n3));
    assert(x[0] == y[0]);
    if first.session_init is Some {
        let i = first.session_init->Some_0;
        let j = second.session_init->Some_0;
        assert(i.ephemeral_key =~= x.subrange(1, 33) && j.ephemeral_key =~= y.subrange(1, 33));
        let k = optional_key_bytes(i.one_time_prekey_public);
        let l = optional_key_bytes(j.one_time_prekey_public);
        assert(k =~= x.skip(33) && l =~= y.skip(33));
        assert(k[0] == l[0]);
        if i.one_time_prekey_public is Some {
            assert(i.one_time_prekey_public->Some_0 =~= k.skip(1));
            assert(j.one_time_prekey_public->Some_0 =~= l.skip(1));
        }
    }
}

/// Whether session parameters have keys of the right length.
pub open spec fn init_fits(init: InitModel) -> bool {
    &&& init.ephemeral_key.len() == 32
    &&& init.one_time_prekey_public matches Some(k) ==> k.len() == 32
}

} // verus!
