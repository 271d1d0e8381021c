//! A user's identity: an Ed25519 key pair, and the name derived from its
//! public half.
use vstd::prelude::*;

use crate::bytes;
use crate::crypto::suite;
use crate::encoding;
use crate::types::UserId;

pub mod recovery;

verus! {

/// The digits of a number in base 58, the most significant first: the
/// letters and digits without those that look alike. Zero has none.
pub open spec fn base58_digits(value: nat) -> Seq<char>
    decreases value,
{
    if value == 0 {
        Seq::empty()
    } else {
        base58_digits(value / 58).push(
            "123456789ABCDEFGHJKLMNPQRSTUVWXYZabcdefghijkmnopqrstuvwxyz"@[value as int % 58],
        )
    }
}

/// The number of zero bytes at the start of `data`.
pub open spec fn leading_zero_bytes(data: Seq<u8>) -> nat
    decreases data.len(),
{
    if data.len() == 0 || data[0] != 0 {
        0
    } else {
        1 + leading_zero_bytes(data.skip(1))
    }
}

/// The Base58 text of `data`: a `1` for each zero byte in front, then the
/// digits of the number that the bytes are.
pub open spec fn base58(data: Seq<u8>) -> Seq<char> {
    Seq::new(leading_zero_bytes(data), |i: int| '1') + base58_digits(bytes::be_value(data))
}

/// `bs58::encode(..).into_string` in the default alphabet: the Base58 text of
/// the bytes.
#[verifier::external_body]
fn base58_text(data: &[u8]) -> (text: String)
    ensures
        text@ == base58(data@),
{
    bs58::encode(data).into_string()
}

/// The name of the user with a public key: the Base58 text of the first 20
/// bytes of its SHA-256 digest.
pub open spec fn user_id_of(verifying_key: Seq<u8>) -> Seq<char> {
    base58(suite::sha256(verifying_key).take(20))
}

/// A user's key pair and name.
pub struct Identity {
    pub(crate) signing_key: [u8; 32],
    pub verifying_key: [u8; 32],
    pub user_id: UserId,
}

/// What an identity consists of.
#[verifier::ext_equal]
pub struct IdentityModel {
    /// The secret half of the key pair.
    pub secret: Seq<u8>,
    /// The public half of the key pair.
    pub public: Seq<u8>,
    /// The user's name.
    pub name: Seq<char>,
}

impl IdentityModel {
    /// The public half and the name belong to the secret half.
    pub open spec fn wf(self) -> bool {
        &&& self.secret.len() == 32
        &&& self.public == suite::ed25519_public(self.secret)
        &&& self.name == user_id_of(self.public)
    }
}

impl View for Identity {
    type V = IdentityModel;

    closed spec fn view(&self) -> IdentityModel {
        IdentityModel {
            secret: self.signing_key@,
            public: self.verifying_key@,
            name: self.user_id@,
        }
    }
}

/// The public fields of an identity are those of its model.
pub(crate) proof fn identity_fields(i: Identity)
    ensures
        i@.public == i.verifying_key@,
        i@.name == i.user_id@,
{
}

impl Identity {
    /// A fresh identity.
    pub fn generate() -> (identity: Self)
        ensures
            identity@.wf(),
            suite::drawn_key(identity@.secret),
            suite::ed25519_is_key(identity@.public),
    {
        Self::from_signing_key(suite::draw_key())
    }

    /// The identity of a secret key.
    pub fn from_signing_key(signing_key: [u8; 32]) -> (identity: Self)
        ensures
            identity@.wf(),
            identity@.secret == signing_key@,
            identity@.public == suite::ed25519_public(signing_key@),
            identity@.name == base58(suite::sha256(identity@.public).take(20)),
            suite::ed25519_is_key(identity@.public),
    {
        let verifying_key: [u8; 32] = suite::ed25519_public_key(&signing_key);
        let user_id = Self::derive_user_id(&verifying_key);
        Identity { signing_key, verifying_key, user_id }
    }

    /// The name that a public key determines.
    pub fn derive_user_id(verifying_key: &[u8; 32]) -> (user_id: UserId)
        ensures
            user_id@ == user_id_of(verifying_key@),
            user_id@ == base58(suite::sha256(verifying_key@).take(20)),
    {
        let hash: [u8; 32] = suite::sha256_digest(verifying_key.as_slice());
        let head: &[u8] = vstd::slice::slice_subrange(hash.as_slice(), 0, 20);
        assert(head@ =~= hash@.take(20));
        base58_text(head)
    }

    /// Signs a message. The signature verifies under this identity's public
    /// key.
    pub fn sign(&self, message: &[u8]) -> (signature: [u8; 64])
        ensures
            signature@ == suite::ed25519_sign(self@.secret, message@),
            suite::ed25519_verifies(
                suite::ed25519_public(self@.secret),
                message@,
                signature@,
            ),
    {
        suite::ed25519_signature(&self.signing_key, message)
    }

    /// Whether a signature of a message belongs to a public key.
    pub fn verify(verifying_key: &[u8; 32], message: &[u8], signature: &[u8; 64]) -> (valid: bool)
        ensures
            valid == suite::ed25519_verifies(verifying_key@, message@, signature@),
    {
        suite::ed25519_verify(verifying_key, message, signature)
    }

    /// Like `verify`, for a signature of any length: one that is not 64
    /// bytes long is refused.
    pub fn verify_bytes(verifying_key: &[u8; 32], message: &[u8], signature: &[u8]) -> (valid: bool)
        ensures
            valid == signature_accepted(verifying_key@, message@, signature@),
            valid == (signature@.len() == 64 && suite::ed25519_verifies(
                verifying_key@,
                message@,
                signature@,
            )),
    {
        match bytes::to_array64(signature) {
            Some(fixed) => Self::verify(verifying_key, message, &fixed),
            None => false,
        }
    }

    /// The public key in some bytes; `None` where they are not 32 bytes that
    /// encode a key.
    pub fn verifying_key_from_bytes(data: &[u8]) -> (key: Option<[u8; 32]>)
        ensures
            key is Some <==> data@.len() == 32 && suite::ed25519_is_key(data@),
            key matches Some(k) ==> k@ == data@,
    {
        match bytes::to_array32(data) {
            Some(fixed) => if suite::ed25519_key_accepted(&fixed) {
                Some(fixed)
            } else {
                None
            },
            None => None,
        }
    }

    /// The public key in hexadecimal digits.
    pub fn public_key_hex(&self) -> (text: String)
        ensures
            text@ == encoding::hex_text(self@.public),
    {
        encoding::hex_encode(self.verifying_key.as_slice())
    }

    /// What this user hands to others: name and public key.
    pub fn my_card(&self) -> (text: String)
        ensures
            text@ == card(self@),
            text@ == self@.name + ":"@ + encoding::hex_text(self@.public),
    {
        let mut text: String = self.user_id.clone();
        text.append(":");
        text.append(self.public_key_hex().as_str());
        text
    }

    /// The secret key, for a backup. The caller wipes it after use.
    pub fn export_secret_bytes(&self) -> (secret: [u8; 32])
        ensures
            secret@ == self@.secret,
    {
        self.signing_key
    }

    /// The identity of an exported secret key.
    pub fn from_secret_bytes(secret: [u8; 32]) -> (identity: Self)
        ensures
            identity@.wf(),
            identity@.secret == secret@,
            identity@.public == suite::ed25519_public(secret@),
            identity@.name == base58(suite::sha256(identity@.public).take(20)),
            suite::ed25519_is_key(identity@.public),
    {
        let mut bytes: [u8; 32] = secret;
        let identity = Self::from_signing_key(bytes);
        suite::wipe_key(&mut bytes);
        identity
    }
}

/// What a user hands to others, so that they can add the user as a contact.
pub open spec fn card(i: IdentityModel) -> Seq<char> {
    i.name + ":"@ + encoding::hex_text(i.public)
}

/// Whether raw bytes are a signature of a message for a public key.
pub open spec fn signature_accepted(
    verifying_key: Seq<u8>,
    message: Seq<u8>,
    signature: Seq<u8>,
) -> bool {
    signature.len() == 64 && suite::ed25519_verifies(verifying_key, message, signature)
}

/// An identity is determined by its secret: importing an exported secret
/// gives the same key and the same name.
pub proof fn identity_is_deterministic(first: IdentityModel, second: IdentityModel)
    requires
        first.wf(),
        second.wf(),
        first.secret == second.secret,
    ensures
        first == second,
{
}

/// A signature is accepted under the key that verifies it and for the message
/// that was signed: whatever is accepted is 64 bytes that Ed25519 verifies, and
/// whatever an identity signs is accepted under its own public key.
pub proof fn only_verified_signatures_are_accepted(
    key: Seq<u8>,
    message: Seq<u8>,
    signature: Seq<u8>,
)
    ensures
        signature_accepted(key, message, signature) <==> signature.len() == 64
            && suite::ed25519_verifies(key, message, signature),
{
}

} // verus!
