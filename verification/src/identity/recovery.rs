//! An identity as a phrase of words that can be written down.
use vstd::prelude::*;

use crate::bytes;
use crate::crypto::suite;
use crate::identity::{Identity, IdentityModel};
use bip39::{Language, Mnemonic};

verus! {

/// The English BIP-39 phrase of 32 bytes of entropy.
pub uninterp spec fn phrase_of(entropy: Seq<u8>) -> Seq<char>;

/// The entropy that an English BIP-39 phrase encodes, when it is one.
pub uninterp spec fn entropy_of(phrase: Seq<char>) -> Option<Seq<u8>>;

/// `bip39::Mnemonic::from_entropy_in` on 32 bytes, a valid length, then
/// `to_string`. The phrase encodes the entropy it was made from.
#[verifier::external_body]
fn phrase_from_entropy(entropy: &[u8; 32]) -> (phrase: String)
    ensures
        phrase@ == phrase_of(entropy@),
        entropy_of(phrase@) == Some(entropy@),
{
    Mnemonic::from_entropy_in(Language::English, entropy)
        .expect("32 bytes is a valid length")
        .to_string()
}

/// `bip39::Mnemonic::parse_in`, then `to_entropy`: the entropy, or `None`
/// where the phrase is refused.
#[verifier::external_body]
fn entropy_from_phrase(phrase: &str) -> (entropy: Option<Vec<u8>>)
    ensures
        entropy is Some <==> entropy_of(phrase@) is Some,
        entropy matches Some(e) ==> entropy_of(phrase@) == Some(e@),
{
    Mnemonic::parse_in(Language::English, phrase).ok().map(|mnemonic| mnemonic.to_entropy())
}

/// A fresh identity and the phrase that restores it.
pub fn generate() -> (result: (String, Identity))
    ensures
        result.1@.wf(),
        result.0@ == phrase_of(result.1@.secret),
        entropy_of(result.0@) == Some(result.1@.secret),
        suite::drawn_key(result.1@.secret),
{
    let entropy: [u8; 32] = suite::draw_key();
    let phrase = phrase_from_entropy(&entropy);
    (phrase, Identity::from_secret_bytes(entropy))
}

/// The identity whose secret is the first 32 bytes of a phrase's entropy.
pub fn identity_from_entropy(entropy: &[u8]) -> (identity: Identity)
    requires
        entropy@.len() >= 32,
    ensures
        identity@.wf(),
        identity@.secret == entropy@.take(32),
{
    let head: &[u8] = vstd::slice::slice_subrange(entropy, 0, 32);
    assert(head@ =~= entropy@.take(32));
    match bytes::to_array32(head) {
        Some(secret) => Identity::from_secret_bytes(secret),
        None => Identity::from_secret_bytes([0; 32]),
    }
}

/// The identity of a phrase, or `None` for one that is not a valid phrase.
/// The phrase must encode enough entropy for a key, as one of 24 words does.
pub fn restore(phrase: &str) -> (identity: Option<Identity>)
    requires
        entropy_of(phrase@) matches Some(e) ==> e.len() >= 32,
    ensures
        identity is Some <==> entropy_of(phrase@) is Some,
        identity matches Some(i) ==> i@.wf() && i@.secret == entropy_of(phrase@)->0.take(32),
{
    match entropy_from_phrase(phrase) {
        Some(entropy) => Some(identity_from_entropy(entropy.as_slice())),
        None => None,
    }
}

/// Why a phrase does not restore an identity.
#[derive(Debug, Clone, Copy, PartialEq, Eq, Structural)]
pub enum RecoveryError {
    /// The words are not a valid phrase.
    InvalidPhrase,
    /// The phrase is valid but encodes less than a key.
    TooShort,
}

/// Like `restore`, for any text: a valid phrase that is too short for a key
/// is told apart from an invalid one.
pub fn try_restore(phrase: &str) -> (identity: Result<Identity, RecoveryError>)
    ensures
        match entropy_of(phrase@) {
            Some(e) => if e.len() >= 32 {
                identity matches Ok(i) && i@.wf() && i@.secret == e.take(32)
            } else {
                identity == Err::<Identity, _>(RecoveryError::TooShort)
            },
            None => identity == Err::<Identity, _>(RecoveryError::InvalidPhrase),
        },
{
    match entropy_from_phrase(phrase) {
        Some(entropy) => if entropy.len() < 32 {
            Err(RecoveryError::TooShort)
        } else {
            match restore(phrase) {
                Some(identity) => Ok(identity),
                None => Err(RecoveryError::InvalidPhrase),
            }
        },
        None => Err(RecoveryError::InvalidPhrase),
    }
}

/// A recovery phrase gives the identity back: same secret, same public key,
/// same name.
pub proof fn phrase_restores_identity(
    phrase: Seq<char>,
    original: IdentityModel,
    restored: IdentityModel,
)
    requires
        original.wf(),
        restored.wf(),
        entropy_of(phrase) == Some(original.secret),
        entropy_of(phrase) matches Some(e) && restored.secret == e.take(32),
    ensures
        restored == original,
{
    assert(original.secret.take(32) =~= original.secret);
}

/// New identities come from the random source: whatever a call that makes one
/// returns, its secret is a draw of that source, its phrase encodes the secret,
/// and its key and name belong to it. No identity is known in advance.
pub proof fn new_identities_are_drawn(result: (String, Identity))
    requires
        call_ensures(generate, (), result),
    ensures
        suite::drawn_key(result.1@.secret),
        entropy_of(result.0@) == Some(result.1@.secret),
        result.1@.wf(),
{
}

} // verus!
