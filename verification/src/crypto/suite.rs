//! The primitives the node takes from outside crates, each behind one
//! function, and the names its contracts use for what they compute.
use vstd::prelude::*;

use chacha20poly1305::aead::{Aead, KeyInit};
use chacha20poly1305::{ChaCha20Poly1305, Key, Nonce};
use ed25519_dalek::{Signature, Signer, SigningKey, Verifier, VerifyingKey};
use hkdf::Hkdf;
use rand_core::{OsRng, RngCore};
use sha2::{Digest, Sha256};
use x25519_dalek::{PublicKey, StaticSecret};
use zeroize::Zeroize;

verus! {

/// The SHA-256 digest of `data`.
pub uninterp spec fn sha256(data: Seq<u8>) -> Seq<u8>;

/// 32 bytes of HKDF-SHA256 output for the input key material `ikm`, without
/// salt, under the label `info`.
pub uninterp spec fn hkdf_sha256(ikm: Seq<u8>, info: Seq<u8>) -> Seq<u8>;

/// The ChaCha20-Poly1305 ciphertext, tag included, of `plaintext`.
pub uninterp spec fn chacha20poly1305_seal(
    key: Seq<u8>,
    nonce: Seq<u8>,
    plaintext: Seq<u8>,
) -> Seq<u8>;

/// The plaintext of a ChaCha20-Poly1305 ciphertext, when its tag is right.
pub uninterp spec fn chacha20poly1305_open(
    key: Seq<u8>,
    nonce: Seq<u8>,
    ciphertext: Seq<u8>,
) -> Option<Seq<u8>>;

/// The X25519 public key of `secret`.
pub uninterp spec fn x25519_public(secret: Seq<u8>) -> Seq<u8>;

/// The X25519 shared secret of `secret` and the public key `public`.
pub uninterp spec fn x25519_shared(secret: Seq<u8>, public: Seq<u8>) -> Seq<u8>;

/// The Ed25519 public key of `secret`.
pub uninterp spec fn ed25519_public(secret: Seq<u8>) -> Seq<u8>;

/// Whether 32 bytes decode to an Ed25519 public key.
pub uninterp spec fn ed25519_is_key(public: Seq<u8>) -> bool;

/// The Ed25519 signature of `message` under `secret`.
pub uninterp spec fn ed25519_sign(secret: Seq<u8>, message: Seq<u8>) -> Seq<u8>;

/// Whether `signature` is an Ed25519 signature of `message` for `public`.
pub uninterp spec fn ed25519_verifies(
    public: Seq<u8>,
    message: Seq<u8>,
    signature: Seq<u8>,
) -> bool;

/// The longest plaintext that one ChaCha20-Poly1305 nonce can cover: one
/// 64-byte block for each value that its block counter still has.
pub const MAX_PLAINTEXT: u64 = 0x3f_ffff_ff80;

/// The length of the Poly1305 tag at the end of a ciphertext.
pub const TAG_LEN: u64 = 16;

/// `sha2::Sha256::digest`: the digest of `data`, which has 32 bytes.
#[verifier::external_body]
pub(crate) fn sha256_digest(data: &[u8]) -> (digest: [u8; 32])
    ensures
        digest@ == sha256(data@),
{
    Sha256::digest(data).into()
}

/// `hkdf::Hkdf::<Sha256>::new` without salt, then `expand` under `info` into
/// 32 bytes, a length that is always accepted.
#[verifier::external_body]
pub(crate) fn hkdf_expand(ikm: &[u8], info: &[u8]) -> (okm: [u8; 32])
    ensures
        okm@ == hkdf_sha256(ikm@, info@),
{
    let mut okm = [0u8; 32];
    Hkdf::<Sha256>::new(None, ikm).expand(info, &mut okm).expect("32 bytes is a valid length");
    okm
}

/// `ChaCha20Poly1305::encrypt` without associated data. It succeeds on every
/// plaintext that its block counter can cover, and `decrypt` under the same
/// key and nonce gives the plaintext back.
#[verifier::external_body]
fn chacha_encrypt(key: &[u8; 32], nonce: &[u8; 12], plaintext: &[u8]) -> (ciphertext: Vec<u8>)
    requires
        plaintext@.len() <= MAX_PLAINTEXT,
    ensures
        ciphertext@ == chacha20poly1305_seal(key@, nonce@, plaintext@),
        ciphertext@.len() == plaintext@.len() + TAG_LEN,
        chacha20poly1305_open(key@, nonce@, ciphertext@) == Some(plaintext@),
{
    ChaCha20Poly1305::new(Key::from_slice(key))
        .encrypt(Nonce::from_slice(nonce), plaintext)
        .expect("the length is within the block counter")
}

/// `ChaCha20Poly1305::decrypt` without associated data: the plaintext, or
/// `None` where it reports an error.
#[verifier::external_body]
fn chacha_decrypt(key: &[u8; 32], nonce: &[u8; 12], ciphertext: &[u8]) -> (plaintext: Option<
    Vec<u8>,
>)
    requires
        ciphertext@.len() <= MAX_PLAINTEXT + TAG_LEN,
    ensures
        plaintext is Some <==> chacha20poly1305_open(key@, nonce@, ciphertext@) is Some,
        plaintext matches Some(p) ==> chacha20poly1305_open(key@, nonce@, ciphertext@) == Some(p@),
{
    ChaCha20Poly1305::new(Key::from_slice(key)).decrypt(Nonce::from_slice(nonce), ciphertext).ok()
}

/// `x25519_dalek::PublicKey::from` a `StaticSecret` of these bytes.
#[verifier::external_body]
pub(crate) fn x25519_public_key(secret: &[u8; 32]) -> (public: [u8; 32])
    ensures
        public@ == x25519_public(secret@),
{
    PublicKey::from(&StaticSecret::from(*secret)).to_bytes()
}

/// `x25519_dalek::StaticSecret::diffie_hellman`. Two parties that each
/// combine their own secret with the other's public key agree on the result.
#[verifier::external_body]
pub(crate) fn x25519_agree(secret: &[u8; 32], public: &[u8; 32]) -> (shared: [u8; 32])
    ensures
        shared@ == x25519_shared(secret@, public@),
        forall|other: Seq<u8>|
            other.len() == 32 && #[trigger] x25519_public(other) == public@ ==> shared@
                == x25519_shared(other, x25519_public(secret@)),
{
    StaticSecret::from(*secret).diffie_hellman(&PublicKey::from(*public)).to_bytes()
}

/// `ed25519_dalek::SigningKey::from_bytes`, then `verifying_key`: a key that
/// `VerifyingKey::from_bytes` accepts.
#[verifier::external_body]
pub(crate) fn ed25519_public_key(secret: &[u8; 32]) -> (public: [u8; 32])
    ensures
        public@ == ed25519_public(secret@),
        ed25519_is_key(public@),
{
    SigningKey::from_bytes(secret).verifying_key().to_bytes()
}

/// `ed25519_dalek::VerifyingKey::from_bytes`: whether it accepts the bytes.
#[verifier::external_body]
pub(crate) fn ed25519_key_accepted(public: &[u8; 32]) -> (accepted: bool)
    ensures
        accepted == ed25519_is_key(public@),
{
    VerifyingKey::from_bytes(public).is_ok()
}

/// `ed25519_dalek::SigningKey::sign`: 64 bytes that `verify` accepts for the
/// same message under the public key of `secret`.
#[verifier::external_body]
pub(crate) fn ed25519_signature(secret: &[u8; 32], message: &[u8]) -> (signature: [u8; 64])
    ensures
        signature@ == ed25519_sign(secret@, message@),
        ed25519_verifies(ed25519_public(secret@), message@, signature@),
{
    SigningKey::from_bytes(secret).sign(message).to_bytes()
}

/// `ed25519_dalek::VerifyingKey::verify`; `false` also where the bytes of
/// `public` are not a key.
#[verifier::external_body]
pub(crate) fn ed25519_verify(public: &[u8; 32], message: &[u8], signature: &[u8; 64]) -> (valid:
    bool)
    ensures
        valid == ed25519_verifies(public@, message@, signature@),
{
    match VerifyingKey::from_bytes(public) {
        Ok(key) => key.verify(message, &Signature::from_bytes(signature)).is_ok(),
        Err(_) => false,
    }
}

/// `rand_core::OsRng::fill_bytes` on 32 bytes.
#[verifier::external_body]
pub(crate) fn random_key() -> (key: [u8; 32]) {
    let mut key = [0u8; 32];
    OsRng.fill_bytes(&mut key);
    key
}

/// `rand::thread_rng().fill_bytes` on 32 bytes.
#[verifier::external_body]
pub(crate) fn random_challenge() -> (challenge: [u8; 32]) {
    let mut challenge = [0u8; 32];
    rand::thread_rng().fill_bytes(&mut challenge);
    challenge
}

/// `rand::thread_rng().fill_bytes` on a 12-byte nonce.
#[verifier::external_body]
pub(crate) fn random_nonce() -> (nonce: [u8; 12]) {
    let mut nonce = [0u8; 12];
    rand::thread_rng().fill_bytes(&mut nonce);
    nonce
}

/// `rand::thread_rng().fill_bytes` on `size` bytes.
#[verifier::external_body]
pub(crate) fn random_bytes(size: usize) -> (data: Vec<u8>)
    ensures
        data@.len() == size,
{
    let mut data = vec![0u8; size];
    rand::thread_rng().fill_bytes(&mut data);
    data
}

/// `rand::random::<u64>`.
#[verifier::external_body]
pub(crate) fn random_u64() -> (value: u64) {
    rand::random()
}

/// What one call of a source gives.
pub(crate) fn ask<T, F: FnOnce() -> T>(source: F) -> (value: T)
    requires
        call_requires(source, ()),
    ensures
        call_ensures(source, (), value),
{
    source()
}

/// Whether a key is what the system's random source gave in some call. No
/// value is known to be one but by asking the source.
pub closed spec fn drawn_key(key: Seq<u8>) -> bool {
    exists|drawn: [u8; 32]| drawn@ == key && #[trigger] call_ensures(random_key, (), drawn)
}

/// Whether a challenge is what the random source gave in some call.
pub closed spec fn drawn_challenge(challenge: Seq<u8>) -> bool {
    exists|drawn: [u8; 32]|
        drawn@ == challenge && #[trigger] call_ensures(random_challenge, (), drawn)
}

/// Whether a nonce is what the random source gave in some call.
pub closed spec fn drawn_nonce(nonce: Seq<u8>) -> bool {
    exists|drawn: [u8; 12]| drawn@ == nonce && #[trigger] call_ensures(random_nonce, (), drawn)
}

/// Whether some bytes are what the random source gave in some call.
pub closed spec fn drawn_bytes(data: Seq<u8>) -> bool {
    exists|size: usize, drawn: Vec<u8>|
        drawn@ == data && #[trigger] call_ensures(random_bytes, (size,), drawn)
}

/// Whether a number is what the random source gave in some call.
pub closed spec fn drawn_number(value: u64) -> bool {
    call_ensures(random_u64, (), value)
}

/// A key from the system's random source.
pub(crate) fn draw_key() -> (key: [u8; 32])
    ensures
        drawn_key(key@),
{
    let key: [u8; 32] = ask(random_key);
    assert(call_ensures(random_key, (), key));
    key
}

/// A key from the system's random source, as one of several: each of them takes
/// a call of its own.
fn one_key_of_several(_number: usize) -> (key: [u8; 32])
    ensures
        drawn_key(key@),
{
    draw_key()
}

/// A nonce from the random source, as one of several: each of them takes a call
/// of its own.
fn one_nonce_of_several(_number: usize) -> (nonce: [u8; 12])
    ensures
        drawn_nonce(nonce@),
{
    draw_nonce()
}

/// Whether a key was drawn as the one with a number, in a call for that number.
pub closed spec fn drawn_key_number(number: int, key: Seq<u8>) -> bool {
    exists|n: usize, drawn: [u8; 32]|
        n == number && drawn@ == key && #[trigger] call_ensures(one_key_of_several, (n,), drawn)
}

/// Whether a nonce was drawn as the one with a number, in a call for that
/// number.
pub closed spec fn drawn_nonce_number(number: int, nonce: Seq<u8>) -> bool {
    exists|n: usize, drawn: [u8; 12]|
        n == number && drawn@ == nonce && #[trigger] call_ensures(one_nonce_of_several, (n,), drawn)
}

/// What one call of a source gives for a number.
fn ask_for<T, F: FnOnce(usize) -> T>(source: F, number: usize) -> (value: T)
    requires
        call_requires(source, (number,)),
    ensures
        call_ensures(source, (number,), value),
{
    source(number)
}

/// A key from the system's random source, drawn for a number.
pub(crate) fn draw_key_number(number: usize) -> (key: [u8; 32])
    ensures
        drawn_key(key@),
        drawn_key_number(number as int, key@),
{
    let key: [u8; 32] = ask_for(one_key_of_several, number);
    assert(call_ensures(one_key_of_several, (number,), key));
    key
}

/// A nonce from the random source, drawn for a number.
pub(crate) fn draw_nonce_number(number: usize) -> (nonce: [u8; 12])
    ensures
        drawn_nonce(nonce@),
        drawn_nonce_number(number as int, nonce@),
{
    let nonce: [u8; 12] = ask_for(one_nonce_of_several, number);
    assert(call_ensures(one_nonce_of_several, (number,), nonce));
    nonce
}

/// A challenge from the random source.
pub(crate) fn draw_challenge() -> (challenge: [u8; 32])
    ensures
        drawn_challenge(challenge@),
{
    let challenge: [u8; 32] = ask(random_challenge);
    assert(call_ensures(random_challenge, (), challenge));
    challenge
}

/// A nonce from the random source.
pub(crate) fn draw_nonce() -> (nonce: [u8; 12])
    ensures
        drawn_nonce(nonce@),
{
    let nonce: [u8; 12] = ask(random_nonce);
    assert(call_ensures(random_nonce, (), nonce));
    nonce
}

/// Some bytes from the random source.
pub(crate) fn draw_bytes(size: usize) -> (data: Vec<u8>)
    ensures
        data@.len() == size,
        drawn_bytes(data@),
{
    let data: Vec<u8> = ask_for(random_bytes, size);
    assert(call_ensures(random_bytes, (size,), data));
    data
}

/// A number from the random source.
pub(crate) fn draw_number() -> (value: u64)
    ensures
        drawn_number(value),
{
    let value: u64 = ask(random_u64);
    value
}

/// `zeroize::Zeroize::zeroize` on a key: every byte becomes zero.
#[verifier::external_body]
pub(crate) fn wipe_key(key: &mut [u8; 32])
    ensures
        final(key)@ == Seq::new(32, |i: int| 0u8),
{
    key.zeroize();
}

/// `zeroize::Zeroize::zeroize` on a vector, which is left empty.
#[verifier::external_body]
pub(crate) fn wipe_bytes(data: &mut Vec<u8>)
    ensures
        final(data)@ == Seq::<u8>::empty(),
{
    data.zeroize();
}

/// Whether two different inputs have the same SHA-256 digest.
pub open spec fn collides(first: Seq<u8>, second: Seq<u8>) -> bool {
    first != second && sha256(first) == sha256(second)
}

/// Whether HKDF gives the same output for two different labels.
pub open spec fn labels_collide(ikm: Seq<u8>, first: Seq<u8>, second: Seq<u8>) -> bool {
    first != second && hkdf_sha256(ikm, first) == hkdf_sha256(ikm, second)
}

/// Whether HKDF gives the same output for two different inputs.
pub open spec fn inputs_collide(first: Seq<u8>, second: Seq<u8>, info: Seq<u8>) -> bool {
    first != second && hkdf_sha256(first, info) == hkdf_sha256(second, info)
}

/// Whether HKDF gives the same output for two different pairs of an input and
/// a label.
pub open spec fn expansions_collide(
    first: Seq<u8>,
    first_info: Seq<u8>,
    second: Seq<u8>,
    second_info: Seq<u8>,
) -> bool {
    &&& first != second || first_info != second_info
    &&& hkdf_sha256(first, first_info) == hkdf_sha256(second, second_info)
}

/// Whether a ciphertext authenticates under two different keys.
pub open spec fn opens_under_both(
    first: Seq<u8>,
    second: Seq<u8>,
    nonce: Seq<u8>,
    ciphertext: Seq<u8>,
) -> bool {
    &&& first != second
    &&& opened(first, nonce, ciphertext) is Some
    &&& opened(second, nonce, ciphertext) is Some
}

/// What authenticated encryption gives for a plaintext: a ciphertext, or
/// `None` for one that is too long.
pub open spec fn sealed(key: Seq<u8>, nonce: Seq<u8>, plaintext: Seq<u8>) -> Option<Seq<u8>> {
    if plaintext.len() <= MAX_PLAINTEXT {
        Some(chacha20poly1305_seal(key, nonce, plaintext))
    } else {
        None
    }
}

/// What authenticated decryption gives for a ciphertext: the plaintext, or
/// `None` for one that is too long or whose tag is wrong.
pub open spec fn opened(key: Seq<u8>, nonce: Seq<u8>, ciphertext: Seq<u8>) -> Option<Seq<u8>> {
    if ciphertext.len() <= MAX_PLAINTEXT + TAG_LEN {
        chacha20poly1305_open(key, nonce, ciphertext)
    } else {
        None
    }
}

/// Encrypts and authenticates `plaintext`. What it returns opens to the
/// plaintext again.
pub fn seal(key: &[u8; 32], nonce: &[u8; 12], plaintext: &[u8]) -> (ciphertext: Option<Vec<u8>>)
    ensures
        ciphertext is Some <==> plaintext@.len() <= MAX_PLAINTEXT,
        ciphertext is Some <==> plaintext@.len() <= 0x3f_ffff_ff80,
        ciphertext matches Some(c) ==> sealed(key@, nonce@, plaintext@) == Some(c@) && opened(
            key@,
            nonce@,
            c@,
        ) == Some(plaintext@) && c@.len() == plaintext@.len() + TAG_LEN,
{
    if plaintext.len() as u64 > MAX_PLAINTEXT {
        return None;
    }
    Some(chacha_encrypt(key, nonce, plaintext))
}

/// Checks and decrypts `ciphertext`.
pub fn open(key: &[u8; 32], nonce: &[u8; 12], ciphertext: &[u8]) -> (plaintext: Option<Vec<u8>>)
    ensures
        plaintext is Some <==> opened(key@, nonce@, ciphertext@) is Some,
        plaintext matches Some(p) ==> opened(key@, nonce@, ciphertext@) == Some(p@),
{
    if ciphertext.len() as u64 > MAX_PLAINTEXT + TAG_LEN {
        return None;
    }
    chacha_decrypt(key, nonce, ciphertext)
}

} // verus!
