//! Building and checking records: each expires, bears a signature and the
//! solution to a puzzle over its content.
use vstd::prelude::*;

use crate::bytes;
use crate::clock;
use crate::constants::DHT_RECORD_TTL_SECS;
use crate::crypto::pow;
use crate::crypto::pow::{PowChallenge, PowSolution, DEFAULT_DIFFICULTY_BITS};
use crate::crypto::suite;
use crate::protocol::{DhtRecord, PreKeyBundleRecord, RelayDescriptorRecord};
use crate::types::{RelayId, UserId};
use vstd::utf8;

verus! {

/// Why a record could not be built or is not accepted.
#[derive(Debug, Clone, Copy, PartialEq, Eq, Structural)]
pub enum RecordError {
    /// The bytes are not a record.
    Undecodable,
    /// The record's time is over.
    Expired,
    /// The signature is not its owner's.
    InvalidSignature,
    /// The puzzle's solution is not eight bytes long.
    MalformedNonce,
    /// The puzzle's solution is wrong.
    WorkNotDone,
    /// No solution to the puzzle exists.
    Unsolvable,
    /// The clock is so late that the expiry cannot be written.
    ClockOverflow,
}

/// The key of a user's record in the table.
pub open spec fn user_key(user_id: Seq<char>) -> Seq<u8> {
    suite::sha256(utf8::encode_utf8(user_id))
}

/// The key of a user's prekeys in the table.
pub open spec fn prekey_key(user_id: Seq<char>) -> Seq<u8> {
    suite::sha256(utf8::encode_utf8("prekey:"@) + utf8::encode_utf8(user_id))
}

/// The key of a relay's descriptor in the table.
pub open spec fn relay_key(relay_id: Seq<char>) -> Seq<u8> {
    suite::sha256(utf8::encode_utf8("relay:"@) + utf8::encode_utf8(relay_id))
}

/// The key of a user's record in the table.
pub fn record_key_for_user(user_id: &UserId) -> (key: Vec<u8>)
    ensures
        key@ == user_key(user_id@),
        key@ == suite::sha256(utf8::encode_utf8(user_id@)),
{
    bytes::to_vec(suite::sha256_digest(user_id.as_str().as_bytes()).as_slice())
}

/// The digest of a name behind a prefix.
fn prefixed_key(prefix: &str, name: &String) -> (key: Vec<u8>)
    ensures
        key@ == suite::sha256(utf8::encode_utf8(prefix@) + utf8::encode_utf8(name@)),
{
    let mut data: Vec<u8> = bytes::to_vec(prefix.as_bytes());
    bytes::append(&mut data, name.as_str().as_bytes());
    bytes::to_vec(suite::sha256_digest(data.as_slice()).as_slice())
}

/// The key of a user's prekeys in the table.
pub fn prekey_bundle_key_for_user(user_id: &UserId) -> (key: Vec<u8>)
    ensures
        key@ == prekey_key(user_id@),
        key@ == suite::sha256(utf8::encode_utf8("prekey:"@) + utf8::encode_utf8(user_id@)),
{
    prefixed_key("prekey:", user_id)
}

/// The key of a relay's descriptor in the table.
pub fn relay_descriptor_key_for_relay(relay_id: &RelayId) -> (key: Vec<u8>)
    ensures
        key@ == relay_key(relay_id@),
        key@ == suite::sha256(utf8::encode_utf8("relay:"@) + utf8::encode_utf8(relay_id@)),
{
    prefixed_key("relay:", relay_id)
}

/// A fresh X25519 secret for a prekey or an identity.
pub fn generate_signed_prekey() -> (secret: [u8; 32])
    ensures
        suite::drawn_key(secret@),
{
    suite::draw_key()
}

/// Fresh X25519 secrets for one-time prekeys.
pub fn generate_one_time_prekeys(count: usize) -> (secrets: Vec<[u8; 32]>)
    ensures
        secrets@.len() == count,
        forall|i: int|
            0 <= i < secrets@.len() ==> suite::drawn_key((#[trigger] secrets@[i])@)
                && suite::drawn_key_number(i, secrets@[i]@),
{
    let mut secrets: Vec<[u8; 32]> = Vec::new();
    while secrets.len() < count
        invariant
            secrets@.len() <= count,
            forall|i: int|
                0 <= i < secrets@.len() ==> suite::drawn_key((#[trigger] secrets@[i])@)
                    && suite::drawn_key_number(i, secrets@[i]@),
        decreases count - secrets@.len(),
    {
        secrets.push(suite::draw_key_number(secrets.len()));
    }
    secrets
}

/// Byte strings one after another.
pub open spec fn joined(parts: Seq<Seq<u8>>) -> Seq<u8>
    decreases parts.len(),
{
    if parts.len() == 0 {
        Seq::empty()
    } else {
        joined(parts.drop_last()) + parts.last()
    }
}

/// Byte strings one after another are what flattening them gives.
proof fn joined_is_flat(parts: Seq<Seq<u8>>)
    ensures
        joined(parts) == parts.flatten(),
    decreases parts.len(),
{
    parts.lemma_flatten_and_flatten_alt_are_equivalent();
    joined_is_flat_back(parts);
}

/// Byte strings one after another are what flattening them from the back
/// gives.
proof fn joined_is_flat_back(parts: Seq<Seq<u8>>)
    ensures
        joined(parts) == parts.flatten_alt(),
    decreases parts.len(),
{
    if parts.len() > 0 {
        joined_is_flat_back(parts.drop_last());
    }
}

/// The bytes of texts.
pub open spec fn text_parts(texts: Seq<String>) -> Seq<Seq<u8>> {
    texts.map_values(|t: String| utf8::encode_utf8(t@))
}

/// The bytes of byte vectors.
pub open spec fn byte_parts(parts: Seq<Vec<u8>>) -> Seq<Seq<u8>> {
    parts.map_values(|v: Vec<u8>| v@)
}

/// The signed content of a user's record.
pub open spec fn record_content(r: DhtRecord) -> Seq<u8> {
    utf8::encode_utf8(r.user_id@) + r.public_key@ + joined(text_parts(r.mailbox_candidates@))
        + bytes::le_bytes(r.expires_at_unix as nat, 8)
}

/// The content of a prekey record over which the puzzle is solved.
pub open spec fn prekey_content(r: PreKeyBundleRecord) -> Seq<u8> {
    utf8::encode_utf8(r.user_id@) + r.x3dh_identity_key@ + r.signed_prekey@
        + r.signed_prekey_signature@ + joined(byte_parts(r.one_time_prekeys@)) + bytes::le_bytes(
        r.expires_at_unix as nat,
        8,
    )
}

/// The content of a relay descriptor over which the puzzle is solved.
pub open spec fn relay_content(r: RelayDescriptorRecord) -> Seq<u8> {
    utf8::encode_utf8(r.relay_id@) + r.onion_public_key@ + r.signature@ + bytes::le_bytes(
        r.expires_at_unix as nat,
        8,
    )
}

/// Appends texts one after another.
fn append_texts(buffer: &mut Vec<u8>, texts: &Vec<String>)
    ensures
        final(buffer)@ == old(buffer)@ + joined(text_parts(texts@)),
{
    let ghost start = buffer@;
    let mut i: usize = 0;
    assert(buffer@ =~= start + joined(text_parts(texts@).take(0)));
    while i < texts.len()
        invariant
            i <= texts@.len(),
            buffer@ =~= start + joined(text_parts(texts@).take(i as int)),
        decreases texts@.len() - i,
    {
        bytes::append(buffer, texts[i].as_str().as_bytes());
        proof {
            let parts = text_parts(texts@);
            assert(parts.take(i + 1).drop_last() =~= parts.take(i as int));
            assert(parts.take(i + 1).last() == utf8::encode_utf8(texts@[i as int]@));
        }
        i = i + 1;
    }
    assert(text_parts(texts@).take(i as int) =~= text_parts(texts@));
}

/// Appends byte strings one after another.
fn append_all(buffer: &mut Vec<u8>, parts: &Vec<Vec<u8>>)
    ensures
        final(buffer)@ == old(buffer)@ + joined(byte_parts(parts@)),
{
    let ghost start = buffer@;
    let mut i: usize = 0;
    assert(buffer@ =~= start + joined(byte_parts(parts@).take(0)));
    while i < parts.len()
        invariant
            i <= parts@.len(),
            buffer@ =~= start + joined(byte_parts(parts@).take(i as int)),
        decreases parts@.len() - i,
    {
        bytes::append(buffer, parts[i].as_slice());
        proof {
            let all = byte_parts(parts@);
            assert(all.take(i + 1).drop_last() =~= all.take(i as int));
            assert(all.take(i + 1).last() == parts@[i as int]@);
        }
        i = i + 1;
    }
    assert(byte_parts(parts@).take(i as int) =~= byte_parts(parts@));
}

/// The signed content of a user's record.
pub fn signable_bytes(record: &DhtRecord) -> (buffer: Vec<u8>)
    ensures
        buffer@ == record_content(*record),
        buffer@ == utf8::encode_utf8(record.user_id@) + record.public_key@
            + record.mailbox_candidates@.map_values(
            |t: String| utf8::encode_utf8(t@),
        ).flatten() + bytes::le_bytes(record.expires_at_unix as nat, 8),
{
    proof {
        joined_is_flat(text_parts(record.mailbox_candidates@));
    }
    let mut buffer: Vec<u8> = bytes::to_vec(record.user_id.as_str().as_bytes());
    bytes::append(&mut buffer, record.public_key.as_slice());
    append_texts(&mut buffer, &record.mailbox_candidates);
    bytes::append(&mut buffer, bytes::u64_le(record.expires_at_unix).as_slice());
    buffer
}

/// The content of a prekey record over which the puzzle is solved.
pub fn prekey_signable_bytes(record: &PreKeyBundleRecord) -> (buffer: Vec<u8>)
    ensures
        buffer@ == prekey_content(*record),
        buffer@ == utf8::encode_utf8(record.user_id@) + record.x3dh_identity_key@
            + record.signed_prekey@ + record.signed_prekey_signature@
            + record.one_time_prekeys@.map_values(|v: Vec<u8>| v@).flatten() + bytes::le_bytes(
            record.expires_at_unix as nat,
            8,
        ),
{
    proof {
        joined_is_flat(byte_parts(record.one_time_prekeys@));
    }
    let mut buffer: Vec<u8> = bytes::to_vec(record.user_id.as_str().as_bytes());
    bytes::append(&mut buffer, record.x3dh_identity_key.as_slice());
    bytes::append(&mut buffer, record.signed_prekey.as_slice());
    bytes::append(&mut buffer, record.signed_prekey_signature.as_slice());
    append_all(&mut buffer, &record.one_time_prekeys);
    bytes::append(&mut buffer, bytes::u64_le(record.expires_at_unix).as_slice());
    buffer
}

/// The content of a relay descriptor over which the puzzle is solved.
pub fn relay_signable_bytes(record: &RelayDescriptorRecord) -> (buffer: Vec<u8>)
    ensures
        buffer@ == relay_content(*record),
        buffer@ == utf8::encode_utf8(record.relay_id@) + record.onion_public_key@
            + record.signature@ + bytes::le_bytes(record.expires_at_unix as nat, 8),
{
    let mut buffer: Vec<u8> = bytes::to_vec(record.relay_id.as_str().as_bytes());
    bytes::append(&mut buffer, record.onion_public_key.as_slice());
    bytes::append(&mut buffer, record.signature.as_slice());
    bytes::append(&mut buffer, bytes::u64_le(record.expires_at_unix).as_slice());
    buffer
}

/// Whether a nonce solves the puzzle of some content in a domain.
pub open spec fn work_done(domain: Seq<char>, content: Seq<u8>, nonce: u64) -> bool {
    pow::solves(pow::derived_challenge(domain, content), DEFAULT_DIFFICULTY_BITS, nonce)
}

/// Whether eight bytes hold the smallest nonce that solves the puzzle of some
/// content.
pub open spec fn least_solution(domain: Seq<char>, content: Seq<u8>, pow_nonce: Seq<u8>) -> bool {
    &&& pow_nonce.len() == 8
    &&& work_done(domain, content, bytes::le_value(pow_nonce) as u64)
    &&& forall|n: u64|
        n < bytes::le_value(pow_nonce) ==> !#[trigger] work_done(domain, content, n)
}

/// Whether the bytes of a nonce solve the puzzle of some content: the digest of
/// the content's challenge and the nonce starts with twenty zero bits.
pub open spec fn puzzle_solved(domain: Seq<char>, content: Seq<u8>, nonce: Seq<u8>) -> bool {
    pow::starts_with_zeros(
        suite::sha256(suite::sha256(utf8::encode_utf8(domain) + content) + nonce),
        20,
    )
}

/// A nonce solves the puzzle of some content where its bytes do.
proof fn work_is_a_solved_puzzle(domain: Seq<char>, content: Seq<u8>, nonce: Seq<u8>)
    requires
        nonce.len() == 8,
    ensures
        work_done(domain, content, bytes::le_value(nonce) as u64) <==> puzzle_solved(
            domain,
            content,
            nonce,
        ),
{
    bytes::pow256_values();
    bytes::le_value_bound(nonce);
    bytes::le_value_roundtrip(nonce);
    pow::work_is_a_digest_with_zeros(
        pow::derived_challenge(domain, content),
        DEFAULT_DIFFICULTY_BITS,
        bytes::le_value(nonce) as u64,
    );
}

/// A record is accepted exactly where its time is not over, its signature is
/// valid, and its nonce of eight bytes solves the puzzle of its content; and
/// the first of these that fails is the reason why it is not.
pub proof fn accepted_records_are_fresh_signed_and_worked_for(
    domain: Seq<char>,
    content: Seq<u8>,
    expires_at: u64,
    nonce: Seq<u8>,
    now: u64,
    valid: bool,
)
    ensures
        ({
            let verdict = record_verdict(domain, content, expires_at, nonce, now, valid);
            let fresh = now <= expires_at;
            &&& verdict is Ok <==> fresh && valid && nonce.len() == 8 && puzzle_solved(
                domain,
                content,
                nonce,
            )
            &&& verdict == Err::<(), _>(RecordError::Expired) <==> !fresh
            &&& verdict == Err::<(), _>(RecordError::InvalidSignature) <==> fresh && !valid
            &&& verdict == Err::<(), _>(RecordError::MalformedNonce) <==> fresh && valid
                && nonce.len() != 8
            &&& verdict == Err::<(), _>(RecordError::WorkNotDone) <==> fresh && valid
                && nonce.len() == 8 && !puzzle_solved(domain, content, nonce)
        }),
{
    if nonce.len() == 8 {
        work_is_a_solved_puzzle(domain, content, nonce);
    }
}

/// Whether no nonce solves the puzzle of some content.
pub open spec fn unsolvable(domain: Seq<char>, content: Seq<u8>) -> bool {
    forall|n: u64| !#[trigger] work_done(domain, content, n)
}

/// Whether a record is accepted at the time `now`, given whether its
/// signature is its owner's.
pub open spec fn record_verdict(
    domain: Seq<char>,
    content: Seq<u8>,
    expires_at: u64,
    pow_nonce: Seq<u8>,
    now: u64,
    signature_valid: bool,
) -> Result<(), RecordError> {
    if expires_at < now {
        Err(RecordError::Expired)
    } else if !signature_valid {
        Err(RecordError::InvalidSignature)
    } else if pow_nonce.len() != 8 {
        Err(RecordError::MalformedNonce)
    } else if !work_done(domain, content, bytes::le_value(pow_nonce) as u64) {
        Err(RecordError::WorkNotDone)
    } else {
        Ok(())
    }
}

/// The smallest nonce that solves the puzzle of some content, as bytes.
fn solve_work(domain: &str, content: &[u8]) -> (result: Result<Vec<u8>, RecordError>)
    ensures
        match result {
            Ok(nonce) => least_solution(domain@, content@, nonce@) && puzzle_solved(
                domain@,
                content@,
                nonce@,
            ),
            Err(e) => e == RecordError::Unsolvable && unsolvable(domain@, content@),
        },
{
    let challenge = PowChallenge::derive_from(domain, content, DEFAULT_DIFFICULTY_BITS);
    match challenge.solve() {
        Some(solution) => {
            let nonce = bytes::to_vec(bytes::u64_le(solution.nonce).as_slice());
            proof {
                bytes::pow256_values();
                bytes::le_roundtrip(solution.nonce as nat, 8);
                assert forall|n: u64| n < bytes::le_value(nonce@) implies !#[trigger] work_done(
                    domain@,
                    content@,
                    n,
                ) by {
                    assert(!pow::solves(challenge.challenge@, DEFAULT_DIFFICULTY_BITS, n));
                }
                work_is_a_solved_puzzle(domain@, content@, nonce@);
            }
            Ok(nonce)
        },
        None => {
            assert forall|n: u64| !#[trigger] work_done(domain@, content@, n) by {
                assert(!pow::solves(challenge.challenge@, DEFAULT_DIFFICULTY_BITS, n));
            }
            Err(RecordError::Unsolvable)
        },
    }
}

/// Whether the bytes of a nonce solve the puzzle of some content.
fn check_work(domain: &str, content: &[u8], pow_nonce: &[u8]) -> (result: Result<(), RecordError>)
    ensures
        result == record_verdict(domain@, content@, 0, pow_nonce@, 0, true),
{
    let challenge = PowChallenge::derive_from(domain, content, DEFAULT_DIFFICULTY_BITS);
    if pow_nonce.len() != 8 {
        return Err(RecordError::MalformedNonce);
    }
    let solution = PowSolution { nonce: bytes::read_u64_le(pow_nonce) };
    if !challenge.verify(&solution) {
        return Err(RecordError::WorkNotDone);
    }
    Ok(())
}

/// The expiry of a record that is built at the time `now`.
fn expires_after(now: u64) -> (expires_at: Option<u64>)
    ensures
        match expires_at {
            Some(t) => t == now + DHT_RECORD_TTL_SECS,
            None => now + DHT_RECORD_TTL_SECS > u64::MAX,
        },
{
    now.checked_add(DHT_RECORD_TTL_SECS)
}

/// Whether some call of a signing function gave a signature of `content`.
pub open spec fn signed_by<F: FnOnce(&[u8]) -> Vec<u8>>(
    sign_fn: F,
    content: Seq<u8>,
    signature: Vec<u8>,
) -> bool {
    exists|message: &[u8]|
        message@ == content && #[trigger] call_ensures(sign_fn, (message,), signature)
}

/// Whether some call of a verifying function on `content` and `signature`
/// gave `valid`.
pub open spec fn judged_by<F: FnOnce(&[u8], &[u8]) -> bool>(
    verify_fn: F,
    content: Seq<u8>,
    signature: Seq<u8>,
    valid: bool,
) -> bool {
    exists|message: &[u8], bytes: &[u8]|
        message@ == content && bytes@ == signature && #[trigger] call_ensures(
            verify_fn,
            (message, bytes),
            valid,
        )
}

/// Builds and checks users' records.
pub struct DhtRecordBuilder;

/// The puzzle domain of users' records.
pub open spec fn record_domain() -> Seq<char> {
    "dht_record"@
}

impl DhtRecordBuilder {
    /// How long a record is valid, in seconds.
    pub const DEFAULT_TTL_SECS: u64 = 86400;

    /// A user's record that is built at the time `now`. The signature covers
    /// the whole content.
    pub fn build_at<F: FnOnce(&[u8]) -> Vec<u8>>(
        user_id: &UserId,
        public_key: Vec<u8>,
        mailbox_candidates: Vec<String>,
        sign_fn: F,
        now: u64,
    ) -> (result: Result<DhtRecord, RecordError>)
        requires
            forall|message: &[u8]| call_requires(sign_fn, (message,)),
        ensures
            now + DHT_RECORD_TTL_SECS > u64::MAX ==> result == Err::<DhtRecord, _>(
                RecordError::ClockOverflow,
            ),
            match result {
                Ok(r) => {
                    &&& r.user_id == *user_id
                    &&& r.public_key == public_key
                    &&& r.mailbox_candidates == mailbox_candidates
                    &&& r.expires_at_unix == now + DHT_RECORD_TTL_SECS
                    &&& r.expires_at_unix == now + 86400
                    &&& signed_by(sign_fn, record_content(r), r.signature)
                    &&& least_solution(record_domain(), record_content(r), r.pow_nonce@)
                    &&& puzzle_solved("dht_record"@, record_content(r), r.pow_nonce@)
                },
                Err(e) => {
                    ||| now + DHT_RECORD_TTL_SECS > u64::MAX && e == RecordError::ClockOverflow
                    ||| e == RecordError::Unsolvable && exists|r: DhtRecord|
                        {
                            &&& r.user_id == *user_id
                            &&& r.public_key == public_key
                            &&& r.mailbox_candidates == mailbox_candidates
                            &&& r.expires_at_unix == now + DHT_RECORD_TTL_SECS
                            &&& unsolvable(record_domain(), #[trigger] record_content(r))
                        }
                },
            },
    {
        let expires_at_unix: u64 = match expires_after(now) {
            Some(t) => t,
            None => {
                return Err(RecordError::ClockOverflow);
            },
        };
        let mut record = DhtRecord {
            user_id: user_id.clone(),
            public_key,
            mailbox_candidates,
            expires_at_unix,
            signature: Vec::new(),
            pow_nonce: Vec::new(),
        };
        let to_sign: Vec<u8> = signable_bytes(&record);
        let message: &[u8] = to_sign.as_slice();
        record.signature = sign_fn(message);
        assert(call_ensures(sign_fn, (message,), record.signature));
        match solve_work("dht_record", to_sign.as_slice()) {
            Ok(nonce) => {
                record.pow_nonce = nonce;
                Ok(record)
            },
            Err(e) => Err(e),
        }
    }

    /// A user's record that is built now.
    pub fn build<F: FnOnce(&[u8]) -> Vec<u8>>(
        user_id: &UserId,
        public_key: Vec<u8>,
        mailbox_candidates: Vec<String>,
        sign_fn: F,
    ) -> (result: Result<DhtRecord, RecordError>)
        requires
            forall|message: &[u8]| call_requires(sign_fn, (message,)),
        ensures
            match result {
                Ok(r) => {
                    &&& r.user_id == *user_id
                    &&& r.public_key == public_key
                    &&& r.mailbox_candidates == mailbox_candidates
                    &&& r.expires_at_unix >= DHT_RECORD_TTL_SECS
                    &&& clock::told((r.expires_at_unix - DHT_RECORD_TTL_SECS) as u64)
                    &&& signed_by(sign_fn, record_content(r), r.signature)
                    &&& least_solution(record_domain(), record_content(r), r.pow_nonce@)
                    &&& puzzle_solved("dht_record"@, record_content(r), r.pow_nonce@)
                },
                Err(e) => {
                    ||| e == RecordError::ClockOverflow
                    ||| e == RecordError::Unsolvable && exists|r: DhtRecord|
                        {
                            &&& r.user_id == *user_id
                            &&& r.public_key == public_key
                            &&& r.mailbox_candidates == mailbox_candidates
                            &&& r.expires_at_unix >= DHT_RECORD_TTL_SECS
                            &&& clock::told((r.expires_at_unix - DHT_RECORD_TTL_SECS) as u64)
                            &&& unsolvable(record_domain(), #[trigger] record_content(r))
                        }
                },
            },
    {
        Self::build_at(user_id, public_key, mailbox_candidates, sign_fn, clock::now_unix())
    }

    /// Whether a user's record is accepted at the time `now`, given whether
    /// its signature is its owner's.
    pub fn verify_at(record: &DhtRecord, now: u64, signature_valid: bool) -> (result: Result<
        (),
        RecordError,
    >)
        ensures
            result == record_verdict(
                record_domain(),
                record_content(*record),
                record.expires_at_unix,
                record.pow_nonce@,
                now,
                signature_valid,
            ),            result is Ok <==> now <= record.expires_at_unix && signature_valid
                && record.pow_nonce@.len() == 8 && puzzle_solved(
                "dht_record"@,
                record_content(*record),
                record.pow_nonce@,
            ),
            result == Err::<(), _>(RecordError::Expired) <==> now > record.expires_at_unix,
    {
        proof {
            accepted_records_are_fresh_signed_and_worked_for(
                record_domain(),
                record_content(*record),
                record.expires_at_unix,
                record.pow_nonce@,
                now,
                signature_valid,
            );
        }
        if record.expires_at_unix < now {
            return Err(RecordError::Expired);
        }
        if !signature_valid {
            return Err(RecordError::InvalidSignature);
        }
        check_work("dht_record", signable_bytes(record).as_slice(), record.pow_nonce.as_slice())
    }

    /// Whether a user's record is accepted now: it has not expired, its
    /// signature is its owner's, and the work is done.
    pub fn verify<F: FnOnce(&[u8], &[u8]) -> bool>(record: &DhtRecord, verify_fn: F) -> (result:
        Result<(), RecordError>)
        requires
            forall|message: &[u8], signature: &[u8]| call_requires(verify_fn, (message, signature)),
        ensures
            exists|now: u64, valid: bool|
                {
                    &&& clock::told(now)
                    &&& result == #[trigger] record_verdict(
                        record_domain(),
                        record_content(*record),
                        record.expires_at_unix,
                        record.pow_nonce@,
                        now,
                        valid,
                    )
                    &&& record.expires_at_unix >= now ==> judged_by(
                        verify_fn,
                        record_content(*record),
                        record.signature@,
                        valid,
                    )
                },            result is Ok ==> record.pow_nonce@.len() == 8 && puzzle_solved(
                "dht_record"@,
                record_content(*record),
                record.pow_nonce@,
            ) && judged_by(verify_fn, record_content(*record), record.signature@, true) && exists|
                now: u64,
            | #[trigger] clock::told(now) && now <= record.expires_at_unix,
            result == Err::<(), _>(RecordError::Expired) ==> exists|now: u64| #[trigger]
                clock::told(now) && now > record.expires_at_unix,
    {
        let now: u64 = clock::now_unix();
        if record.expires_at_unix < now {
            let result = Self::verify_at(record, now, false);
            assert(result == record_verdict(
                record_domain(),
                record_content(*record),
                record.expires_at_unix,
                record.pow_nonce@,
                now,
                false,
            ));
            return result;
        }
        let content: Vec<u8> = signable_bytes(record);
        let message: &[u8] = content.as_slice();
        let signature: &[u8] = record.signature.as_slice();
        let valid: bool = verify_fn(message, signature);
        assert(call_ensures(verify_fn, (message, signature), valid));
        let result = Self::verify_at(record, now, valid);
        assert(result == record_verdict(
            record_domain(),
            record_content(*record),
            record.expires_at_unix,
            record.pow_nonce@,
            now,
            valid,
        ));
        result
    }
}

/// Builds and checks users' prekey records. The signature covers only the
/// signed prekey, so that it can be checked with a bundle alone; the puzzle
/// covers the whole content.
pub struct PreKeyBundleRecordBuilder;

/// The puzzle domain of prekey records.
pub open spec fn prekey_domain() -> Seq<char> {
    "prekey_bundle"@
}

/// Byte vectors with the bytes of keys.
pub open spec fn key_bytes(keys: Seq<[u8; 32]>) -> Seq<Seq<u8>> {
    keys.map_values(|k: [u8; 32]| k@)
}

impl PreKeyBundleRecordBuilder {
    /// How long a record is valid, in seconds.
    pub const DEFAULT_TTL_SECS: u64 = 86400;

    /// A prekey record that is built at the time `now`.
    pub fn build_at<F: FnOnce(&[u8]) -> Vec<u8>>(
        user_id: &UserId,
        x3dh_identity_public: &[u8; 32],
        signed_prekey_public: &[u8; 32],
        one_time_prekey_publics: &Vec<[u8; 32]>,
        sign_fn: F,
        now: u64,
    ) -> (result: Result<PreKeyBundleRecord, RecordError>)
        requires
            forall|message: &[u8]| call_requires(sign_fn, (message,)),
        ensures
            now + DHT_RECORD_TTL_SECS > u64::MAX ==> result == Err::<PreKeyBundleRecord, _>(
                RecordError::ClockOverflow,
            ),
            match result {
                Ok(r) => {
                    &&& r.user_id == *user_id
                    &&& r.x3dh_identity_key@ == x3dh_identity_public@
                    &&& r.signed_prekey@ == signed_prekey_public@
                    &&& byte_parts(r.one_time_prekeys@) == key_bytes(one_time_prekey_publics@)
                    &&& r.expires_at_unix == now + DHT_RECORD_TTL_SECS
                    &&& r.expires_at_unix == now + 86400
                    &&& signed_by(sign_fn, signed_prekey_public@, r.signed_prekey_signature)
                    &&& least_solution(prekey_domain(), prekey_content(r), r.pow_nonce@)
                    &&& puzzle_solved("prekey_bundle"@, prekey_content(r), r.pow_nonce@)
                },
                Err(e) => {
                    ||| now + DHT_RECORD_TTL_SECS > u64::MAX && e == RecordError::ClockOverflow
                    ||| e == RecordError::Unsolvable && exists|r: PreKeyBundleRecord|
                        {
                            &&& r.user_id == *user_id
                            &&& r.x3dh_identity_key@ == x3dh_identity_public@
                            &&& r.signed_prekey@ == signed_prekey_public@
                            &&& byte_parts(r.one_time_prekeys@) == key_bytes(one_time_prekey_publics@)
                            &&& r.expires_at_unix == now + DHT_RECORD_TTL_SECS
                            &&& signed_by(sign_fn, signed_prekey_public@, r.signed_prekey_signature)
                            &&& unsolvable(prekey_domain(), #[trigger] prekey_content(r))
                        }
                },
            },
    {
        let expires_at_unix: u64 = match expires_after(now) {
            Some(t) => t,
            None => {
                return Err(RecordError::ClockOverflow);
            },
        };
        let mut one_time_prekeys: Vec<Vec<u8>> = Vec::new();
        let mut i: usize = 0;
        while i < one_time_prekey_publics.len()
            invariant
                i <= one_time_prekey_publics@.len(),
                one_time_prekeys@.len() == i,
                forall|j: int|
                    0 <= j < i ==> (#[trigger] one_time_prekeys@[j])@
                        == one_time_prekey_publics@[j]@,
            decreases one_time_prekey_publics@.len() - i,
        {
            one_time_prekeys.push(bytes::to_vec(one_time_prekey_publics[i].as_slice()));
            i = i + 1;
        }
        assert(byte_parts(one_time_prekeys@) =~= key_bytes(one_time_prekey_publics@));
        let message: &[u8] = signed_prekey_public.as_slice();
        let signature: Vec<u8> = sign_fn(message);
        assert(call_ensures(sign_fn, (message,), signature));
        let mut record = PreKeyBundleRecord {
            user_id: user_id.clone(),
            x3dh_identity_key: bytes::to_vec(x3dh_identity_public.as_slice()),
            signed_prekey: bytes::to_vec(signed_prekey_public.as_slice()),
            signed_prekey_signature: signature,
            one_time_prekeys,
            expires_at_unix,
            pow_nonce: Vec::new(),
        };
        let content: Vec<u8> = prekey_signable_bytes(&record);
        match solve_work("prekey_bundle", content.as_slice()) {
            Ok(nonce) => {
                record.pow_nonce = nonce;
                Ok(record)
            },
            Err(e) => Err(e),
        }
    }

    /// A prekey record that is built now.
    pub fn build<F: FnOnce(&[u8]) -> Vec<u8>>(
        user_id: &UserId,
        x3dh_identity_public: &[u8; 32],
        signed_prekey_public: &[u8; 32],
        one_time_prekey_publics: &Vec<[u8; 32]>,
        sign_fn: F,
    ) -> (result: Result<PreKeyBundleRecord, RecordError>)
        requires
            forall|message: &[u8]| call_requires(sign_fn, (message,)),
        ensures
            match result {
                Ok(r) => {
                    &&& r.user_id == *user_id
                    &&& r.x3dh_identity_key@ == x3dh_identity_public@
                    &&& r.signed_prekey@ == signed_prekey_public@
                    &&& byte_parts(r.one_time_prekeys@) == key_bytes(one_time_prekey_publics@)
                    &&& r.expires_at_unix >= DHT_RECORD_TTL_SECS
                    &&& clock::told((r.expires_at_unix - DHT_RECORD_TTL_SECS) as u64)
                    &&& signed_by(sign_fn, signed_prekey_public@, r.signed_prekey_signature)
                    &&& least_solution(prekey_domain(), prekey_content(r), r.pow_nonce@)
                    &&& puzzle_solved("prekey_bundle"@, prekey_content(r), r.pow_nonce@)
                },
                Err(e) => {
                    ||| e == RecordError::ClockOverflow
                    ||| e == RecordError::Unsolvable && exists|r: PreKeyBundleRecord|
                        {
                            &&& r.user_id == *user_id
                            &&& r.x3dh_identity_key@ == x3dh_identity_public@
                            &&& r.signed_prekey@ == signed_prekey_public@
                            &&& byte_parts(r.one_time_prekeys@) == key_bytes(one_time_prekey_publics@)
                            &&& r.expires_at_unix >= DHT_RECORD_TTL_SECS
                            &&& clock::told((r.expires_at_unix - DHT_RECORD_TTL_SECS) as u64)
                            &&& signed_by(sign_fn, signed_prekey_public@, r.signed_prekey_signature)
                            &&& unsolvable(prekey_domain(), #[trigger] prekey_content(r))
                        }
                },
            },
    {
        Self::build_at(
            user_id,
            x3dh_identity_public,
            signed_prekey_public,
            one_time_prekey_publics,
            sign_fn,
            clock::now_unix(),
        )
    }

    /// Whether a prekey record is accepted at the time `now`, given whether
    /// its signature is its owner's.
    pub fn verify_at(record: &PreKeyBundleRecord, now: u64, signature_valid: bool) -> (result:
        Result<(), RecordError>)
        ensures
            result == record_verdict(
                prekey_domain(),
                prekey_content(*record),
                record.expires_at_unix,
                record.pow_nonce@,
                now,
                signature_valid,
            ),            result is Ok <==> now <= record.expires_at_unix && signature_valid
                && record.pow_nonce@.len() == 8 && puzzle_solved(
                "prekey_bundle"@,
                prekey_content(*record),
                record.pow_nonce@,
            ),
            result == Err::<(), _>(RecordError::Expired) <==> now > record.expires_at_unix,
    {
        proof {
            accepted_records_are_fresh_signed_and_worked_for(
                prekey_domain(),
                prekey_content(*record),
                record.expires_at_unix,
                record.pow_nonce@,
                now,
                signature_valid,
            );
        }
        if record.expires_at_unix < now {
            return Err(RecordError::Expired);
        }
        if !signature_valid {
            return Err(RecordError::InvalidSignature);
        }
        check_work(
            "prekey_bundle",
            prekey_signable_bytes(record).as_slice(),
            record.pow_nonce.as_slice(),
        )
    }

    /// Whether a prekey record is accepted now.
    pub fn verify<F: FnOnce(&[u8], &[u8]) -> bool>(record: &PreKeyBundleRecord, verify_fn: F) -> (
        result: Result<(), RecordError>)
        requires
            forall|message: &[u8], signature: &[u8]| call_requires(verify_fn, (message, signature)),
        ensures
            exists|now: u64, valid: bool|
                {
                    &&& clock::told(now)
                    &&& result == #[trigger] record_verdict(
                        prekey_domain(),
                        prekey_content(*record),
                        record.expires_at_unix,
                        record.pow_nonce@,
                        now,
                        valid,
                    )
                    &&& record.expires_at_unix >= now ==> judged_by(
                        verify_fn,
                        record.signed_prekey@,
                        record.signed_prekey_signature@,
                        valid,
                    )
                },            result is Ok ==> record.pow_nonce@.len() == 8 && puzzle_solved(
                "prekey_bundle"@,
                prekey_content(*record),
                record.pow_nonce@,
            ) && judged_by(verify_fn, record.signed_prekey@, record.signed_prekey_signature@, true) && exists|
                now: u64,
            | #[trigger] clock::told(now) && now <= record.expires_at_unix,
            result == Err::<(), _>(RecordError::Expired) ==> exists|now: u64| #[trigger]
                clock::told(now) && now > record.expires_at_unix,
    {
        let now: u64 = clock::now_unix();
        if record.expires_at_unix < now {
            let result = Self::verify_at(record, now, false);
            assert(result == record_verdict(
                prekey_domain(),
                prekey_content(*record),
                record.expires_at_unix,
                record.pow_nonce@,
                now,
                false,
            ));
            return result;
        }
        let message: &[u8] = record.signed_prekey.as_slice();
        let signature: &[u8] = record.signed_prekey_signature.as_slice();
        let valid: bool = verify_fn(message, signature);
        assert(call_ensures(verify_fn, (message, signature), valid));
        let result = Self::verify_at(record, now, valid);
        assert(result == record_verdict(
            prekey_domain(),
            prekey_content(*record),
            record.expires_at_unix,
            record.pow_nonce@,
            now,
            valid,
        ));
        result
    }
}

/// Builds and checks relay descriptors. The signature covers only the onion
/// key; the puzzle covers the whole content.
pub struct RelayDescriptorRecordBuilder;

/// The puzzle domain of relay descriptors.
pub open spec fn relay_domain() -> Seq<char> {
    "relay_descriptor"@
}

impl RelayDescriptorRecordBuilder {
    /// How long a record is valid, in seconds.
    pub const DEFAULT_TTL_SECS: u64 = 86400;

    /// A relay descriptor that is built at the time `now`.
    pub fn build_at<F: FnOnce(&[u8]) -> Vec<u8>>(
        relay_id: &RelayId,
        onion_public_key: &[u8; 32],
        sign_fn: F,
        now: u64,
    ) -> (result: Result<RelayDescriptorRecord, RecordError>)
        requires
            forall|message: &[u8]| call_requires(sign_fn, (message,)),
        ensures
            now + DHT_RECORD_TTL_SECS > u64::MAX ==> result == Err::<RelayDescriptorRecord, _>(
                RecordError::ClockOverflow,
            ),
            match result {
                Ok(r) => {
                    &&& r.relay_id == *relay_id
                    &&& r.onion_public_key@ == onion_public_key@
                    &&& r.expires_at_unix == now + DHT_RECORD_TTL_SECS
                    &&& r.expires_at_unix == now + 86400
                    &&& signed_by(sign_fn, onion_public_key@, r.signature)
                    &&& least_solution(relay_domain(), relay_content(r), r.pow_nonce@)
                    &&& puzzle_solved("relay_descriptor"@, relay_content(r), r.pow_nonce@)
                },
                Err(e) => {
                    ||| now + DHT_RECORD_TTL_SECS > u64::MAX && e == RecordError::ClockOverflow
                    ||| e == RecordError::Unsolvable && exists|r: RelayDescriptorRecord|
                        {
                            &&& r.relay_id == *relay_id
                            &&& r.onion_public_key@ == onion_public_key@
                            &&& r.expires_at_unix == now + DHT_RECORD_TTL_SECS
                            &&& signed_by(sign_fn, onion_public_key@, r.signature)
                            &&& unsolvable(relay_domain(), #[trigger] relay_content(r))
                        }
                },
            },
    {
        let expires_at_unix: u64 = match expires_after(now) {
            Some(t) => t,
            None => {
                return Err(RecordError::ClockOverflow);
            },
        };
        let message: &[u8] = onion_public_key.as_slice();
        let signature: Vec<u8> = sign_fn(message);
        assert(call_ensures(sign_fn, (message,), signature));
        let mut record = RelayDescriptorRecord {
            relay_id: relay_id.clone(),
            onion_public_key: bytes::to_vec(onion_public_key.as_slice()),
            expires_at_unix,
            signature,
            pow_nonce: Vec::new(),
        };
        let content: Vec<u8> = relay_signable_bytes(&record);
        match solve_work("relay_descriptor", content.as_slice()) {
            Ok(nonce) => {
                record.pow_nonce = nonce;
                Ok(record)
            },
            Err(e) => Err(e),
        }
    }

    /// A relay descriptor that is built now.
    pub fn build<F: FnOnce(&[u8]) -> Vec<u8>>(
        relay_id: &RelayId,
        onion_public_key: &[u8; 32],
        sign_fn: F,
    ) -> (result: Result<RelayDescriptorRecord, RecordError>)
        requires
            forall|message: &[u8]| call_requires(sign_fn, (message,)),
        ensures
            match result {
                Ok(r) => {
                    &&& r.relay_id == *relay_id
                    &&& r.onion_public_key@ == onion_public_key@
                    &&& r.expires_at_unix >= DHT_RECORD_TTL_SECS
                    &&& clock::told((r.expires_at_unix - DHT_RECORD_TTL_SECS) as u64)
                    &&& signed_by(sign_fn, onion_public_key@, r.signature)
                    &&& least_solution(relay_domain(), relay_content(r), r.pow_nonce@)
                    &&& puzzle_solved("relay_descriptor"@, relay_content(r), r.pow_nonce@)
                },
                Err(e) => {
                    ||| e == RecordError::ClockOverflow
                    ||| e == RecordError::Unsolvable && exists|r: RelayDescriptorRecord|
                        {
                            &&& r.relay_id == *relay_id
                            &&& r.onion_public_key@ == onion_public_key@
                            &&& r.expires_at_unix >= DHT_RECORD_TTL_SECS
                            &&& clock::told((r.expires_at_unix - DHT_RECORD_TTL_SECS) as u64)
                            &&& signed_by(sign_fn, onion_public_key@, r.signature)
                            &&& unsolvable(relay_domain(), #[trigger] relay_content(r))
                        }
                },
            },
    {
        Self::build_at(relay_id, onion_public_key, sign_fn, clock::now_unix())
    }

    /// Whether a relay descriptor is accepted at the time `now`, given
    /// whether its signature is its owner's.
    pub fn verify_at(record: &RelayDescriptorRecord, now: u64, signature_valid: bool) -> (result:
        Result<(), RecordError>)
        ensures
            result == record_verdict(
                relay_domain(),
                relay_content(*record),
                record.expires_at_unix,
                record.pow_nonce@,
                now,
                signature_valid,
            ),            result is Ok <==> now <= record.expires_at_unix && signature_valid
                && record.pow_nonce@.len() == 8 && puzzle_solved(
                "relay_descriptor"@,
                relay_content(*record),
                record.pow_nonce@,
            ),
            result == Err::<(), _>(RecordError::Expired) <==> now > record.expires_at_unix,
    {
        proof {
            accepted_records_are_fresh_signed_and_worked_for(
                relay_domain(),
                relay_content(*record),
                record.expires_at_unix,
                record.pow_nonce@,
                now,
                signature_valid,
            );
        }
        if record.expires_at_unix < now {
            return Err(RecordError::Expired);
        }
        if !signature_valid {
            return Err(RecordError::InvalidSignature);
        }
        check_work(
            "relay_descriptor",
            relay_signable_bytes(record).as_slice(),
            record.pow_nonce.as_slice(),
        )
    }

    /// Whether a relay descriptor is accepted now.
    pub fn verify<F: FnOnce(&[u8], &[u8]) -> bool>(
        record: &RelayDescriptorRecord,
        verify_fn: F,
    ) -> (result: Result<(), RecordError>)
        requires
            forall|message: &[u8], signature: &[u8]| call_requires(verify_fn, (message, signature)),
        ensures
            exists|now: u64, valid: bool|
                {
                    &&& clock::told(now)
                    &&& result == #[trigger] record_verdict(
                        relay_domain(),
                        relay_content(*record),
                        record.expires_at_unix,
                        record.pow_nonce@,
                        now,
                        valid,
                    )
                    &&& record.expires_at_unix >= now ==> judged_by(
                        verify_fn,
                        record.onion_public_key@,
                        record.signature@,
                        valid,
                    )
                },            result is Ok ==> record.pow_nonce@.len() == 8 && puzzle_solved(
                "relay_descriptor"@,
                relay_content(*record),
                record.pow_nonce@,
            ) && judged_by(verify_fn, record.onion_public_key@, record.signature@, true) && exists|
                now: u64,
            | #[trigger] clock::told(now) && now <= record.expires_at_unix,
            result == Err::<(), _>(RecordError::Expired) ==> exists|now: u64| #[trigger]
                clock::told(now) && now > record.expires_at_unix,
    {
        let now: u64 = clock::now_unix();
        if record.expires_at_unix < now {
            let result = Self::verify_at(record, now, false);
            assert(result == record_verdict(
                relay_domain(),
                relay_content(*record),
                record.expires_at_unix,
                record.pow_nonce@,
                now,
                false,
            ));
            return result;
        }
        let message: &[u8] = record.onion_public_key.as_slice();
        let signature: &[u8] = record.signature.as_slice();
        let valid: bool = verify_fn(message, signature);
        assert(call_ensures(verify_fn, (message, signature), valid));
        let result = Self::verify_at(record, now, valid);
        assert(result == record_verdict(
            relay_domain(),
            relay_content(*record),
            record.expires_at_unix,
            record.pow_nonce@,
            now,
            valid,
        ));
        result
    }
}

/// A record that was built is accepted until it expires, by whoever finds
/// its signature valid; after its expiry nobody accepts it.
pub proof fn built_records_are_accepted(
    domain: Seq<char>,
    content: Seq<u8>,
    pow_nonce: Seq<u8>,
    built: u64,
    expires_at: u64,
    now: u64,
)
    requires
        expires_at == built + DHT_RECORD_TTL_SECS,
        least_solution(domain, content, pow_nonce),
    ensures
        now <= built + DHT_RECORD_TTL_SECS ==> record_verdict(
            domain,
            content,
            expires_at,
            pow_nonce,
            now,
            true,
        ) is Ok,
        now > built + DHT_RECORD_TTL_SECS ==> record_verdict(
            domain,
            content,
            expires_at,
            pow_nonce,
            now,
            true,
        ) == Err::<(), RecordError>(RecordError::Expired),
{
}

/// The puzzles of the three types of records over one content differ, unless
/// SHA-256 gives one digest for two different inputs.
pub proof fn record_types_have_their_own_puzzles(seed: Seq<u8>)
    ensures
        pow::derived_challenge(record_domain(), seed) != pow::derived_challenge(
            prekey_domain(),
            seed,
        ) || suite::collides(
            utf8::encode_utf8(record_domain()) + seed,
            utf8::encode_utf8(prekey_domain()) + seed,
        ),
        pow::derived_challenge(record_domain(), seed) != pow::derived_challenge(
            relay_domain(),
            seed,
        ) || suite::collides(
            utf8::encode_utf8(record_domain()) + seed,
            utf8::encode_utf8(relay_domain()) + seed,
        ),
        pow::derived_challenge(prekey_domain(), seed) != pow::derived_challenge(
            relay_domain(),
            seed,
        ) || suite::collides(
            utf8::encode_utf8(prekey_domain()) + seed,
            utf8::encode_utf8(relay_domain()) + seed,
        ),
{
    reveal_strlit("dht_record");
    reveal_strlit("prekey_bundle");
    reveal_strlit("relay_descriptor");
    assert(record_domain().len() == 10 && prekey_domain().len() == 13 && relay_domain().len()
        == 16);
    pow::domains_have_their_own_challenges(record_domain(), prekey_domain(), seed);
    pow::domains_have_their_own_challenges(record_domain(), relay_domain(), seed);
    pow::domains_have_their_own_challenges(prekey_domain(), relay_domain(), seed);
}

/// A name has three places of its own in the table: for a user's record, for
/// the user's prekeys and for a relay's descriptor, unless SHA-256 gives one
/// digest for two different inputs.
pub proof fn names_have_three_places(name: Seq<char>)
    ensures
        user_key(name) != prekey_key(name) || suite::collides(
            utf8::encode_utf8(name),
            utf8::encode_utf8("prekey:"@) + utf8::encode_utf8(name),
        ),
        user_key(name) != relay_key(name) || suite::collides(
            utf8::encode_utf8(name),
            utf8::encode_utf8("relay:"@) + utf8::encode_utf8(name),
        ),
        prekey_key(name) != relay_key(name) || suite::collides(
            utf8::encode_utf8("prekey:"@) + utf8::encode_utf8(name),
            utf8::encode_utf8("relay:"@) + utf8::encode_utf8(name),
        ),
{
    reveal_strlit("prekey:");
    reveal_strlit("relay:");
    utf8::is_ascii_chars_encode_utf8("prekey:"@);
    utf8::is_ascii_chars_encode_utf8("relay:"@);
    let plain = utf8::encode_utf8(name);
    let prekey = utf8::encode_utf8("prekey:"@) + plain;
    let relay = utf8::encode_utf8("relay:"@) + plain;
    assert(prekey.len() == plain.len() + 7);
    assert(relay.len() == plain.len() + 6);
}

/// A user's signature covers the whole record: two records of one user, with
/// keys of one length, have the same signed content only where their keys, the
/// texts of their mailbox relays and their times of expiry are the same.
pub proof fn signatures_cover_the_record(first: DhtRecord, second: DhtRecord)
    requires
        first.user_id@ == second.user_id@,
        first.public_key@.len() == second.public_key@.len(),
        record_content(first) == record_content(second),
    ensures
        first.public_key@ == second.public_key@,
        text_parts(first.mailbox_candidates@).flatten() == text_parts(
            second.mailbox_candidates@,
        ).flatten(),
        first.expires_at_unix == second.expires_at_unix,
{
    let a = record_content(first);
    let b = record_content(second);
    joined_is_flat(text_parts(first.mailbox_candidates@));
    joined_is_flat(text_parts(second.mailbox_candidates@));
    times_are_read_back(first.expires_at_unix);
    times_are_read_back(second.expires_at_unix);
    let name = utf8::encode_utf8(first.user_id@).len() as int;
    let key = first.public_key@.len() as int;
    assert(first.public_key@ =~= a.subrange(name, name + key));
    assert(second.public_key@ =~= b.subrange(name, name + key));
    let end = a.len() - 8;
    assert(joined(text_parts(first.mailbox_candidates@)) =~= a.subrange(name + key, end));
    assert(joined(text_parts(second.mailbox_candidates@)) =~= b.subrange(name + key, end));
    assert(bytes::le_bytes(first.expires_at_unix as nat, 8) =~= a.skip(end));
    assert(bytes::le_bytes(second.expires_at_unix as nat, 8) =~= b.skip(end));
}

/// A time is read back from its bytes.
proof fn times_are_read_back(time: u64)
    ensures
        bytes::le_value(bytes::le_bytes(time as nat, 8)) == time,
        bytes::le_bytes(time as nat, 8).len() == 8,
{
    bytes::pow256_values();
    bytes::le_roundtrip(time as nat, 8);
}

/// The puzzle of a prekey record covers the whole record: two records of one
/// user, with fields of the same lengths, have the same content only where all
/// their keys, their signatures and their times of expiry are the same.
pub proof fn puzzles_cover_the_prekeys(first: PreKeyBundleRecord, second: PreKeyBundleRecord)
    requires
        first.user_id@ == second.user_id@,
        first.x3dh_identity_key@.len() == second.x3dh_identity_key@.len(),
        first.signed_prekey@.len() == second.signed_prekey@.len(),
        first.signed_prekey_signature@.len() == second.signed_prekey_signature@.len(),
        prekey_content(first) == prekey_content(second),
    ensures
        first.x3dh_identity_key@ == second.x3dh_identity_key@,
        first.signed_prekey@ == second.signed_prekey@,
        first.signed_prekey_signature@ == second.signed_prekey_signature@,
        byte_parts(first.one_time_prekeys@).flatten() == byte_parts(
            second.one_time_prekeys@,
        ).flatten(),
        first.expires_at_unix == second.expires_at_unix,
{
    let a = prekey_content(first);
    let b = prekey_content(second);
    joined_is_flat(byte_parts(first.one_time_prekeys@));
    joined_is_flat(byte_parts(second.one_time_prekeys@));
    times_are_read_back(first.expires_at_unix);
    times_are_read_back(second.expires_at_unix);
    let n0 = utf8::encode_utf8(first.user_id@).len() as int;
    let n1 = n0 + first.x3dh_identity_key@.len();
    let n2 = n1 + first.signed_prekey@.len();
    let n3 = n2 + first.signed_prekey_signature@.len();
    let end = a.len() - 8;
    assert(first.x3dh_identity_key@ =~= a.subrange(n0, n1));
    assert(second.x3dh_identity_key@ =~= b.subrange(n0, n1));
    assert(first.signed_prekey@ =~= a.subrange(n1, n2));
    assert(second.signed_prekey@ =~= b.subrange(n1, n2));
    assert(first.signed_prekey_signature@ =~= a.subrange(n2, n3));
    assert(second.signed_prekey_signature@ =~= b.subrange(n2, n3));
    assert(joined(byte_parts(first.one_time_prekeys@)) =~= a.subrange(n3, end));
    assert(joined(byte_parts(second.one_time_prekeys@)) =~= b.subrange(n3, end));
    assert(bytes::le_bytes(first.expires_at_unix as nat, 8) =~= a.skip(end));
    assert(bytes::le_bytes(second.expires_at_unix as nat, 8) =~= b.skip(end));
}

/// The puzzle of a relay descriptor covers the whole descriptor: two
/// descriptors of one relay, with fields of the same lengths, have the same
/// content only where their keys, their signatures and their times of expiry
/// are the same.
pub proof fn puzzles_cover_the_descriptor(
    first: RelayDescriptorRecord,
    second: RelayDescriptorRecord,
)
    requires
        first.relay_id@ == second.relay_id@,
        first.onion_public_key@.len() == second.onion_public_key@.len(),
        relay_content(first) == relay_content(second),
    ensures
        first.onion_public_key@ == second.onion_public_key@,
        first.signature@ == second.signature@,
        first.expires_at_unix == second.expires_at_unix,
{
    let a = relay_content(first);
    let b = relay_content(second);
    times_are_read_back(first.expires_at_unix);
    times_are_read_back(second.expires_at_unix);
    let n0 = utf8::encode_utf8(first.relay_id@).len() as int;
    let n1 = n0 + first.onion_public_key@.len();
    let end = a.len() - 8;
    assert(first.onion_public_key@ =~= a.subrange(n0, n1));
    assert(second.onion_public_key@ =~= b.subrange(n0, n1));
    assert(first.signature@ =~= a.subrange(n1, end));
    assert(second.signature@ =~= b.subrange(n1, end));
    assert(bytes::le_bytes(first.expires_at_unix as nat, 8) =~= a.skip(end));
    assert(bytes::le_bytes(second.expires_at_unix as nat, 8) =~= b.skip(end));
}

} // verus!
