//! Proof of work: a nonce whose hash together with a challenge starts with a
//! given number of zero bits.
use vstd::prelude::*;

use crate::bytes;
use crate::crypto::suite;
use vstd::utf8;

verus! {

/// The difficulty in bits that published records carry.
pub const DEFAULT_DIFFICULTY_BITS: u32 = 20;

/// A challenge and the number of zero bits that a solution must reach.
pub struct PowChallenge {
    pub challenge: [u8; 32],
    pub difficulty_bits: u32,
}

/// A nonce that solves a challenge.
#[derive(Clone, Copy)]
pub struct PowSolution {
    pub nonce: u64,
}

/// The zero bits at the top of a byte: how often it doubles before its top
/// bit is set.
pub open spec fn byte_zero_bits(byte: u8) -> nat
    decreases 256 - byte,
{
    if byte == 0 {
        8
    } else if byte >= 128 {
        0
    } else {
        1 + byte_zero_bits((2 * byte) as u8)
    }
}

/// The zero bits at the start of `hash`, most significant bit first.
pub open spec fn zero_bits(hash: Seq<u8>) -> nat
    decreases hash.len(),
{
    if hash.len() == 0 {
        0
    } else if hash[0] == 0 {
        8 + zero_bits(hash.skip(1))
    } else {
        byte_zero_bits(hash[0])
    }
}

/// Whether `nonce` solves the challenge at the given difficulty.
pub open spec fn solves(challenge: Seq<u8>, difficulty_bits: u32, nonce: u64) -> bool {
    zero_bits(suite::sha256(challenge + bytes::le_bytes(nonce as nat, 8))) >= difficulty_bits
}

/// What a byte is below when its first `bits` bits are zero, for less than
/// eight of them.
pub open spec fn byte_bound(bits: nat) -> nat {
    if bits == 0 {
        256
    } else if bits == 1 {
        128
    } else if bits == 2 {
        64
    } else if bits == 3 {
        32
    } else if bits == 4 {
        16
    } else if bits == 5 {
        8
    } else if bits == 6 {
        4
    } else {
        2
    }
}

/// Whether the first `bits` bits of some bytes are zero: all bytes that they
/// cover, and the top of the byte that they cover in part.
pub open spec fn starts_with_zeros(hash: Seq<u8>, bits: nat) -> bool {
    &&& bits <= 8 * hash.len()
    &&& forall|i: int| 0 <= i < bits / 8 ==> #[trigger] hash[i] == 0
    &&& bits % 8 > 0 ==> hash[bits as int / 8] < byte_bound(bits % 8)
}

/// The zero bits of a byte bound its value.
proof fn byte_bits_bound(byte: u8, bits: nat)
    requires
        byte > 0,
        bits < 8,
    ensures
        byte_zero_bits(byte) >= bits <==> byte < byte_bound(bits),
        byte_zero_bits(byte) < 8,
{
    reveal_with_fuel(byte_zero_bits, 9);
}

/// Counting the zero bits at the start finds exactly the bits that are zero:
/// there are at least as many as asked for where the first bytes are zero and
/// the byte after them is small enough.
pub proof fn zero_bits_are_zeros(hash: Seq<u8>, bits: nat)
    ensures
        zero_bits(hash) >= bits <==> starts_with_zeros(hash, bits),
    decreases hash.len(),
{
    if hash.len() > 0 {
        if hash[0] == 0 {
            if bits >= 8 {
                let rest = hash.skip(1);
                let fewer = (bits - 8) as nat;
                zero_bits_are_zeros(rest, fewer);
                assert(bits / 8 == fewer / 8 + 1 && bits % 8 == fewer % 8);
                if starts_with_zeros(rest, fewer) {
                    assert forall|i: int| 0 <= i < bits / 8 implies #[trigger] hash[i] == 0 by {
                        if i > 0 {
                            assert(rest[i - 1] == 0);
                        }
                    }
                }
                if starts_with_zeros(hash, bits) {
                    assert forall|i: int| 0 <= i < fewer / 8 implies #[trigger] rest[i] == 0 by {
                        assert(hash[i + 1] == 0);
                    }
                }
            }
        } else {
            byte_bits_bound(hash[0], 0);
            if bits < 8 {
                byte_bits_bound(hash[0], bits);
            } else {
                assert(bits / 8 >= 1);
            }
        }
    }
}

/// Work is done where the digest of the challenge and the nonce starts with as
/// many zero bits as the difficulty asks for.
pub proof fn work_is_a_digest_with_zeros(challenge: Seq<u8>, difficulty_bits: u32, nonce: u64)
    ensures
        solves(challenge, difficulty_bits, nonce) <==> starts_with_zeros(
            suite::sha256(challenge + bytes::le_bytes(nonce as nat, 8)),
            difficulty_bits as nat,
        ),
{
    zero_bits_are_zeros(
        suite::sha256(challenge + bytes::le_bytes(nonce as nat, 8)),
        difficulty_bits as nat,
    );
}

/// The challenge that a domain and a seed determine.
pub open spec fn derived_challenge(domain: Seq<char>, seed: Seq<u8>) -> Seq<u8> {
    suite::sha256(utf8::encode_utf8(domain) + seed)
}

/// The number of zero bits at the start of `hash`.
pub fn leading_zero_bits(hash: &[u8; 32]) -> (count: u32)
    ensures
        count == zero_bits(hash@),
        starts_with_zeros(hash@, count as nat),
        !starts_with_zeros(hash@, (count + 1) as nat),
{
    let mut count: u32 = 0;
    let mut i: usize = 0;
    assert(hash@.skip(0) =~= hash@);
    while i < 32
        invariant
            i <= 32,
            count == 8 * i,
            zero_bits(hash@) == count + zero_bits(hash@.skip(i as int)),
        decreases 32 - i,
    {
        let byte: u8 = hash[i];
        assert(hash@.skip(i as int)[0] == byte);
        assert(hash@.skip(i as int).skip(1) =~= hash@.skip(i + 1));
        if byte != 0 {
            proof {
                let all = zero_bits(hash@);
                zero_bits_are_zeros(hash@, all);
                zero_bits_are_zeros(hash@, all + 1);
            }
            return count + byte_leading_zeros(byte);
        }
        count = count + 8;
        i = i + 1;
    }
    proof {
        let all = zero_bits(hash@);
        zero_bits_are_zeros(hash@, all);
        zero_bits_are_zeros(hash@, all + 1);
    }
    count
}

/// The number of zero bits at the top of `byte`.
fn byte_leading_zeros(byte: u8) -> (count: u32)
    ensures
        count == byte_zero_bits(byte),
        count <= 255,
{
    if byte == 0 {
        return 8;
    }
    let mut doubled: u8 = byte;
    let mut count: u32 = 0;
    while doubled < 128
        invariant
            0 < doubled,
            count <= doubled,
            byte_zero_bits(byte) == count + byte_zero_bits(doubled),
        decreases 256 - doubled,
    {
        doubled = 2 * doubled;
        count = count + 1;
    }
    count
}

impl PowChallenge {
    /// A challenge that nobody can foresee.
    pub fn new(difficulty_bits: u32) -> (challenge: Self)
        ensures
            challenge.difficulty_bits == difficulty_bits,
            suite::drawn_challenge(challenge.challenge@),
    {
        PowChallenge { challenge: suite::draw_challenge(), difficulty_bits }
    }

    /// The challenge of a domain and a seed. Whoever knows both computes the
    /// same challenge.
    pub fn derive_from(domain: &str, seed: &[u8], difficulty_bits: u32) -> (challenge: Self)
        ensures
            challenge.challenge@ == derived_challenge(domain@, seed@),
            challenge.challenge@ == suite::sha256(utf8::encode_utf8(domain@) + seed@),
            challenge.difficulty_bits == difficulty_bits,
    {
        let mut data: Vec<u8> = bytes::to_vec(domain.as_bytes());
        bytes::append(&mut data, seed);
        PowChallenge { challenge: suite::sha256_digest(data.as_slice()), difficulty_bits }
    }

    /// The smallest nonce that solves the challenge, found by trying one
    /// after another; `None` where no 64-bit nonce does.
    pub fn solve(&self) -> (solution: Option<PowSolution>)
        ensures
            match solution {
                Some(s) => solves(self.challenge@, self.difficulty_bits, s.nonce) && forall|n: u64|
                    n < s.nonce ==> !#[trigger] solves(self.challenge@, self.difficulty_bits, n),
                None => forall|n: u64| !#[trigger] solves(self.challenge@, self.difficulty_bits, n),
            },
            solution matches Some(s) ==> starts_with_zeros(
                suite::sha256(self.challenge@ + bytes::le_bytes(s.nonce as nat, 8)),
                self.difficulty_bits as nat,
            ),
    {
        let mut nonce: u64 = 0;
        loop
            invariant
                forall|n: u64|
                    n < nonce ==> !#[trigger] solves(self.challenge@, self.difficulty_bits, n),
            decreases u64::MAX - nonce,
        {
            if self.check(nonce) {
                proof {
                    work_is_a_digest_with_zeros(self.challenge@, self.difficulty_bits, nonce);
                }
                return Some(PowSolution { nonce });
            }
            if nonce == u64::MAX {
                return None;
            }
            nonce = nonce + 1;
        }
    }

    /// Whether `nonce` solves the challenge.
    pub fn check(&self, nonce: u64) -> (solved: bool)
        ensures
            solved == solves(self.challenge@, self.difficulty_bits, nonce),
            solved == starts_with_zeros(
                suite::sha256(self.challenge@ + bytes::le_bytes(nonce as nat, 8)),
                self.difficulty_bits as nat,
            ),
    {
        proof {
            work_is_a_digest_with_zeros(self.challenge@, self.difficulty_bits, nonce);
        }
        let mut data: Vec<u8> = bytes::to_vec(self.challenge.as_slice());
        bytes::append(&mut data, bytes::u64_le(nonce).as_slice());
        let hash: [u8; 32] = suite::sha256_digest(data.as_slice());
        leading_zero_bits(&hash) >= self.difficulty_bits
    }

    /// Whether a solution solves the challenge.
    pub fn verify(&self, solution: &PowSolution) -> (solved: bool)
        ensures
            solved == solves(self.challenge@, self.difficulty_bits, solution.nonce),
            solved == starts_with_zeros(
                suite::sha256(self.challenge@ + bytes::le_bytes(solution.nonce as nat, 8)),
                self.difficulty_bits as nat,
            ),
    {
        self.check(solution.nonce)
    }
}

/// The challenges of two domains over one seed differ, unless SHA-256 gives
/// one digest for the two different inputs.
pub proof fn domains_have_their_own_challenges(first: Seq<char>, second: Seq<char>, seed: Seq<u8>)
    requires
        first != second,
    ensures
        derived_challenge(first, seed) != derived_challenge(second, seed) || suite::collides(
            utf8::encode_utf8(first) + seed,
            utf8::encode_utf8(second) + seed,
        ),
{
    let a = utf8::encode_utf8(first);
    let b = utf8::encode_utf8(second);
    utf8::encode_utf8_decode_utf8(first);
    utf8::encode_utf8_decode_utf8(second);
    if a + seed == b + seed {
        assert((a + seed).len() == (b + seed).len());
        assert(a =~= (a + seed).take(a.len() as int));
        assert(b =~= (b + seed).take(b.len() as int));
    }
}

/// A solution to a challenge solves every easier one too.
pub proof fn harder_work_covers_easier(challenge: Seq<u8>, hard: u32, easy: u32, nonce: u64)
    requires
        easy <= hard,
        solves(challenge, hard, nonce),
    ensures
        solves(challenge, easy, nonce),
{
}

/// The challenges of two seeds in one domain differ, unless SHA-256 gives one
/// digest for the two different inputs: work that was done for one content is
/// worth nothing for another.
pub proof fn seeds_have_their_own_challenges(domain: Seq<char>, first: Seq<u8>, second: Seq<u8>)
    requires
        first != second,
    ensures
        derived_challenge(domain, first) != derived_challenge(domain, second) || suite::collides(
            utf8::encode_utf8(domain) + first,
            utf8::encode_utf8(domain) + second,
        ),
{
    let a = utf8::encode_utf8(domain);
    if a + first == a + second {
        assert(first =~= (a + first).skip(a.len() as int));
        assert(second =~= (a + second).skip(a.len() as int));
    }
}

} // verus!
