//! Fixed-width integers as bytes, and small helpers on byte vectors.
use vstd::prelude::*;

verus! {

/// The `width` low-order base-256 digits of `value`, least significant first.
pub open spec fn le_bytes(value: nat, width: nat) -> Seq<u8>
    decreases width,
{
    if width == 0 {
        Seq::empty()
    } else {
        seq![(value % 256) as u8] + le_bytes(value / 256, (width - 1) as nat)
    }
}

/// The number whose base-256 digits, least significant first, are `digits`.
pub open spec fn le_value(digits: Seq<u8>) -> nat
    decreases digits.len(),
{
    if digits.len() == 0 {
        0
    } else {
        digits[0] as nat + 256 * le_value(digits.skip(1))
    }
}

/// The `width` low-order base-256 digits of `value`, most significant first.
pub open spec fn be_bytes(value: nat, width: nat) -> Seq<u8> {
    le_bytes(value, width).reverse()
}

/// The number whose base-256 digits, most significant first, are `digits`.
pub open spec fn be_value(digits: Seq<u8>) -> nat {
    le_value(digits.reverse())
}

/// `256` to the power `width`.
pub open spec fn pow256(width: nat) -> nat
    decreases width,
{
    if width == 0 {
        1
    } else {
        256 * pow256((width - 1) as nat)
    }
}

/// Writing takes exactly `width` bytes.
pub proof fn le_bytes_len(value: nat, width: nat)
    ensures
        le_bytes(value, width).len() == width,
    decreases width,
{
    if width > 0 {
        le_bytes_len(value / 256, (width - 1) as nat);
    }
}

/// A number that fits in `width` bytes is read back from the bytes written.
pub proof fn le_roundtrip(value: nat, width: nat)
    requires
        value < pow256(width),
    ensures
        le_value(le_bytes(value, width)) == value,
        le_bytes(value, width).len() == width,
    decreases width,
{
    le_bytes_len(value, width);
    if width > 0 {
        let rest = le_bytes(value / 256, (width - 1) as nat);
        assert(value / 256 < pow256((width - 1) as nat)) by (nonlinear_arith)
            requires
                value < 256 * pow256((width - 1) as nat),
        ;
        le_roundtrip(value / 256, (width - 1) as nat);
        assert(le_bytes(value, width).skip(1) =~= rest);
    }
}

/// `width` bytes hold a number below `256` to the power `width`.
pub proof fn le_value_bound(digits: Seq<u8>)
    ensures
        le_value(digits) < pow256(digits.len()),
    decreases digits.len(),
{
    if digits.len() > 0 {
        le_value_bound(digits.skip(1));
    }
}

/// The widths in use: four and eight bytes.
pub proof fn pow256_values()
    ensures
        pow256(4) == 0x1_0000_0000,
        pow256(8) == 0x1_0000_0000_0000_0000,
{
    reveal_with_fuel(pow256, 9);
}

/// The four bytes of `value`, least significant first.
pub fn u32_le(value: u32) -> (out: [u8; 4])
    ensures
        out@ == le_bytes(value as nat, 4),
{
    proof {
        reveal_with_fuel(le_bytes, 5);
    }
    let out: [u8; 4] = [
        (value % 256) as u8,
        ((value / 256) % 256) as u8,
        ((value / 0x1_0000) % 256) as u8,
        ((value / 0x100_0000) % 256) as u8,
    ];
    assert(out@ =~= le_bytes(value as nat, 4));
    out
}

/// The eight bytes of `value`, least significant first.
pub fn u64_le(value: u64) -> (out: [u8; 8])
    ensures
        out@ == le_bytes(value as nat, 8),
{
    let mut out: [u8; 8] = [0; 8];
    let mut rest: u64 = value;
    let mut i: usize = 0;
    assert(out@.take(0) =~= Seq::<u8>::empty());
    while i < 8
        invariant
            i <= 8,
            le_bytes(value as nat, 8) =~= out@.take(i as int) + le_bytes(
                rest as nat,
                (8 - i) as nat,
            ),
        decreases 8 - i,
    {
        let ghost before = out@;
        out[i] = (rest % 256) as u8;
        proof {
            assert(out@.take(i + 1) =~= before.take(i as int).push((rest % 256) as u8));
            assert(le_bytes(rest as nat, (8 - i) as nat) =~= seq![(rest % 256) as u8] + le_bytes(
                rest as nat / 256,
                (8 - i - 1) as nat,
            ));
        }
        rest = rest / 256;
        i = i + 1;
    }
    assert(out@.take(8) =~= out@);
    out
}

/// The four bytes of `value`, most significant first.
pub fn u32_be(value: u32) -> (out: [u8; 4])
    ensures
        out@ == be_bytes(value as nat, 4),
{
    let low: [u8; 4] = u32_le(value);
    let out: [u8; 4] = [low[3], low[2], low[1], low[0]];
    assert(out@ =~= low@.reverse());
    out
}

/// The number in four bytes, most significant first.
pub fn read_u32_be(data: [u8; 4]) -> (value: u32)
    ensures
        value == be_value(data@),
{
    let low: [u8; 4] = [data[3], data[2], data[1], data[0]];
    let value: u32 = read_u32_le(&low, 0);
    assert(low@.subrange(0, 4) =~= data@.reverse());
    value
}

/// The low-order digits of a number are those of its remainder.
pub proof fn le_bytes_of_remainder(value: nat, width: nat)
    ensures
        le_bytes(value % pow256(width), width) == le_bytes(value, width),
    decreases width,
{
    if width > 0 {
        let m = pow256((width - 1) as nat);
        pow256_positive((width - 1) as nat);
        vstd::arithmetic::div_mod::lemma_mod_breakdown(value as int, 256, m as int);
        let r = value % (256 * m);
        assert(r == 256 * ((value / 256) % m) + value % 256);
        assert(r / 256 == (value / 256) % m);
        assert(r % 256 == value % 256);
        le_bytes_of_remainder(value / 256, (width - 1) as nat);
    }
}

/// A power is positive.
proof fn pow256_positive(width: nat)
    ensures
        pow256(width) > 0,
    decreases width,
{
    if width > 0 {
        pow256_positive((width - 1) as nat);
    }
}

/// The number in the four bytes of `data` that start at `at`.
pub fn read_u32_le(data: &[u8], at: usize) -> (value: u32)
    requires
        at + 4 <= data@.len(),
    ensures
        value == le_value(data@.subrange(at as int, at + 4)),
{
    let value: u32 = data[at] as u32 + 256 * (data[at + 1] as u32) + 0x1_0000 * (data[at
        + 2] as u32) + 0x100_0000 * (data[at + 3] as u32);
    proof {
        let four = data@.subrange(at as int, at + 4);
        reveal_with_fuel(le_value, 5);
        assert(four.skip(1).skip(1) =~= four.skip(2));
        assert(four.skip(2).skip(1) =~= four.skip(3));
        assert(four.skip(3).skip(1) =~= four.skip(4));
    }
    value
}

/// The number in the eight bytes of `data`.
pub fn read_u64_le(data: &[u8]) -> (value: u64)
    requires
        data@.len() == 8,
    ensures
        value == le_value(data@),
{
    let mut value: u64 = 0;
    let mut i: usize = 8;
    proof {
        assert(data@.skip(8) =~= Seq::<u8>::empty());
        pow256_values();
    }
    while i > 0
        invariant
            i <= 8,
            data@.len() == 8,
            value == le_value(data@.skip(i as int)),
        decreases i,
    {
        i = i - 1;
        proof {
            let here = data@.skip(i as int);
            assert(here.skip(1) =~= data@.skip(i + 1));
            le_value_bound(here);
            assert(le_value(here) < 0x1_0000_0000_0000_0000) by {
                reveal_with_fuel(pow256, 9);
            }
        }
        value = data[i] as u64 + 256 * value;
    }
    proof {
        assert(data@.skip(0) =~= data@);
    }
    value
}

/// Appends `tail` to `buffer`.
pub fn append(buffer: &mut Vec<u8>, tail: &[u8])
    ensures
        final(buffer)@ == old(buffer)@ + tail@,
{
    buffer.extend_from_slice(tail);
    assert(buffer@ =~= old(buffer)@ + tail@);
}

/// An owned copy of `data`.
pub fn to_vec(data: &[u8]) -> (copy: Vec<u8>)
    ensures
        copy@ == data@,
{
    let mut copy: Vec<u8> = Vec::new();
    append(&mut copy, data);
    assert(copy@ =~= data@);
    copy
}

/// The 32 bytes of `data`, or `None` when it has another length.
pub fn to_array32(data: &[u8]) -> (out: Option<[u8; 32]>)
    ensures
        out is Some <==> data@.len() == 32,
        out matches Some(a) ==> a@ == data@,
{
    if data.len() != 32 {
        return None;
    }
    let mut out: [u8; 32] = [0; 32];
    let mut i: usize = 0;
    while i < 32
        invariant
            i <= 32,
            data@.len() == 32,
            forall|j: int| 0 <= j < i ==> out@[j] == data@[j],
        decreases 32 - i,
    {
        out[i] = data[i];
        i = i + 1;
    }
    assert(out@ =~= data@);
    Some(out)
}

/// The 64 bytes of `data`, or `None` when it has another length.
pub fn to_array64(data: &[u8]) -> (out: Option<[u8; 64]>)
    ensures
        out is Some <==> data@.len() == 64,
        out matches Some(a) ==> a@ == data@,
{
    if data.len() != 64 {
        return None;
    }
    let mut out: [u8; 64] = [0; 64];
    let mut i: usize = 0;
    while i < 64
        invariant
            i <= 64,
            data@.len() == 64,
            forall|j: int| 0 <= j < i ==> out@[j] == data@[j],
        decreases 64 - i,
    {
        out[i] = data[i];
        i = i + 1;
    }
    assert(out@ =~= data@);
    Some(out)
}

/// Bytes are written back from the number that they hold.
pub proof fn le_value_roundtrip(digits: Seq<u8>)
    ensures
        le_bytes(le_value(digits), digits.len()) == digits,
    decreases digits.len(),
{
    if digits.len() > 0 {
        let rest = digits.skip(1);
        le_value_roundtrip(rest);
        let value = le_value(digits);
        assert(value % 256 == digits[0] as nat && value / 256 == le_value(rest));
        assert(digits =~= seq![digits[0]] + rest);
    } else {
        assert(digits =~= Seq::<u8>::empty());
    }
}

} // verus!
