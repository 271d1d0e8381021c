//! Hexadecimal text.
use vstd::prelude::*;

verus! {

/// The value of a hexadecimal digit of either case.
pub open spec fn digit_value(c: char) -> Option<nat> {
    if '0' <= c <= '9' {
        Some((c as int - '0' as int) as nat)
    } else if 'a' <= c <= 'f' {
        Some((c as int - 'a' as int + 10) as nat)
    } else if 'A' <= c <= 'F' {
        Some((c as int - 'A' as int + 10) as nat)
    } else {
        None
    }
}

/// The lower-case hexadecimal digit of a value below 16.
pub open spec fn digit_char(value: int) -> char {
    if value < 10 {
        (value + '0' as int) as char
    } else {
        (value - 10 + 'a' as int) as char
    }
}

/// The bytes that a hexadecimal text stands for: two digits for each byte,
/// and nothing else.
pub open spec fn hex_value(text: Seq<char>) -> Option<Seq<u8>> {
    if text.len() % 2 == 0 && forall|i: int|
        0 <= i < text.len() ==> digit_value(#[trigger] text[i]) is Some {
        Some(
            Seq::new(
                text.len() / 2,
                |i: int| (16 * digit_value(text[2 * i])->0 + digit_value(text[2 * i + 1])->0) as u8,
            ),
        )
    } else {
        None
    }
}

/// The lower-case hexadecimal text of some bytes.
pub open spec fn hex_text(data: Seq<u8>) -> Seq<char> {
    Seq::new(
        2 * data.len(),
        |i: int|
            if i % 2 == 0 {
                digit_char(data[i / 2] as int / 16)
            } else {
                digit_char(data[i / 2] as int % 16)
            },
    )
}

/// `hex::decode`: the bytes of a hexadecimal text, or `None` where it
/// reports an error.
#[verifier::external_body]
pub(crate) fn hex_decode(text: &str) -> (data: Option<Vec<u8>>)
    ensures
        data is Some <==> hex_value(text@) is Some,
        data matches Some(d) ==> hex_value(text@) == Some(d@),
{
    hex::decode(text).ok()
}

/// `hex::encode`: the lower-case hexadecimal text of some bytes.
#[verifier::external_body]
pub(crate) fn hex_encode(data: &[u8]) -> (text: String)
    ensures
        text@ == hex_text(data@),
{
    hex::encode(data)
}

/// Bytes are read back from their hexadecimal text.
pub proof fn hex_roundtrip(data: Seq<u8>)
    ensures
        hex_value(hex_text(data)) == Some(data),
{
    let text = hex_text(data);
    assert forall|i: int| 0 <= i < text.len() implies digit_value(#[trigger] text[i]) == Some(
        if i % 2 == 0 {
            (data[i / 2] as int / 16) as nat
        } else {
            (data[i / 2] as int % 16) as nat
        },
    ) by {}
    assert forall|i: int| 0 <= i < data.len() implies (16 * digit_value(text[2 * i])->0
        + digit_value(text[2 * i + 1])->0) as u8 == #[trigger] data[i] by {
        assert((2 * i) % 2 == 0 && (2 * i) / 2 == i);
        assert((2 * i + 1) % 2 == 1 && (2 * i + 1) / 2 == i);
    }
    assert(hex_value(text)->0 =~= data);
}

} // verus!
