//! Lowercase hexadecimal encoding and its decoding.

use vstd::prelude::*;
use vstd::utf8::*;

verus! {

/// The lowercase hexadecimal digit for a value below sixteen.
pub open spec fn hex_digit(d: int) -> char {
    seq!['0', '1', '2', '3', '4', '5', '6', '7', '8', '9', 'a', 'b', 'c', 'd', 'e', 'f'][d]
}

/// The lowercase hexadecimal text of a byte string: two digits per byte,
/// the high nibble first.
pub open spec fn hex_lower(bytes: Seq<u8>) -> Seq<char> {
    Seq::new(
        2 * bytes.len(),
        |i: int|
            if i % 2 == 0 {
                hex_digit((bytes[i / 2] / 16) as int)
            } else {
                hex_digit((bytes[i / 2] % 16) as int)
            },
    )
}

/// The value of one hexadecimal digit byte, in either case; `-1` for any
/// other byte.
pub open spec fn hex_value(c: u8) -> int {
    if 48 <= c <= 57 {
        c - 48
    } else if 97 <= c <= 102 {
        c - 87
    } else if 65 <= c <= 70 {
        c - 55
    } else {
        -1
    }
}

/// Decoding of hexadecimal text given as bytes: `None` when the length is
/// odd or a byte is not a hexadecimal digit, else one byte per pair.
pub open spec fn hex_decode(text: Seq<u8>) -> Option<Seq<u8>> {
    if text.len() % 2 == 0 && forall|i: int| 0 <= i < text.len() ==> hex_value(#[trigger] text[i]) >= 0 {
        Some(Seq::new(
            text.len() / 2,
            |i: int| (hex_value(text[2 * i]) * 16 + hex_value(text[2 * i + 1])) as u8,
        ))
    } else {
        None
    }
}

/// Decoding of hexadecimal text given as characters (through their UTF-8 bytes).
pub open spec fn hex_decode_text(text: Seq<char>) -> Option<Seq<u8>> {
    hex_decode(encode_utf8(text))
}

proof fn lemma_hex_digit(d: int)
    requires
        0 <= d < 16,
    ensures
        '0' <= hex_digit(d) <= '\u{7f}',
        hex_value(hex_digit(d) as u8) == d,
        (hex_digit(d) == '0') == (d == 0),
{
    let t = seq!['0', '1', '2', '3', '4', '5', '6', '7', '8', '9', 'a', 'b', 'c', 'd', 'e', 'f'];
    assert(t[0] == '0' && t[1] == '1' && t[2] == '2' && t[3] == '3');
    assert(t[4] == '4' && t[5] == '5' && t[6] == '6' && t[7] == '7');
    assert(t[8] == '8' && t[9] == '9' && t[10] == 'a' && t[11] == 'b');
    assert(t[12] == 'c' && t[13] == 'd' && t[14] == 'e' && t[15] == 'f');
}

/// Every character of a hexadecimal text is ASCII.
pub proof fn lemma_hex_lower_ascii(bytes: Seq<u8>)
    ensures
        is_ascii_chars(hex_lower(bytes)),
{
    assert forall|i: int| 0 <= i < hex_lower(bytes).len() implies '\0' <= #[trigger] hex_lower(
        bytes,
    )[i] <= '\u{7f}' by {
        lemma_hex_digit((bytes[i / 2] / 16) as int);
        lemma_hex_digit((bytes[i / 2] % 16) as int);
    }
}

/// A character of the hexadecimal text is `'0'` exactly when its nibble is zero.
pub proof fn lemma_hex_zero_digit(bytes: Seq<u8>, i: int)
    requires
        0 <= i < 2 * bytes.len(),
    ensures
        (hex_lower(bytes)[i] == '0') == (if i % 2 == 0 {
            bytes[i / 2] / 16 == 0
        } else {
            bytes[i / 2] % 16 == 0
        }),
{
    lemma_hex_digit((bytes[i / 2] / 16) as int);
    lemma_hex_digit((bytes[i / 2] % 16) as int);
}

/// Decoding the lowercase hexadecimal text of a byte string gives the bytes back.
pub proof fn lemma_hex_roundtrip(bytes: Seq<u8>)
    ensures
        hex_decode_text(hex_lower(bytes)) == Some(bytes),
{
    let chars = hex_lower(bytes);
    lemma_hex_lower_ascii(bytes);
    is_ascii_chars_encode_utf8(chars);
    let text = encode_utf8(chars);
    assert(text.len() == 2 * bytes.len());
    assert forall|i: int| 0 <= i < text.len() implies hex_value(#[trigger] text[i]) >= 0 by {
        assert(chars[i] as u8 == text[i]);
        lemma_hex_digit((bytes[i / 2] / 16) as int);
        lemma_hex_digit((bytes[i / 2] % 16) as int);
    }
    assert(text.len() % 2 == 0);
    let decoded = hex_decode(text).unwrap();
    assert forall|i: int| 0 <= i < bytes.len() implies decoded[i] == bytes[i] by {
        assert(chars[2 * i] as u8 == text[2 * i]);
        assert(chars[2 * i + 1] as u8 == text[2 * i + 1]);
        assert((2 * i) / 2 == i && (2 * i) % 2 == 0);
        assert((2 * i + 1) / 2 == i && (2 * i + 1) % 2 == 1);
        lemma_hex_digit((bytes[i] / 16) as int);
        lemma_hex_digit((bytes[i] % 16) as int);
        let b = bytes[i];
        assert(b / 16 * 16 + b % 16 == b) by (nonlinear_arith);
    }
    assert(decoded =~= bytes);
}

/// Lowercase hexadecimal text of a byte string.
#[verifier::external_body]
pub(crate) fn hex_encode(data: &[u8]) -> (r: String)
    ensures
        r@ == hex_lower(data@),
{
    hex::encode(data)
}

/// Decodes hexadecimal text given as bytes; `None` on odd length or a
/// non-hexadecimal byte.
#[verifier::external_body]
pub(crate) fn hex_decode_bytes(text: &[u8]) -> (r: Option<Vec<u8>>)
    ensures
        match r {
            Some(v) => hex_decode(text@) == Some(v@),
            None => hex_decode(text@) is None,
        },
{
    hex::decode(text).ok()
}

/// Decodes the hexadecimal text of a string.
pub fn hex_decode_str(text: &str) -> (r: Option<Vec<u8>>)
    ensures
        match r {
            Some(v) => hex_decode_text(text@) == Some(v@),
            None => hex_decode_text(text@) is None,
        },
{
    hex_decode_bytes(text.as_bytes())
}

} // verus!
