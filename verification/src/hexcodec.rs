//! Hexadecimal encoding and decoding through the `hex` crate.

use vstd::prelude::*;

verus! {

/// The value of a hex digit byte, upper or lower case.
pub open spec fn hex_val(b: u8) -> Option<u8> {
    if 0x30 <= b <= 0x39 {
        Some((b - 0x30) as u8)
    } else if 0x41 <= b <= 0x46 {
        Some((b - 0x41 + 10) as u8)
    } else if 0x61 <= b <= 0x66 {
        Some((b - 0x61 + 10) as u8)
    } else {
        None
    }
}

/// Whether `hex::decode` accepts `data`: an even number of hex digits.
pub open spec fn hex_valid(data: Seq<u8>) -> bool {
    data.len() % 2 == 0 && forall|i: int| 0 <= i < data.len() ==> (#[trigger] hex_val(data[i])) is Some
}

/// The bytes a valid hex string decodes to, two digits per byte.
pub open spec fn hex_bytes(data: Seq<u8>) -> Seq<u8> {
    Seq::new(
        data.len() / 2,
        |i: int| (hex_val(data[2 * i]).unwrap() * 16 + hex_val(data[2 * i + 1]).unwrap()) as u8,
    )
}

/// The lower-case hex digit for a nibble.
pub open spec fn hex_digit(n: u8) -> char {
    if n < 10 {
        ((n + 0x30) as u8) as char
    } else {
        ((n - 10 + 0x61) as u8) as char
    }
}

/// Lower-case hex rendering of `b`, as `hex::encode` produces it.
pub open spec fn hex_encode_spec(b: Seq<u8>) -> Seq<char>
    decreases b.len(),
{
    if b.len() == 0 {
        seq![]
    } else {
        hex_encode_spec(b.drop_last()) + seq![hex_digit(b.last() / 16), hex_digit(b.last() % 16)]
    }
}

/// The text `hex::FromHexError` displays for the first defect `hex::decode`
/// finds in `data`.
pub uninterp spec fn hex_error_text(data: Seq<u8>) -> Seq<char>;

/// Decode with `hex::decode`.
///
/// Claims: the call succeeds exactly on an even number of hex digits and
/// then yields two digits per byte; on failure the text is what its error
/// displays, `"Odd number of digits"` for odd input.
#[verifier::external_body]
pub(crate) fn hex_decode(text: &str) -> (r: Result<Vec<u8>, String>)
    ensures
        r is Ok <==> hex_valid(vstd::utf8::encode_utf8(text@)),
        r matches Ok(v) ==> v@ == hex_bytes(vstd::utf8::encode_utf8(text@)),
        r matches Err(e) ==> e@ == hex_error_text(vstd::utf8::encode_utf8(text@)),
        r matches Err(e) ==> (vstd::utf8::encode_utf8(text@).len() % 2 == 1 ==> e@
            == "Odd number of digits"@),
{
    match hex::decode(text) {
        Ok(v) => Ok(v),
        Err(e) => Err(e.to_string()),
    }
}

/// Encode with `hex::encode`.
///
/// Claims: the result is the lower-case rendering, two digits per byte.
#[verifier::external_body]
pub(crate) fn hex_encode(bytes: &[u8]) -> (s: String)
    ensures
        s@ == hex_encode_spec(bytes@),
{
    hex::encode(bytes)
}

/// Lower-case hex of `bytes`, two digits per byte.
pub fn hex_string(bytes: &[u8]) -> (s: String)
    ensures
        s@ == hex_encode_spec(bytes@),
{
    hex_encode(bytes)
}

} // verus!
