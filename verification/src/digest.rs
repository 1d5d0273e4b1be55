//! Object identity: the SHA-1 digest of the framed object, in lowercase hex.

use sha1::Digest;
use vstd::prelude::*;

verus! {

/// The SHA-1 digest of `data`: a fixed function of the input bytes alone,
/// left unspecified here.
pub uninterp spec fn sha1_of(data: Seq<u8>) -> Seq<u8>;

/// The lowercase hexadecimal character for the nibble `v`.
pub open spec fn hex_digit_char(v: u8) -> char {
    if v == 0 {
        '0'
    } else if v == 1 {
        '1'
    } else if v == 2 {
        '2'
    } else if v == 3 {
        '3'
    } else if v == 4 {
        '4'
    } else if v == 5 {
        '5'
    } else if v == 6 {
        '6'
    } else if v == 7 {
        '7'
    } else if v == 8 {
        '8'
    } else if v == 9 {
        '9'
    } else if v == 10 {
        'a'
    } else if v == 11 {
        'b'
    } else if v == 12 {
        'c'
    } else if v == 13 {
        'd'
    } else if v == 14 {
        'e'
    } else {
        'f'
    }
}

/// The lowercase hexadecimal rendering of `data`: two digits per byte, high
/// nibble first.
pub open spec fn hex_chars_of(data: Seq<u8>) -> Seq<char> {
    Seq::new(
        data.len() * 2,
        |i: int|
            if i % 2 == 0 {
                hex_digit_char(data[i / 2] / 16)
            } else {
                hex_digit_char(data[i / 2] % 16)
            },
    )
}

/// Hexadecimal renderings are ASCII, so they can be sliced by character.
pub proof fn lemma_hex_chars_ascii(data: Seq<u8>)
    ensures
        vstd::utf8::is_ascii_chars(hex_chars_of(data)),
{
    let h = hex_chars_of(data);
    assert forall|i: int| 0 <= i < h.len() implies '\0' <= #[trigger] h[i] <= '\u{7f}' by {
        let v = if i % 2 == 0 {
            data[i / 2] / 16
        } else {
            data[i / 2] % 16
        };
        assert(h[i] == hex_digit_char(v));
    }
}

/// Relies on `sha1::Sha1` (`update`, then `finalize`): the digest depends on
/// the input bytes alone and is exactly 20 bytes long.
#[verifier::external_body]
pub(crate) fn sha1_digest(data: &[u8]) -> (r: Vec<u8>)
    ensures
        r@ == sha1_of(data@),
        r@.len() == 20,
{
    let mut hasher = sha1::Sha1::new();
    hasher.update(data);
    hasher.finalize().to_vec()
}

/// Relies on `hex::encode`: each input byte becomes exactly two lowercase
/// hexadecimal digits, high nibble first.
#[verifier::external_body]
pub(crate) fn hex_encode(data: &[u8]) -> (r: String)
    ensures
        r@ == hex_chars_of(data@),
{
    hex::encode(data)
}

} // verus!
