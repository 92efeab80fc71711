//! Trusted bridge to the cryptographic primitives: SHA-256 digests and
//! lowercase hexadecimal rendering. The chain logic is verified against the
//! contracts stated here.

use vstd::prelude::*;

verus! {

/// The SHA-256 digest of a byte sequence. The algorithm itself is not spelled
/// out here; the chain's guarantees are stated in terms of this name, and
/// `sha256_digest` is the one place a value of it is produced.
pub uninterp spec fn sha256_of(bytes: Seq<u8>) -> Seq<u8>;

/// Relies on sha2::Sha256 through digest's `Digest::digest`: one-shot hashing
/// of the input bytes, a 32-byte output that depends on the input alone.
#[verifier::external_body]
pub(crate) fn sha256_digest(bytes: &Vec<u8>) -> (r: Vec<u8>)
    ensures
        r@ == sha256_of(bytes@),
        r@.len() == 32,
{
    <sha2::Sha256 as sha2::Digest>::digest(bytes.as_slice()).to_vec()
}

/// The lowercase hexadecimal digit for one nibble value.
pub open spec fn hex_digit_char(n: u8) -> char {
    if n == 0 {
        '0'
    } else if n == 1 {
        '1'
    } else if n == 2 {
        '2'
    } else if n == 3 {
        '3'
    } else if n == 4 {
        '4'
    } else if n == 5 {
        '5'
    } else if n == 6 {
        '6'
    } else if n == 7 {
        '7'
    } else if n == 8 {
        '8'
    } else if n == 9 {
        '9'
    } else if n == 10 {
        'a'
    } else if n == 11 {
        'b'
    } else if n == 12 {
        'c'
    } else if n == 13 {
        'd'
    } else if n == 14 {
        'e'
    } else {
        'f'
    }
}

/// Whether `s` is the lowercase hexadecimal rendering of `bytes`: two digits
/// per byte, high nibble first.
pub open spec fn is_hex_encoding(bytes: Seq<u8>, s: Seq<char>) -> bool {
    &&& s.len() == 2 * bytes.len()
    &&& forall|i: int|
        0 <= i < bytes.len() ==> s[2 * i] == hex_digit_char(bytes[i] / 16) && s[2 * i + 1]
            == hex_digit_char((bytes[i] % 16) as u8)
}

/// Relies on hex::encode: each byte becomes two lowercase hexadecimal digits,
/// high nibble first.
#[verifier::external_body]
pub(crate) fn hex_encode(bytes: &Vec<u8>) -> (r: String)
    ensures
        is_hex_encoding(bytes@, r@),
{
    hex::encode(bytes.as_slice())
}

} // verus!
