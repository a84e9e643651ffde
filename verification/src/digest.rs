//! Content digests: lowercase hexadecimal SHA-1 of encoded bytes, used
//! for deduplication and as the canonical storage filename stem.

use vstd::prelude::*;
use sha1::Digest;

verus! {

/// The SHA-1 digest of a byte sequence. The digest is a function of the
/// bytes alone; it is named here, not restated.
pub uninterp spec fn sha1_of(bytes: Seq<u8>) -> Seq<u8>;

/// The lowercase hexadecimal digit for a value below 16.
pub open spec fn hex_digit(n: int) -> char {
    seq!['0', '1', '2', '3', '4', '5', '6', '7', '8', '9', 'a', 'b', 'c', 'd', 'e', 'f'][n]
}

/// The lowercase hexadecimal encoding of a byte sequence: two digits
/// per byte, high nibble first.
pub open spec fn hex_of(bytes: Seq<u8>) -> Seq<char>
    decreases bytes.len(),
{
    if bytes.len() == 0 {
        Seq::empty()
    } else {
        seq![hex_digit(bytes[0] as int / 16), hex_digit(bytes[0] as int % 16)] + hex_of(
            bytes.drop_first(),
        )
    }
}

/// The content digest of encoded bytes: lowercase hex of their SHA-1.
pub open spec fn spec_digest(bytes: Seq<u8>) -> Seq<char> {
    hex_of(sha1_of(bytes))
}

/// Relies on sha1::Sha1 through Digest::digest: the returned digest
/// depends on the input bytes alone.
#[verifier::external_body]
fn sha1_digest(bytes: &Vec<u8>) -> (r: Vec<u8>)
    ensures
        r@ == sha1_of(bytes@),
{
    sha1::Sha1::digest(bytes.as_slice()).to_vec()
}

/// Relies on hex::encode: two lowercase hexadecimal digits per input
/// byte, high nibble first.
#[verifier::external_body]
fn hex_encode(bytes: &Vec<u8>) -> (r: String)
    ensures
        r@ == hex_of(bytes@),
{
    hex::encode(bytes.as_slice())
}

/// The content digest of encoded bytes, as stored and compared.
pub fn digest_hex(bytes: &Vec<u8>) -> (r: String)
    ensures
        r@ == spec_digest(bytes@),
{
    let d = sha1_digest(bytes);
    hex_encode(&d)
}

} // verus!
