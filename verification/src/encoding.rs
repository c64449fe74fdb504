//! Hashing and text encodings of bytes: SHA-256, hex and Bech32.
use vstd::prelude::*;
use sha2::Digest;

verus! {

/// The SHA-256 digest of `data`.
pub uninterp spec fn sha256(data: Seq<u8>) -> Seq<u8>;

/// sha2's `Sha256::digest`: the digest of `data`, 32 bytes long.
/// Trusted: the bytes are SHA-256's; which bytes they are is not stated here.
#[verifier::external_body]
pub(crate) fn sha256_digest(data: &[u8]) -> (r: Vec<u8>)
    ensures
        r@ == sha256(data@),
        r@.len() == 32,
{
    sha2::Sha256::digest(data).to_vec()
}

/// The lower-case hex digit of a value below 16.
pub open spec fn hex_digit(v: u8) -> char {
    if v < 10 {
        ('0' as u8 + v) as char
    } else {
        ('a' as u8 + (v - 10)) as char
    }
}

/// Lower-case hex: two digits per byte, high nibble first.
pub open spec fn hex_lower(data: Seq<u8>) -> Seq<char>
    decreases data.len(),
{
    if data.len() == 0 {
        Seq::empty()
    } else {
        hex_lower(data.drop_last()) + seq![hex_digit(data.last() / 16), hex_digit(data.last() % 16)]
    }
}

/// hex's `encode`: the lower-case hex digits of `data`, two per byte, high nibble first.
/// Trusted: states the crate's documented output.
#[verifier::external_body]
pub(crate) fn hex_encode(data: &[u8]) -> (r: String)
    ensures
        r@ == hex_lower(data@),
{
    hex::encode(data)
}

/// The Bech32 (lower case) encoding of `data` with human-readable part `hrp`.
pub uninterp spec fn bech32_encoding(hrp: Seq<char>, data: Seq<u8>) -> Seq<char>;

/// subtle-encoding's `bech32::encode`: `hrp`, the separator `1`, then the
/// base-32 data and checksum characters.
/// Trusted: which characters follow the separator is not stated here.
#[verifier::external_body]
pub(crate) fn bech32_encode(hrp: &str, data: &[u8]) -> (r: String)
    ensures
        r@ == bech32_encoding(hrp@, data@),
        r@.len() > hrp@.len(),
        r@.take(hrp@.len() as int) == hrp@,
        r@[hrp@.len() as int] == '1',
{
    subtle_encoding::bech32::encode(hrp, data)
}

/// The hex encoding has two digits per byte.
pub proof fn lemma_hex_lower_len(data: Seq<u8>)
    ensures
        hex_lower(data).len() == 2 * data.len(),
    decreases data.len(),
{
    if data.len() > 0 {
        lemma_hex_lower_len(data.drop_last());
    }
}

} // verus!
