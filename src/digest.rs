//! Content digests of chunk bytes, written as lowercase hexadecimal text.

use md5::Md5;
use sha1::Digest;
use sha1::Sha1;
use sha2::Sha256;
use vstd::prelude::*;

verus! {

/// The 16-byte MD5 digest of a byte sequence.
pub uninterp spec fn md5_of(data: Seq<u8>) -> Seq<u8>;

/// The 20-byte SHA-1 digest of a byte sequence.
pub uninterp spec fn sha1_of(data: Seq<u8>) -> Seq<u8>;

/// The 32-byte SHA-256 digest of a byte sequence.
pub uninterp spec fn sha256_of(data: Seq<u8>) -> Seq<u8>;

/// The lowercase hexadecimal digit for a value below sixteen.
pub open spec fn hex_digit(v: u8) -> char {
    if v < 10 {
        ((v + 48) as u8) as char
    } else {
        ((v + 87) as u8) as char
    }
}

/// Lowercase hexadecimal text of a byte sequence: two digits per byte, high
/// nibble first.
pub open spec fn hex_text(b: Seq<u8>) -> Seq<char>
    decreases b.len(),
{
    if b.len() == 0 {
        Seq::empty()
    } else {
        hex_text(b.drop_last()) + seq![hex_digit(b.last() / 16), hex_digit(b.last() % 16)]
    }
}

pub proof fn lemma_hex_text_len(b: Seq<u8>)
    ensures
        hex_text(b).len() == 2 * b.len(),
    decreases b.len(),
{
    if b.len() > 0 {
        lemma_hex_text_len(b.drop_last());
    }
}

/// Relies on md5's `Digest::digest` for `Md5`: the 16-byte MD5 digest of `data`.
#[verifier::external_body]
fn md5_bytes(data: &[u8]) -> (r: Vec<u8>)
    ensures
        r@ == md5_of(data@),
        r@.len() == 16,
{
    Md5::digest(data).to_vec()
}

/// Relies on sha1's `Digest::digest` for `Sha1`: the 20-byte SHA-1 digest of `data`.
#[verifier::external_body]
fn sha1_bytes(data: &[u8]) -> (r: Vec<u8>)
    ensures
        r@ == sha1_of(data@),
        r@.len() == 20,
{
    Sha1::digest(data).to_vec()
}

/// Relies on sha2's `Digest::digest` for `Sha256`: the 32-byte SHA-256 digest of `data`.
#[verifier::external_body]
fn sha256_bytes(data: &[u8]) -> (r: Vec<u8>)
    ensures
        r@ == sha256_of(data@),
        r@.len() == 32,
{
    Sha256::digest(data).to_vec()
}

/// Relies on `hex::encode`: each byte becomes two lowercase hex digits, high
/// nibble first, in the order of the bytes.
#[verifier::external_body]
fn encode_hex(b: &[u8]) -> (r: String)
    ensures
        r@ == hex_text(b@),
{
    hex::encode(b)
}

/// Lowercase hex text of the SHA-256 digest of `data`.
pub fn calculate_file_sha256(data: &[u8]) -> (r: String)
    ensures
        r@ == hex_text(sha256_of(data@)),
        r@.len() == 64,
{
    let d = sha256_bytes(data);
    proof {
        lemma_hex_text_len(d@);
    }
    encode_hex(d.as_slice())
}

/// Lowercase hex text of the SHA-1 digest of `data`.
pub fn calculate_file_sha1(data: &[u8]) -> (r: String)
    ensures
        r@ == hex_text(sha1_of(data@)),
        r@.len() == 40,
{
    let d = sha1_bytes(data);
    proof {
        lemma_hex_text_len(d@);
    }
    encode_hex(d.as_slice())
}

/// Lowercase hex text of the MD5 digest of `data`.
pub fn calculate_file_md5(data: &[u8]) -> (r: String)
    ensures
        r@ == hex_text(md5_of(data@)),
        r@.len() == 32,
{
    let d = md5_bytes(data);
    proof {
        lemma_hex_text_len(d@);
    }
    encode_hex(d.as_slice())
}

} // verus!
