//! Advisory verification of a chunk against the digest its origin advertised.
//! The outcome is reported to the caller; it never stops assembly.

use crate::digest::calculate_file_md5;
use crate::digest::calculate_file_sha1;
use crate::digest::calculate_file_sha256;
use crate::digest::hex_text;
use crate::digest::md5_of;
use crate::digest::sha1_of;
use crate::digest::sha256_of;
use vstd::prelude::*;
use vstd::utf8::encode_utf8;

verus! {

/// The digest algorithm that an expected hash of a given length names.
#[derive(Clone, Copy, Debug, PartialEq, Eq, Structural)]
pub enum HashAlgorithm {
    Md5,
    Sha1,
    Sha256,
}

/// The algorithm named by a hex digest of `len` characters, if any.
pub open spec fn algorithm_spec(len: nat) -> Option<HashAlgorithm> {
    if len == 32 {
        Some(HashAlgorithm::Md5)
    } else if len == 40 {
        Some(HashAlgorithm::Sha1)
    } else if len == 64 {
        Some(HashAlgorithm::Sha256)
    } else {
        None
    }
}

/// The lowercase hex text that `alg` yields on `data`.
pub open spec fn digest_text(alg: HashAlgorithm, data: Seq<u8>) -> Seq<char> {
    match alg {
        HashAlgorithm::Md5 => hex_text(md5_of(data)),
        HashAlgorithm::Sha1 => hex_text(sha1_of(data)),
        HashAlgorithm::Sha256 => hex_text(sha256_of(data)),
    }
}

/// Length in bytes of an expected hash, as UTF-8 text.
pub open spec fn hash_len(s: Seq<char>) -> nat {
    encode_utf8(s).len()
}

/// Picks the digest algorithm from the length of the expected hash:
/// 32 characters for MD5, 40 for SHA-1, 64 for SHA-256.
pub fn algorithm_for(len: usize) -> (r: Option<HashAlgorithm>)
    ensures
        r == algorithm_spec(len as nat),
{
    if len == 32 {
        Some(HashAlgorithm::Md5)
    } else if len == 40 {
        Some(HashAlgorithm::Sha1)
    } else if len == 64 {
        Some(HashAlgorithm::Sha256)
    } else {
        None
    }
}

/// Computes the digest that `alg` names over the whole of `data`, as hex text.
pub fn compute_digest(alg: HashAlgorithm, data: &[u8]) -> (r: String)
    ensures
        r@ == digest_text(alg, data@),
{
    match alg {
        HashAlgorithm::Md5 => calculate_file_md5(data),
        HashAlgorithm::Sha1 => calculate_file_sha1(data),
        HashAlgorithm::Sha256 => calculate_file_sha256(data),
    }
}

/// What checking one chunk against its expected hash found.
#[derive(Debug)]
pub enum HashOutcome {
    /// No hash was advertised; nothing was computed.
    Skipped,
    /// The expected hash has a length that names no algorithm; nothing was computed.
    UnknownAlgorithm,
    /// The computed digest equals the expected hash.
    Matched,
    /// The computed digest differs from the expected hash.
    Mismatch { actual: String },
}

/// The outcome of one chunk's check, with the chunk's position.
#[derive(Debug)]
pub struct ChunkVerdict {
    pub index: usize,
    pub outcome: HashOutcome,
}

/// Compares a computed digest with the expected one, exactly and case-sensitively.
pub fn judge_digest(expected: &str, actual: String) -> (r: HashOutcome)
    ensures
        actual@ == expected@ ==> r is Matched,
        actual@ != expected@ ==> r == (HashOutcome::Mismatch { actual }),
{
    let wanted = expected.to_owned();
    if actual == wanted {
        HashOutcome::Matched
    } else {
        HashOutcome::Mismatch { actual }
    }
}

/// Whether `r` is the outcome of checking `data` against `expected`.
pub open spec fn outcome_spec(r: HashOutcome, data: Seq<u8>, expected: Seq<char>) -> bool {
    if hash_len(expected) == 0 {
        r is Skipped
    } else {
        match algorithm_spec(hash_len(expected)) {
            None => r is UnknownAlgorithm,
            Some(alg) => if digest_text(alg, data) == expected {
                r is Matched
            } else {
                r matches HashOutcome::Mismatch { actual } && actual@ == digest_text(alg, data)
            },
        }
    }
}

/// Checks a chunk's bytes against the hash its origin advertised. An empty
/// expected hash skips the check; a length that names no algorithm computes
/// nothing; otherwise the digest over all of `data` is compared with it.
pub fn verify_chunk_hash(data: &[u8], expected_hash: &str, chunk_index: usize) -> (r: ChunkVerdict)
    ensures
        r.index == chunk_index,
        outcome_spec(r.outcome, data@, expected_hash@),
{
    let len = expected_hash.as_bytes().len();
    let outcome = if len == 0 {
        HashOutcome::Skipped
    } else {
        match algorithm_for(len) {
            None => HashOutcome::UnknownAlgorithm,
            Some(alg) => judge_digest(expected_hash, compute_digest(alg, data)),
        }
    };
    ChunkVerdict { index: chunk_index, outcome }
}

} // verus!
