//! Metadata probe: turns the status and headers of a body-less response into
//! a chunk's size and advertised hash.

use crate::phase::first_failure;
use crate::phase::settle;
use vstd::prelude::*;

verus! {

/// Size and advertised digest of one chunk. `hash` is empty when the origin
/// gave no entity tag.
pub struct FileMeta {
    pub size: i64,
    pub hash: String,
}

/// Why a metadata probe failed. Either one aborts the whole run.
#[derive(Clone, Copy, Debug, PartialEq, Eq, Structural)]
pub enum ProbeError {
    /// The response status was not 200.
    BadStatus(u16),
    /// The length header was missing or not an integer.
    InvalidContentLength,
}

pub open spec fn is_digit(b: u8) -> bool {
    48 <= b <= 57
}

pub open spec fn all_digits(s: Seq<u8>) -> bool {
    s.len() > 0 && forall|i: int| 0 <= i < s.len() ==> is_digit(#[trigger] s[i])
}

/// The value of a string of decimal digits, most significant first.
pub open spec fn digits_value(s: Seq<u8>) -> nat
    decreases s.len(),
{
    if s.len() == 0 {
        0
    } else {
        digits_value(s.drop_last()) * 10 + (s.last() - 48) as nat
    }
}

/// The integer written in `s`: an optional `+` or `-`, then one or more
/// decimal digits, nothing else.
pub open spec fn decimal_value(s: Seq<u8>) -> Option<int> {
    if s.len() > 0 && s[0] == 45 && all_digits(s.drop_first()) {
        Some(-digits_value(s.drop_first()))
    } else if s.len() > 0 && s[0] == 43 && all_digits(s.drop_first()) {
        Some(digits_value(s.drop_first()) as int)
    } else if all_digits(s) {
        Some(digits_value(s) as int)
    } else {
        None
    }
}

/// The `i64` that `s` denotes, if it is well formed and in range.
pub open spec fn parse_i64_spec(s: Seq<u8>) -> Option<i64> {
    match decimal_value(s) {
        Some(v) => if i64::MIN <= v <= i64::MAX {
            Some(v as i64)
        } else {
            None
        },
        None => None,
    }
}

/// Saturation bound for digit accumulation: above the magnitude of any `i64`.
const DIGITS_CAP: u128 = 0x8000_0000_0000_0001;

/// Value of the digits `s[start..]`, saturated at `DIGITS_CAP`; `None` if any
/// byte there is not a digit or there is none.
fn digits_capped(s: &[u8], start: usize) -> (r: Option<u128>)
    requires
        start <= s@.len(),
    ensures
        all_digits(s@.subrange(start as int, s@.len() as int)) <==> r.is_some(),
        r.is_some() ==> r.unwrap() as int == if digits_value(
            s@.subrange(start as int, s@.len() as int),
        ) < DIGITS_CAP {
            digits_value(s@.subrange(start as int, s@.len() as int)) as int
        } else {
            DIGITS_CAP as int
        },
{
    if start == s.len() {
        assert(!all_digits(s@.subrange(start as int, s@.len() as int)));
        return None;
    }
    let mut acc: u128 = 0;
    let mut i: usize = start;
    while i < s.len()
        invariant
            start <= i <= s@.len(),
            start < s@.len(),
            all_digits(s@.subrange(start as int, i as int)) || i == start,
            acc as int == if digits_value(s@.subrange(start as int, i as int)) < DIGITS_CAP {
                digits_value(s@.subrange(start as int, i as int)) as int
            } else {
                DIGITS_CAP as int
            },
        decreases s@.len() - i,
    {
        let b = s[i];
        let ghost prev = s@.subrange(start as int, i as int);
        let ghost next = s@.subrange(start as int, i + 1);
        assert(next.drop_last() =~= prev);
        if b < 48 || b > 57 {
            assert(!all_digits(s@.subrange(start as int, s@.len() as int))) by {
                let k = i - start;
                assert(s@.subrange(start as int, s@.len() as int)[k as int] == b);
            }
            return None;
        }
        if acc < DIGITS_CAP {
            let v = acc * 10 + (b - 48) as u128;
            acc = if v < DIGITS_CAP { v } else { DIGITS_CAP };
        } else {
            assert(digits_value(next) >= digits_value(prev));
        }
        assert forall|j: int| 0 <= j < next.len() implies is_digit(#[trigger] next[j]) by {
            if j < prev.len() {
                assert(next[j] == prev[j]);
            }
        }
        i = i + 1;
    }
    assert(s@.subrange(start as int, s@.len() as int) =~= s@.subrange(start as int, i as int));
    Some(acc)
}

/// Reads a length header as Rust reads an `i64` from text: an optional sign
/// and one or more decimal digits, within the range of `i64`.
pub fn parse_content_length(s: &[u8]) -> (r: Option<i64>)
    ensures
        r == parse_i64_spec(s@),
{
    if s.len() > 0 && s[0] == 45 {
        assert(s@.subrange(1, s@.len() as int) =~= s@.drop_first());
        match digits_capped(s, 1) {
            None => None,
            Some(m) => if m <= 0x8000_0000_0000_0000 {
                if m == 0x8000_0000_0000_0000 {
                    Some(i64::MIN)
                } else {
                    Some(-(m as i64))
                }
            } else {
                None
            },
        }
    } else if s.len() > 0 && s[0] == 43 {
        assert(s@.subrange(1, s@.len() as int) =~= s@.drop_first());
        match digits_capped(s, 1) {
            None => None,
            Some(m) => if m <= 0x7fff_ffff_ffff_ffff {
                Some(m as i64)
            } else {
                None
            },
        }
    } else {
        assert(s@.subrange(0, s@.len() as int) =~= s@);
        match digits_capped(s, 0) {
            None => None,
            Some(m) => if m <= 0x7fff_ffff_ffff_ffff {
                Some(m as i64)
            } else {
                None
            },
        }
    }
}

/// The metadata that a probe response yields, or why it yields none.
pub open spec fn meta_spec(
    status: u16,
    content_length: Option<Seq<u8>>,
    etag: Option<Seq<char>>,
    r: Result<FileMeta, ProbeError>,
) -> bool {
    if status != 200 {
        r == Err::<FileMeta, ProbeError>(ProbeError::BadStatus(status))
    } else {
        match content_length {
            None => r == Err::<FileMeta, ProbeError>(ProbeError::InvalidContentLength),
            Some(text) => match parse_i64_spec(text) {
                None => r == Err::<FileMeta, ProbeError>(ProbeError::InvalidContentLength),
                Some(size) => r matches Ok(m) && m.size == size && m.hash@ == match etag {
                    Some(t) => t,
                    None => Seq::<char>::empty(),
                },
            },
        }
    }
}

/// Reads a probe response: status 200 is required, then a length header
/// that holds an integer; the entity tag, if present, is the advertised hash.
pub fn file_meta_from_response(
    status: u16,
    content_length: Option<&[u8]>,
    etag: Option<String>,
) -> (r: Result<FileMeta, ProbeError>)
    ensures
        meta_spec(
            status,
            match content_length {
                Some(b) => Some(b@),
                None => None,
            },
            match etag {
                Some(t) => Some(t@),
                None => None,
            },
            r,
        ),
{
    if status != 200 {
        return Err(ProbeError::BadStatus(status));
    }
    let size = match content_length {
        None => return Err(ProbeError::InvalidContentLength),
        Some(text) => match parse_content_length(text) {
            None => return Err(ProbeError::InvalidContentLength),
            Some(n) => n,
        },
    };
    let hash = match etag {
        Some(t) => t,
        None => String::new(),
    };
    Ok(FileMeta { size, hash })
}

/// The advertised hashes of all chunks, in chunk order, once every probe has
/// succeeded; otherwise the error of the lowest-numbered failed probe.
pub fn collect_hashes<E>(results: Vec<Result<FileMeta, E>>) -> (r: Result<Vec<String>, E>)
    ensures
        match r {
            Ok(hashes) => {
                &&& hashes@.len() == results@.len()
                &&& forall|i: int|
                    0 <= i < results@.len() ==> (#[trigger] results@[i] matches Ok(m)
                        && hashes@[i] == m.hash)
            },
            Err(e) => first_failure(results@, e),
        },
{
    match settle(results) {
        Err(e) => Err(e),
        Ok(metas) => {
            let mut hashes: Vec<String> = Vec::new();
            let mut i: usize = 0;
            while i < metas.len()
                invariant
                    i <= metas@.len(),
                    metas@.len() == results@.len(),
                    forall|k: int| 0 <= k < metas@.len() ==> #[trigger] results@[k] == Ok::<FileMeta, E>(metas@[k]),
                    hashes@.len() == i,
                    forall|k: int| 0 <= k < i ==> #[trigger] hashes@[k] == metas@[k].hash,
                decreases metas@.len() - i,
            {
                hashes.push(metas[i].hash.clone());
                i = i + 1;
            }
            assert forall|k: int| 0 <= k < results@.len() implies (#[trigger] results@[k] matches Ok(m)
                && hashes@[k] == m.hash) by {
                assert(results@[k] == Ok::<FileMeta, E>(metas@[k]));
                assert(hashes@[k] == metas@[k].hash);
            }
            Ok(hashes)
        },
    }
}

} // verus!
