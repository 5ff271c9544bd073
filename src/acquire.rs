//! Acquisition of one chunk's bytes: from the local cache when caching is on
//! and the entry exists, else from the network, storing what was fetched.
//! The caller performs each action and reports back what happened.

use vstd::prelude::*;
use vstd::string::StringSliceAdditionalSpecFns;

verus! {

pub open spec fn is_slash(b: u8) -> bool {
    b == 47
}

/// Start of the path segment that ends at `end`: one past the last `/`
/// before `end`, or zero.
pub open spec fn segment_start(s: Seq<u8>, end: int) -> int
    decreases end,
{
    if end <= 0 {
        0
    } else if is_slash(s[end - 1]) {
        end
    } else {
        segment_start(s, end - 1)
    }
}

/// A segment that names something: neither empty nor `.`.
pub open spec fn names_entry(s: Seq<u8>, a: int, b: int) -> bool {
    b > a && !(b - a == 1 && s[a] == 46)
}

pub open spec fn is_parent(s: Seq<u8>, a: int, b: int) -> bool {
    b - a == 2 && s[a] == 46 && s[a + 1] == 46
}

/// The final component of the path `s[..end]`, read from the back as paths
/// are: empty segments and `.` are passed over; `..` or no component at all
/// gives none.
pub open spec fn name_before(s: Seq<u8>, end: int) -> Option<(int, int)>
    decreases end,
{
    let a = segment_start(s, end);
    if end <= 0 || a > end {
        None
    } else if names_entry(s, a, end) {
        if is_parent(s, a, end) {
            None
        } else {
            Some((a, end))
        }
    } else if a == 0 {
        None
    } else {
        name_before(s, a - 1)
    }
}

pub open spec fn file_name_span(s: Seq<u8>) -> Option<(int, int)> {
    name_before(s, s.len() as int)
}

proof fn lemma_segment_start_bounds(s: Seq<u8>, end: int)
    requires
        0 <= end <= s.len(),
    ensures
        0 <= segment_start(s, end) <= end,
        segment_start(s, end) > 0 ==> is_slash(s[segment_start(s, end) - 1]),
        forall|k: int| segment_start(s, end) <= k < end ==> !is_slash(#[trigger] s[k]),
    decreases end,
{
    if end > 0 && !is_slash(s[end - 1]) {
        lemma_segment_start_bounds(s, end - 1);
    }
}

/// Byte range, within `url`, of the name that its cache entry is stored
/// under: the locator's final path component.
pub fn cache_name_span(url: &str) -> (r: Option<(usize, usize)>)
    ensures
        match r {
            Some((a, b)) => file_name_span(url.spec_bytes()) == Some((a as int, b as int)),
            None => file_name_span(url.spec_bytes()) is None,
        },
        r matches Some((a, b)) ==> a < b <= url.spec_bytes().len() && forall|k: int|
            a <= k < b ==> !is_slash(#[trigger] url.spec_bytes()[k]),
{
    let s = url.as_bytes();
    let mut end: usize = s.len();
    loop
        invariant
            end <= s@.len(),
            s@ == url.spec_bytes(),
            file_name_span(s@) == name_before(s@, end as int),
        decreases end,
    {
        proof {
            lemma_segment_start_bounds(s@, end as int);
        }
        if end == 0 {
            return None;
        }
        let mut a: usize = end;
        while a > 0 && s[a - 1] != 47
            invariant
                a <= end,
                end <= s@.len(),
                segment_start(s@, end as int) == segment_start(s@, a as int),
            decreases a,
        {
            a = a - 1;
        }
        assert(segment_start(s@, a as int) == a);
        if end > a && !(end - a == 1 && s[a] == 46) {
            if end - a == 2 && s[a] == 46 && s[a + 1] == 46 {
                return None;
            }
            return Some((a, end));
        }
        if a == 0 {
            return None;
        }
        end = a - 1;
    }
}

/// What happened last while acquiring one chunk.
#[derive(Debug)]
pub enum ChunkEvent {
    /// Acquisition of the chunk begins.
    Started,
    /// The cache entry was read; these are its bytes.
    CacheHit(Vec<u8>),
    /// There is no readable cache entry.
    CacheMiss,
    /// The network returned the chunk's bytes.
    Fetched(Vec<u8>),
    /// The network fetch failed.
    FetchFailed,
    /// Storing the fetched bytes in the cache was attempted; whether it
    /// succeeded does not matter.
    CacheWritten(Vec<u8>),
}

/// What to do next for one chunk.
#[derive(Debug)]
pub enum ChunkAction {
    /// Read the chunk's cache entry.
    ReadCache,
    /// Fetch the chunk's full body from its locator.
    Fetch,
    /// Store these fetched bytes as the chunk's cache entry.
    WriteCache(Vec<u8>),
    /// The chunk's bytes are settled.
    Resolve(Vec<u8>),
    /// The chunk cannot be had; the run fails.
    Abort,
}

/// The action that follows `event` when caching is on or off.
pub open spec fn chunk_action(caching: bool, event: ChunkEvent) -> ChunkAction {
    match event {
        ChunkEvent::Started => if caching {
            ChunkAction::ReadCache
        } else {
            ChunkAction::Fetch
        },
        ChunkEvent::CacheHit(bytes) => ChunkAction::Resolve(bytes),
        ChunkEvent::CacheMiss => ChunkAction::Fetch,
        ChunkEvent::Fetched(bytes) => if caching {
            ChunkAction::WriteCache(bytes)
        } else {
            ChunkAction::Resolve(bytes)
        },
        ChunkEvent::FetchFailed => ChunkAction::Abort,
        ChunkEvent::CacheWritten(bytes) => ChunkAction::Resolve(bytes),
    }
}

/// Decides the next step for one chunk. With caching on, the cache is read
/// first and a hit is used as it stands; a fetch happens only on a miss, and
/// what it brings is stored before it is used. A failed store is not an error.
pub fn next_chunk_action(caching: bool, event: ChunkEvent) -> (r: ChunkAction)
    ensures
        r == chunk_action(caching, event),
{
    match event {
        ChunkEvent::Started => if caching {
            ChunkAction::ReadCache
        } else {
            ChunkAction::Fetch
        },
        ChunkEvent::CacheHit(bytes) => ChunkAction::Resolve(bytes),
        ChunkEvent::CacheMiss => ChunkAction::Fetch,
        ChunkEvent::Fetched(bytes) => if caching {
            ChunkAction::WriteCache(bytes)
        } else {
            ChunkAction::Resolve(bytes)
        },
        ChunkEvent::FetchFailed => ChunkAction::Abort,
        ChunkEvent::CacheWritten(bytes) => ChunkAction::Resolve(bytes),
    }
}

/// With caching on, a first run reads the cache, fetches on a miss and
/// stores exactly the fetched bytes before using them; a later run that finds
/// those bytes (or any bytes primed in the cache) uses them as they are, and
/// its next step is never a fetch.
pub proof fn lemma_cache_round_trip(fetched: Vec<u8>, cached: Vec<u8>)
    ensures
        chunk_action(true, ChunkEvent::Started) is ReadCache,
        chunk_action(true, ChunkEvent::CacheMiss) is Fetch,
        chunk_action(true, ChunkEvent::Fetched(fetched)) == ChunkAction::WriteCache(fetched),
        chunk_action(true, ChunkEvent::CacheWritten(fetched)) == ChunkAction::Resolve(fetched),
        chunk_action(true, ChunkEvent::CacheHit(fetched)) == ChunkAction::Resolve(fetched),
        chunk_action(true, ChunkEvent::CacheHit(cached)) == ChunkAction::Resolve(cached),
{
}

/// With caching off the cache is never touched: the first step is a fetch and
/// fetched bytes are used directly.
pub proof fn lemma_no_cache_without_caching(fetched: Vec<u8>)
    ensures
        chunk_action(false, ChunkEvent::Started) is Fetch,
        chunk_action(false, ChunkEvent::Fetched(fetched)) == ChunkAction::Resolve(fetched),
{
}

} // verus!
