//! The per-run table of chunk payloads and the in-order assembly of the
//! output from it.

use crate::check::outcome_spec;
use crate::check::verify_chunk_hash;
use crate::check::ChunkVerdict;
use crate::phase::first_failure;
use crate::phase::settle;
use vstd::prelude::*;

verus! {

pub open spec fn slot_view(o: Option<Vec<u8>>) -> Option<Seq<u8>> {
    match o {
        Some(v) => Some(v@),
        None => None,
    }
}

/// One slot per chunk, each filled at most once, in chunk order.
pub struct ChunkTable {
    slots: Vec<Option<Vec<u8>>>,
}

impl View for ChunkTable {
    type V = Seq<Option<Seq<u8>>>;

    closed spec fn view(&self) -> Seq<Option<Seq<u8>>> {
        self.slots@.map_values(|o: Option<Vec<u8>>| slot_view(o))
    }
}

impl ChunkTable {
    /// A table of `n` empty slots.
    pub fn new(n: usize) -> (r: ChunkTable)
        ensures
            r@.len() == n,
            forall|i: int| 0 <= i < n ==> #[trigger] r@[i] is None,
    {
        let mut slots: Vec<Option<Vec<u8>>> = Vec::new();
        let mut i: usize = 0;
        while i < n
            invariant
                i <= n,
                slots@.len() == i,
                forall|j: int| 0 <= j < i ==> #[trigger] slots@[j] is None,
            decreases n - i,
        {
            slots.push(None);
            i = i + 1;
        }
        ChunkTable { slots }
    }

    pub fn len(&self) -> (r: usize)
        ensures
            r == self@.len(),
    {
        self.slots.len()
    }

    /// Whether slot `i` has been filled.
    pub fn is_filled(&self, i: usize) -> (r: bool)
        requires
            i < self@.len(),
        ensures
            r == self@[i as int] is Some,
    {
        self.slots[i].is_some()
    }

    /// Fills the empty slot `i` with a chunk's bytes; the other slots keep
    /// what they hold.
    pub fn deposit(&mut self, i: usize, bytes: Vec<u8>)
        requires
            i < old(self)@.len(),
            old(self)@[i as int] is None,
        ensures
            final(self)@ == old(self)@.update(i as int, Some(bytes@)),
    {
        self.slots.set(i, Some(bytes));
        assert(self@ =~= old(self)@.update(i as int, Some(bytes@)));
    }
}

/// The bytes of the filled slots, concatenated in slot order.
pub open spec fn present_concat(slots: Seq<Option<Seq<u8>>>) -> Seq<u8>
    decreases slots.len(),
{
    if slots.len() == 0 {
        Seq::empty()
    } else {
        present_concat(slots.drop_last()) + match slots.last() {
            Some(b) => b,
            None => Seq::empty(),
        }
    }
}

/// The assembled output and each chunk's hash verdict.
pub struct Assembly {
    /// The output file's bytes.
    pub bytes: Vec<u8>,
    /// For each chunk, the verdict on its bytes; none for an empty slot.
    pub verdicts: Vec<Option<ChunkVerdict>>,
}

/// `r` is the assembly of `slots` under the expected `hashes`: the filled
/// slots' bytes in slot order, and one verdict per filled slot.
pub open spec fn assembled(r: Assembly, slots: Seq<Option<Seq<u8>>>, hashes: Seq<String>) -> bool {
    &&& r.bytes@ == present_concat(slots)
    &&& r.verdicts@.len() == slots.len()
    &&& forall|i: int|
        0 <= i < slots.len() ==> match (#[trigger] r.verdicts@[i], slots[i]) {
            (Some(v), Some(data)) => v.index == i && outcome_spec(v.outcome, data, hashes[i]@),
            (None, None) => true,
            _ => false,
        }
}

/// Assembles the output from a table of payloads: every filled slot is
/// checked against its expected hash and its bytes are appended, in chunk
/// order. Empty slots are passed over. A verdict never keeps bytes out.
pub fn assemble(table: &ChunkTable, hashes: &Vec<String>) -> (r: Assembly)
    requires
        hashes@.len() == table@.len(),
    ensures
        assembled(r, table@, hashes@),
{
    let n = table.slots.len();
    let mut bytes: Vec<u8> = Vec::new();
    let mut verdicts: Vec<Option<ChunkVerdict>> = Vec::new();
    let mut i: usize = 0;
    while i < n
        invariant
            i <= n,
            n == table@.len(),
            hashes@.len() == n,
            bytes@ == present_concat(table@.subrange(0, i as int)),
            verdicts@.len() == i,
            forall|k: int|
                0 <= k < i ==> match (#[trigger] verdicts@[k], table@[k]) {
                    (Some(v), Some(data)) => v.index == k && outcome_spec(
                        v.outcome,
                        data,
                        hashes@[k]@,
                    ),
                    (None, None) => true,
                    _ => false,
                },
        decreases n - i,
    {
        let ghost before = bytes@;
        assert(table@.subrange(0, i + 1).drop_last() =~= table@.subrange(0, i as int));
        match &table.slots[i] {
            Some(data) => {
                let verdict = verify_chunk_hash(data.as_slice(), hashes[i].as_str(), i);
                let mut j: usize = 0;
                while j < data.len()
                    invariant
                        j <= data@.len(),
                        bytes@ == before + data@.subrange(0, j as int),
                    decreases data@.len() - j,
                {
                    bytes.push(data[j]);
                    assert(before + data@.subrange(0, j + 1) =~= (before + data@.subrange(
                        0,
                        j as int,
                    )).push(data@[j as int]));
                    j = j + 1;
                }
                assert(data@.subrange(0, j as int) =~= data@);
                verdicts.push(Some(verdict));
            },
            None => {
                assert(before =~= before + Seq::<u8>::empty());
                verdicts.push(None);
            },
        }
        i = i + 1;
    }
    assert(table@.subrange(0, n as int) =~= table@);
    Assembly { bytes, verdicts }
}

/// Concatenating the filled slots of two adjacent runs of slots is the same
/// as concatenating those of the whole.
pub proof fn lemma_present_concat_append(a: Seq<Option<Seq<u8>>>, b: Seq<Option<Seq<u8>>>)
    ensures
        present_concat(a + b) == present_concat(a) + present_concat(b),
    decreases b.len(),
{
    if b.len() == 0 {
        assert(a + b =~= a);
        assert(present_concat(a) + present_concat(b) =~= present_concat(a));
    } else {
        lemma_present_concat_append(a, b.drop_last());
        assert((a + b).drop_last() =~= a + b.drop_last());
        assert((a + b).last() == b.last());
        let tail = match b.last() {
            Some(x) => x,
            None => Seq::<u8>::empty(),
        };
        assert(present_concat(a) + present_concat(b.drop_last()) + tail =~= present_concat(a) + (
        present_concat(b.drop_last()) + tail));
    }
}

/// When every chunk's bytes have been deposited, in whatever order, the
/// output is exactly the chunks' bytes concatenated in chunk order.
pub proof fn lemma_full_table_concatenates_in_order(
    slots: Seq<Option<Seq<u8>>>,
    payloads: Seq<Seq<u8>>,
)
    requires
        slots.len() == payloads.len(),
        forall|i: int| 0 <= i < slots.len() ==> #[trigger] slots[i] == Some(payloads[i]),
    ensures
        present_concat(slots) == payloads.flatten(),
    decreases slots.len(),
{
    payloads.lemma_flatten_and_flatten_alt_are_equivalent();
    if slots.len() > 0 {
        lemma_full_table_concatenates_in_order(slots.drop_last(), payloads.drop_last());
        payloads.drop_last().lemma_flatten_and_flatten_alt_are_equivalent();
        assert(slots.last() == Some(payloads.last()));
    }
}

/// Deposits into two different slots give the same table in either order.
pub proof fn lemma_deposits_commute(
    slots: Seq<Option<Seq<u8>>>,
    i: int,
    j: int,
    a: Seq<u8>,
    b: Seq<u8>,
)
    requires
        0 <= i < slots.len(),
        0 <= j < slots.len(),
        i != j,
    ensures
        slots.update(i, Some(a)).update(j, Some(b)) == slots.update(j, Some(b)).update(i, Some(a)),
{
    assert(slots.update(i, Some(a)).update(j, Some(b)) =~= slots.update(j, Some(b)).update(
        i,
        Some(a),
    ));
}

/// A filled slot's bytes stand in the output right after those of the slots
/// before it and right before those of the slots after it, whatever its hash
/// check found; the expected hashes play no part in the output.
pub proof fn lemma_chunk_stands_between_neighbours(slots: Seq<Option<Seq<u8>>>, i: int, data: Seq<u8>)
    requires
        0 <= i < slots.len(),
        slots[i] == Some(data),
    ensures
        present_concat(slots) == present_concat(slots.subrange(0, i)) + data + present_concat(
            slots.subrange(i + 1, slots.len() as int),
        ),
{
    let pre = slots.subrange(0, i);
    let one = slots.subrange(i, i + 1);
    let post = slots.subrange(i + 1, slots.len() as int);
    assert(slots =~= pre + one + post);
    lemma_present_concat_append(pre + one, post);
    lemma_present_concat_append(pre, one);
    assert(one.drop_last() =~= Seq::<Option<Seq<u8>>>::empty());
    assert(present_concat(one.drop_last()) == Seq::<u8>::empty());
    assert(one.last() == Some(data));
    assert(present_concat(one) =~= data);
}

/// Ends the acquisition phase: if every chunk's acquisition succeeded, the
/// assembly of the table; otherwise the error of the lowest-numbered chunk
/// that failed, and nothing is assembled.
pub fn finish_chunks<E>(table: &ChunkTable, hashes: &Vec<String>, results: Vec<Result<(), E>>) -> (r:
    Result<Assembly, E>)
    requires
        hashes@.len() == table@.len(),
    ensures
        match r {
            Ok(a) => (forall|i: int| 0 <= i < results@.len() ==> #[trigger] results@[i] is Ok)
                && assembled(a, table@, hashes@),
            Err(e) => first_failure(results@, e),
        },
{
    match settle(results) {
        Err(e) => Err(e),
        Ok(values) => {
            assert(forall|i: int|
                0 <= i < results@.len() ==> #[trigger] results@[i] == Ok::<(), E>(values@[i]));
            Ok(assemble(table, hashes))
        },
    }
}

} // verus!
