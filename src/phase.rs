//! The barrier at the end of a phase of concurrent per-chunk work: results
//! come back in chunk order and the first failure by chunk number decides.

use vstd::prelude::*;

verus! {

/// `e` is the error at the lowest-numbered failed position of `s`.
pub open spec fn first_failure<T, E>(s: Seq<Result<T, E>>, e: E) -> bool {
    exists|k: int|
        0 <= k < s.len() && #[trigger] s[k] == Err::<T, E>(e) && forall|j: int|
            0 <= j < k ==> #[trigger] s[j] is Ok
}

/// All values, in order, when every result is a success; otherwise the error
/// of the lowest-numbered failure.
pub fn settle<T, E>(results: Vec<Result<T, E>>) -> (r: Result<Vec<T>, E>)
    ensures
        match r {
            Ok(values) => {
                &&& values@.len() == results@.len()
                &&& forall|i: int|
                    0 <= i < results@.len() ==> #[trigger] results@[i] == Ok::<T, E>(values@[i])
            },
            Err(e) => first_failure(results@, e),
        },
{
    let ghost orig = results@;
    let n = results.len();
    let mut rest = results;
    let mut values: Vec<T> = Vec::new();
    let mut i: usize = 0;
    while rest.len() > 0
        invariant
            i + rest@.len() == orig.len(),
            orig.len() == n,
            orig == results@,
            rest@ == orig.subrange(i as int, orig.len() as int),
            values@.len() == i,
            forall|j: int| 0 <= j < i ==> #[trigger] orig[j] == Ok::<T, E>(values@[j]),
        decreases rest@.len(),
    {
        let item = rest.remove(0);
        let ghost it = item;
        assert(it == orig[i as int]);
        match item {
            Ok(v) => {
                values.push(v);
            },
            Err(e) => {
                assert(forall|j: int| 0 <= j < i ==> #[trigger] orig[j] is Ok);
                assert(orig[i as int] == Err::<T, E>(e));
                return Err(e);
            },
        }
        assert(rest@ =~= orig.subrange(i + 1, orig.len() as int));
        i = i + 1;
    }
    Ok(values)
}

} // verus!
