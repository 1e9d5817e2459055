//! Folding a sequence with a step that can fail.

use vstd::prelude::*;

verus! {

/// Runs `step` over `items` from the front, stopping at the first error.
pub open spec fn try_fold<A, T, E>(
    start: A,
    items: Seq<T>,
    step: spec_fn(A, T) -> Result<A, E>,
) -> Result<A, E>
    decreases items.len(),
{
    if items.len() == 0 {
        Ok(start)
    } else {
        match try_fold(start, items.drop_last(), step) {
            Ok(so_far) => step(so_far, items.last()),
            Err(e) => Err(e),
        }
    }
}

/// One more item is one more step.
pub proof fn lemma_try_fold_next<A, T, E>(
    start: A,
    items: Seq<T>,
    n: int,
    step: spec_fn(A, T) -> Result<A, E>,
)
    requires
        0 <= n < items.len(),
    ensures
        try_fold(start, items.take(n + 1), step) == (match try_fold(start, items.take(n), step) {
            Ok(so_far) => step(so_far, items[n]),
            Err(e) => Err(e),
        }),
{
    assert(items.take(n + 1).drop_last() =~= items.take(n));
    assert(items.take(n + 1).last() == items[n]);
}

/// An error on a part of the items is the error on all of them.
pub proof fn lemma_try_fold_stops<A, T, E>(
    start: A,
    items: Seq<T>,
    n: int,
    step: spec_fn(A, T) -> Result<A, E>,
)
    requires
        0 <= n <= items.len(),
        try_fold(start, items.take(n), step) is Err,
    ensures
        try_fold(start, items, step) == try_fold(start, items.take(n), step),
    decreases items.len(),
{
    if n < items.len() {
        assert(items.drop_last().take(n) =~= items.take(n));
        lemma_try_fold_stops(start, items.drop_last(), n, step);
    } else {
        assert(items.take(n) =~= items);
    }
}

/// Folding one list and then another is folding the two in a row.
pub proof fn lemma_try_fold_append<A, T, E>(
    start: A,
    first: Seq<T>,
    second: Seq<T>,
    step: spec_fn(A, T) -> Result<A, E>,
)
    ensures
        try_fold(start, first + second, step) == (match try_fold(start, first, step) {
            Ok(so_far) => try_fold(so_far, second, step),
            Err(e) => Err(e),
        }),
    decreases second.len(),
{
    if second.len() == 0 {
        assert(first + second =~= first);
    } else {
        lemma_try_fold_append(start, first, second.drop_last(), step);
        assert((first + second).drop_last() =~= first + second.drop_last());
        assert((first + second).last() == second.last());
    }
}

} // verus!
