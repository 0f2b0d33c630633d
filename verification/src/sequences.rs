//! Prefixes of sequences.

use vstd::prelude::*;

verus! {

/// The first `n` items of `longer` are `shorter`.
pub open spec fn is_prefix<T>(shorter: Seq<T>, longer: Seq<T>) -> bool {
    shorter.len() <= longer.len() && longer.take(shorter.len() as int) == shorter
}

/// A sequence is a prefix of itself with one more item.
pub proof fn lemma_prefix_push<T>(items: Seq<T>, item: T)
    ensures
        is_prefix(items, items.push(item)),
{
    assert(items.push(item).take(items.len() as int) =~= items);
}

/// A prefix of a prefix is a prefix.
pub proof fn lemma_prefix_chain<T>(first: Seq<T>, second: Seq<T>, third: Seq<T>)
    requires
        is_prefix(first, second),
        is_prefix(second, third),
    ensures
        is_prefix(first, third),
{
    assert(third.take(first.len() as int) =~= second.take(first.len() as int)) by {
        assert forall|i: int| 0 <= i < first.len() implies third.take(first.len() as int)[i]
            == second.take(first.len() as int)[i] by {
            assert(third.take(second.len() as int)[i] == second[i]);
        }
    }
}

/// A sequence is a prefix of itself.
pub proof fn lemma_prefix_same<T>(items: Seq<T>)
    ensures
        is_prefix(items, items),
{
    assert(items.take(items.len() as int) =~= items);
}

} // verus!
