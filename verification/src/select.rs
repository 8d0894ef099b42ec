//! Which of several candidates apply: the arithmetic behind "none, exactly
//! one, or too many" that both the reading of directive lines and the
//! matching of files rest on.

use vstd::prelude::*;

verus! {

/// The indices at which `flags` holds `true`, in rising order.
pub open spec fn hits(flags: Seq<bool>) -> Seq<int>
    decreases flags.len(),
{
    if flags.len() == 0 {
        Seq::empty()
    } else if flags.last() {
        hits(flags.drop_last()).push(flags.len() - 1)
    } else {
        hits(flags.drop_last())
    }
}

/// One more flag adds its index to the hits where it is set, and nothing
/// where it is not.
pub proof fn lemma_hits_push(flags: Seq<bool>, flag: bool)
    ensures
        hits(flags.push(flag)) == if flag {
            hits(flags).push(flags.len() as int)
        } else {
            hits(flags)
        },
{
    assert(flags.push(flag).drop_last() =~= flags);
}

/// Every hit is the index of a set flag, and the hits rise.
pub proof fn lemma_hits_are_set(flags: Seq<bool>)
    ensures
        hits(flags).len() <= flags.len(),
        forall|k: int|
            0 <= k < hits(flags).len() ==> 0 <= #[trigger] hits(flags)[k] < flags.len()
                && flags[hits(flags)[k]],
        forall|j: int, k: int|
            0 <= j < k < hits(flags).len() ==> #[trigger] hits(flags)[j] < #[trigger] hits(
                flags,
            )[k],
    decreases flags.len(),
{
    if flags.len() > 0 {
        lemma_hits_are_set(flags.drop_last());
    }
}

/// Every set flag is among the hits.
pub proof fn lemma_set_is_hit(flags: Seq<bool>, i: int)
    requires
        0 <= i < flags.len(),
        flags[i],
    ensures
        hits(flags).contains(i),
    decreases flags.len(),
{
    if i == flags.len() - 1 {
        assert(hits(flags).last() == i);
    } else {
        lemma_set_is_hit(flags.drop_last(), i);
        let earlier = hits(flags.drop_last());
        let k = choose|k: int| 0 <= k < earlier.len() && earlier[k] == i;
        assert(hits(flags)[k] == i);
    }
}

/// The hits among the first `n` flags are the first hits among all of them.
pub proof fn lemma_hits_prefix(flags: Seq<bool>, n: int)
    requires
        0 <= n <= flags.len(),
    ensures
        hits(flags.take(n)).len() <= hits(flags).len(),
        hits(flags.take(n)) == hits(flags).take(hits(flags.take(n)).len() as int),
    decreases flags.len() - n,
{
    if n == flags.len() {
        assert(flags.take(n) =~= flags);
        assert(hits(flags).take(hits(flags).len() as int) =~= hits(flags));
    } else {
        lemma_hits_prefix(flags, n + 1);
        let longer = flags.take(n + 1);
        assert(longer.drop_last() =~= flags.take(n));
        let count = hits(flags.take(n)).len() as int;
        assert(hits(flags.take(n)) =~= hits(longer).take(count));
        assert(hits(longer).take(count) =~= hits(flags).take(count));
    }
}

/// Where no flag is set there is no hit, and the other way round.
pub proof fn lemma_no_hit(flags: Seq<bool>)
    ensures
        hits(flags).len() == 0 <==> forall|i: int| 0 <= i < flags.len() ==> !flags[i],
{
    lemma_hits_are_set(flags);
    if hits(flags).len() == 0 {
        assert forall|i: int| 0 <= i < flags.len() implies !flags[i] by {
            if flags[i] {
                lemma_set_is_hit(flags, i);
            }
        }
    } else {
        assert(flags[hits(flags)[0]]);
    }
}

/// Where exactly one flag is set, its index is the one hit.
pub proof fn lemma_one_hit(flags: Seq<bool>, i: int)
    requires
        0 <= i < flags.len(),
        flags[i],
        forall|j: int| 0 <= j < flags.len() && j != i ==> !flags[j],
    ensures
        hits(flags) == seq![i],
{
    lemma_hits_are_set(flags);
    lemma_set_is_hit(flags, i);
    let found = hits(flags);
    assert forall|k: int| 0 <= k < found.len() implies found[k] == i by {
        assert(flags[found[k]]);
    }
    if found.len() >= 2 {
        assert(found[0] < found[1]);
    }
    assert(found =~= seq![i]);
}

/// Where two flags are set, there are at least two hits.
pub proof fn lemma_two_hits(flags: Seq<bool>, i: int, j: int)
    requires
        0 <= i < j < flags.len(),
        flags[i],
        flags[j],
    ensures
        hits(flags).len() >= 2,
{
    lemma_set_is_hit(flags, i);
    lemma_set_is_hit(flags, j);
}

} // verus!
