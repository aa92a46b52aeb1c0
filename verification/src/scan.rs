//! The first finding in a sequence, and facts about filtered sequences.

use vstd::prelude::*;

verus! {

/// The first `Some` that `find` gives along `items`, if it gives any.
pub open spec fn first_some<A, B>(items: Seq<A>, find: spec_fn(A) -> Option<B>) -> Option<B>
    decreases items.len(),
{
    if items.len() == 0 {
        None
    } else {
        match first_some(items.drop_last(), find) {
            Some(found) => Some(found),
            None => find(items.last()),
        }
    }
}

/// A finding in the front part stands; without one the back part decides.
pub proof fn lemma_first_some_add<A, B>(front: Seq<A>, back: Seq<A>, find: spec_fn(A) -> Option<B>)
    ensures
        first_some(front + back, find) == match first_some(front, find) {
            Some(found) => Some(found),
            None => first_some(back, find),
        },
    decreases back.len(),
{
    if back.len() == 0 {
        assert(front + back =~= front);
    } else {
        assert((front + back).drop_last() =~= front + back.drop_last());
        assert((front + back).last() == back.last());
        lemma_first_some_add(front, back.drop_last(), find);
    }
}

/// The finding after one more item.
pub proof fn lemma_first_some_take<A, B>(items: Seq<A>, find: spec_fn(A) -> Option<B>, n: int)
    requires
        0 <= n < items.len(),
    ensures
        first_some(items.take(n + 1), find) == match first_some(items.take(n), find) {
            Some(found) => Some(found),
            None => find(items[n]),
        },
{
    assert(items.take(n + 1).drop_last() =~= items.take(n));
}

/// A finding among the first `n` items is the finding of the whole.
pub proof fn lemma_first_some_prefix<A, B>(items: Seq<A>, find: spec_fn(A) -> Option<B>, n: int)
    requires
        0 <= n <= items.len(),
        first_some(items.take(n), find) is Some,
    ensures
        first_some(items, find) == first_some(items.take(n), find),
{
    assert(items =~= items.take(n) + items.skip(n));
    lemma_first_some_add(items.take(n), items.skip(n), find);
}

/// There is no finding exactly when no item gives one.
pub proof fn lemma_first_some_none<A, B>(items: Seq<A>, find: spec_fn(A) -> Option<B>)
    ensures
        first_some(items, find) is None <==> forall|k: int|
            0 <= k < items.len() ==> find(#[trigger] items[k]) is None,
    decreases items.len(),
{
    if items.len() > 0 {
        lemma_first_some_none(items.drop_last(), find);
        if first_some(items, find) is None {
            assert forall|k: int| 0 <= k < items.len() implies find(#[trigger] items[k]) is None by {
                if k < items.len() - 1 {
                    assert(items.drop_last()[k] == items[k]);
                }
            }
        } else {
            if first_some(items.drop_last(), find) is Some {
                let k = choose|k: int|
                    0 <= k < items.drop_last().len() && !(find(#[trigger] items.drop_last()[k]) is None);
                assert(items.drop_last()[k] == items[k]);
            } else {
                assert(find(items[items.len() - 1]) is Some);
            }
        }
    }
}

/// A finding is what the first item that gives one gives.
pub proof fn lemma_first_some_witness<A, B>(items: Seq<A>, find: spec_fn(A) -> Option<B>) -> (at: int)
    requires
        first_some(items, find) is Some,
    ensures
        0 <= at < items.len(),
        find(items[at]) == first_some(items, find),
        forall|k: int| 0 <= k < at ==> find(#[trigger] items[k]) is None,
    decreases items.len(),
{
    if first_some(items.drop_last(), find) is Some {
        let at = lemma_first_some_witness(items.drop_last(), find);
        assert(items.drop_last()[at] == items[at]);
        assert forall|k: int| 0 <= k < at implies find(#[trigger] items[k]) is None by {
            assert(items.drop_last()[k] == items[k]);
        }
        at
    } else {
        lemma_first_some_none(items.drop_last(), find);
        let at = items.len() - 1;
        assert forall|k: int| 0 <= k < at implies find(#[trigger] items[k]) is None by {
            assert(items.drop_last()[k] == items[k]);
        }
        at
    }
}

/// Filtering keeps something exactly when some item passes.
pub proof fn lemma_filter_nonempty<A>(items: Seq<A>, keep: spec_fn(A) -> bool)
    ensures
        items.filter(keep).len() > 0 <==> exists|k: int| 0 <= k < items.len() && keep(#[trigger] items[k]),
    decreases items.len(),
{
    reveal(Seq::filter);
    if items.len() > 0 {
        lemma_filter_nonempty(items.drop_last(), keep);
        if items.filter(keep).len() > 0 {
            if keep(items.last()) {
                assert(keep(items[items.len() - 1]));
            } else {
                let k = choose|k: int|
                    0 <= k < items.drop_last().len() && keep(#[trigger] items.drop_last()[k]);
                assert(items.drop_last()[k] == items[k]);
            }
        } else {
            assert forall|k: int| 0 <= k < items.len() implies !keep(#[trigger] items[k]) by {
                if k < items.len() - 1 {
                    assert(items.drop_last()[k] == items[k]);
                }
            }
        }
    }
}

/// The filtered sequence after one more item.
pub proof fn lemma_filter_take<A>(items: Seq<A>, keep: spec_fn(A) -> bool, n: int)
    requires
        0 <= n < items.len(),
    ensures
        items.take(n + 1).filter(keep) == if keep(items[n]) {
            items.take(n).filter(keep).push(items[n])
        } else {
            items.take(n).filter(keep)
        },
{
    reveal(Seq::filter);
    assert(items.take(n + 1).drop_last() =~= items.take(n));
}

/// Whether `picks` ascends strictly.
pub open spec fn ascending(picks: Seq<int>) -> bool {
    forall|a: int, b: int| 0 <= a < b < picks.len() ==> picks[a] < picks[b]
}

/// The positions that a filter keeps: they ascend, each passes the test,
/// the kept items are the items at these positions in the same order, and
/// no position that passes is left out.
pub proof fn lemma_filter_picks<A>(items: Seq<A>, keep: spec_fn(A) -> bool) -> (picks: Seq<int>)
    ensures
        picks.len() == items.filter(keep).len(),
        ascending(picks),
        forall|m: int|
            0 <= m < picks.len() ==> 0 <= #[trigger] picks[m] < items.len() && keep(
                items[picks[m]],
            ) && items.filter(keep)[m] == items[picks[m]],
        forall|k: int| 0 <= k < items.len() && keep(items[k]) ==> #[trigger] picks.contains(k),
    decreases items.len(),
{
    reveal(Seq::filter);
    if items.len() == 0 {
        Seq::empty()
    } else {
        let front = lemma_filter_picks(items.drop_last(), keep);
        let last = items.len() - 1;
        assert forall|m: int| 0 <= m < front.len() implies items.drop_last()[#[trigger] front[m]]
            == items[front[m]] by {}
        if keep(items.last()) {
            let picks = front.push(last);
            assert forall|k: int| 0 <= k < items.len() && keep(items[k]) implies #[trigger] picks.contains(
                k,
            ) by {
                if k < last {
                    assert(items.drop_last()[k] == items[k]);
                    assert(front.contains(k));
                    let m = choose|m: int| 0 <= m < front.len() && front[m] == k;
                    assert(picks[m] == k);
                } else {
                    assert(picks[front.len() as int] == k);
                }
            }
            picks
        } else {
            assert forall|k: int| 0 <= k < items.len() && keep(items[k]) implies #[trigger] front.contains(
                k,
            ) by {
                assert(items.drop_last()[k] == items[k]);
            }
            front
        }
    }
}

} // verus!
