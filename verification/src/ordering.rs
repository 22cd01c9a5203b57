//! Ordering scored moves: a stable sort by ascending score.

use vstd::prelude::*;
use itertools::Itertools;
use crate::square::Move;

verus! {

/// The items of `items` whose score is `score`, in their order.
pub open spec fn with_score(items: Seq<(Move, i32)>, score: i32) -> Seq<(Move, i32)>
    decreases items.len(),
{
    if items.len() == 0 {
        Seq::empty()
    } else {
        let earlier = with_score(items.drop_last(), score);
        if items.last().1 == score {
            earlier.push(items.last())
        } else {
            earlier
        }
    }
}

/// Whether the scores of `items` never go down.
pub open spec fn ascending(items: Seq<(Move, i32)>) -> bool {
    forall|i: int, j: int| 0 <= i < j < items.len() ==> items[i].1 <= items[j].1
}

/// Whether `sorted` is `unsorted` sorted stably by ascending score: it has
/// as many items, its scores never go down, and the items of each score
/// are those of `unsorted` with that score, in the same order.
pub open spec fn is_stable_ordering(unsorted: Seq<(Move, i32)>, sorted: Seq<(Move, i32)>) -> bool {
    &&& sorted.len() == unsorted.len()
    &&& ascending(sorted)
    &&& forall|score: i32| #[trigger] with_score(sorted, score) == with_score(unsorted, score)
}

/// `sorted` with `item` put in behind the last item whose score is no
/// greater than its own.
pub open spec fn insert_by_score(sorted: Seq<(Move, i32)>, item: (Move, i32)) -> Seq<(Move, i32)>
    decreases sorted.len(),
{
    if sorted.len() == 0 {
        seq![item]
    } else if sorted.last().1 <= item.1 {
        sorted.push(item)
    } else {
        insert_by_score(sorted.drop_last(), item).push(sorted.last())
    }
}

/// `unsorted` sorted stably by ascending score: its items put in one by
/// one, each behind those that came before it with a score no greater.
pub open spec fn stable_ordering(unsorted: Seq<(Move, i32)>) -> Seq<(Move, i32)>
    decreases unsorted.len(),
{
    if unsorted.len() == 0 {
        Seq::empty()
    } else {
        insert_by_score(stable_ordering(unsorted.drop_last()), unsorted.last())
    }
}

/// `Itertools::sorted_by` with a comparison of the scores: it collects the
/// items into a vector and sorts it with the stable sort of slices, so the
/// result is the input in ascending order of score, items of equal score in
/// the order in which they came.
#[verifier::external_body]
fn sorted_by_score(scored: Vec<(Move, i32)>) -> (sorted: Vec<(Move, i32)>)
    ensures
        is_stable_ordering(scored@, sorted@),
{
    scored.into_iter().sorted_by(|x, y| x.1.cmp(&y.1)).collect()
}

/// Every item of `with_score(items, score)` is an item of `items` and has
/// that score.
pub proof fn lemma_with_score_members(items: Seq<(Move, i32)>, score: i32)
    ensures
        forall|i: int|
            0 <= i < with_score(items, score).len() ==> (#[trigger] with_score(items, score)[i]).1
                == score && items.contains(with_score(items, score)[i]),
        with_score(items, score).len() <= items.len(),
    decreases items.len(),
{
    if items.len() > 0 {
        let earlier = items.drop_last();
        lemma_with_score_members(earlier, score);
        let picked = with_score(items, score);
        assert forall|i: int| 0 <= i < picked.len() implies (#[trigger] picked[i]).1 == score
            && items.contains(picked[i]) by {
            if i < with_score(earlier, score).len() {
                let item = with_score(earlier, score)[i];
                assert(earlier.contains(item));
                let j = choose|j: int| 0 <= j < earlier.len() && earlier[j] == item;
                assert(items[j] == item);
            } else {
                assert(picked[i] == items[items.len() - 1]);
            }
        }
    }
}

/// Every item of `items` is an item of `with_score(items, score)` for its
/// own score.
pub proof fn lemma_with_score_holds(items: Seq<(Move, i32)>, index: int)
    requires
        0 <= index < items.len(),
    ensures
        with_score(items, items[index].1).contains(items[index]),
    decreases items.len(),
{
    let score = items[index].1;
    let earlier = items.drop_last();
    if index == items.len() - 1 {
        let picked = with_score(items, score);
        assert(picked[picked.len() - 1] == items[index]);
    } else {
        lemma_with_score_holds(earlier, index);
        let before = with_score(earlier, score);
        let j = choose|j: int| 0 <= j < before.len() && before[j] == earlier[index];
        assert(with_score(items, score)[j] == items[index]);
    }
}

/// A stable ordering holds the items that were sorted and no others.
pub proof fn lemma_stable_ordering_members(unsorted: Seq<(Move, i32)>, sorted: Seq<(Move, i32)>)
    requires
        is_stable_ordering(unsorted, sorted),
    ensures
        forall|i: int| 0 <= i < sorted.len() ==> unsorted.contains(#[trigger] sorted[i]),
        forall|i: int| 0 <= i < unsorted.len() ==> sorted.contains(#[trigger] unsorted[i]),
{
    assert forall|i: int| 0 <= i < sorted.len() implies unsorted.contains(#[trigger] sorted[i]) by {
        let score = sorted[i].1;
        lemma_with_score_holds(sorted, i);
        assert(with_score(sorted, score) == with_score(unsorted, score));
        let picked = with_score(unsorted, score);
        let j = choose|j: int| 0 <= j < picked.len() && picked[j] == sorted[i];
        lemma_with_score_members(unsorted, score);
        assert(unsorted.contains(picked[j]));
    }
    assert forall|i: int| 0 <= i < unsorted.len() implies sorted.contains(
        #[trigger] unsorted[i],
    ) by {
        let score = unsorted[i].1;
        lemma_with_score_holds(unsorted, i);
        assert(with_score(sorted, score) == with_score(unsorted, score));
        let picked = with_score(sorted, score);
        let j = choose|j: int| 0 <= j < picked.len() && picked[j] == unsorted[i];
        lemma_with_score_members(sorted, score);
        assert(sorted.contains(picked[j]));
    }
}

/// Two sequences of equal length whose scores never go down, and which
/// hold the same items in the same order for each score, are equal.
pub proof fn lemma_ordering_unique(first: Seq<(Move, i32)>, second: Seq<(Move, i32)>)
    requires
        first.len() == second.len(),
        ascending(first),
        ascending(second),
        forall|score: i32| #[trigger] with_score(first, score) == with_score(second, score),
    ensures
        first == second,
    decreases first.len(),
{
    if first.len() > 0 {
        let a = first.last();
        let b = second.last();
        let first_rest = first.drop_last();
        let second_rest = second.drop_last();
        // the last score of each occurs in the other, so the two are equal
        assert(a.1 <= b.1) by {
            let picked = with_score(second, a.1);
            assert(with_score(first, a.1) == picked);
            assert(with_score(first, a.1).len() > 0);
            lemma_with_score_members(second, a.1);
            assert(second.contains(picked[0]));
            let j = choose|j: int| 0 <= j < second.len() && second[j] == picked[0];
            assert(second[j].1 == a.1);
            if j < second.len() - 1 {
                assert(second[j].1 <= second[second.len() - 1].1);
            }
        }
        assert(b.1 <= a.1) by {
            let picked = with_score(first, b.1);
            assert(with_score(second, b.1) == picked);
            assert(with_score(second, b.1).len() > 0);
            lemma_with_score_members(first, b.1);
            assert(first.contains(picked[0]));
            let j = choose|j: int| 0 <= j < first.len() && first[j] == picked[0];
            assert(first[j].1 == b.1);
            if j < first.len() - 1 {
                assert(first[j].1 <= first[first.len() - 1].1);
            }
        }
        let top = a.1;
        assert(with_score(first, top) == with_score(first_rest, top).push(a));
        assert(with_score(second, top) == with_score(second_rest, top).push(b));
        assert(with_score(first, top) == with_score(second, top));
        assert(a == b) by {
            assert(with_score(first_rest, top).push(a).last() == a);
            assert(with_score(second_rest, top).push(b).last() == b);
        }
        assert forall|score: i32| #[trigger]
            with_score(first_rest, score) == with_score(second_rest, score) by {
            assert(with_score(first, score) == with_score(second, score));
            if score == top {
                assert(with_score(first_rest, top).push(a).drop_last() =~= with_score(
                    first_rest,
                    top,
                ));
                assert(with_score(second_rest, top).push(b).drop_last() =~= with_score(
                    second_rest,
                    top,
                ));
            }
        }
        assert(ascending(first_rest)) by {
            assert forall|i: int, j: int| 0 <= i < j < first_rest.len() implies first_rest[i].1
                <= first_rest[j].1 by {
                assert(first[i].1 <= first[j].1);
            }
        }
        assert(ascending(second_rest)) by {
            assert forall|i: int, j: int| 0 <= i < j < second_rest.len() implies second_rest[i].1
                <= second_rest[j].1 by {
                assert(second[i].1 <= second[j].1);
            }
        }
        lemma_ordering_unique(first_rest, second_rest);
        assert(first =~= first_rest.push(a));
        assert(second =~= second_rest.push(b));
    } else {
        assert(first =~= second);
    }
}

/// Putting an item into an ascending sequence keeps it ascending, adds the
/// item behind the others of its score, and leaves the items of every
/// other score as they were.
pub proof fn lemma_insert_by_score(sorted: Seq<(Move, i32)>, item: (Move, i32))
    requires
        ascending(sorted),
    ensures
        insert_by_score(sorted, item).len() == sorted.len() + 1,
        ascending(insert_by_score(sorted, item)),
        insert_by_score(sorted, item).last().1 == (if sorted.len() > 0 && sorted.last().1
            > item.1 {
            sorted.last().1
        } else {
            item.1
        }),
        forall|score: i32| #[trigger]
            with_score(insert_by_score(sorted, item), score) == (if score == item.1 {
                with_score(sorted, score).push(item)
            } else {
                with_score(sorted, score)
            }),
    decreases sorted.len(),
{
    let result = insert_by_score(sorted, item);
    if sorted.len() == 0 {
        assert(result.drop_last() =~= sorted);
        assert forall|score: i32| #[trigger]
            with_score(result, score) == (if score == item.1 {
                with_score(sorted, score).push(item)
            } else {
                with_score(sorted, score)
            }) by {
            assert(with_score(result.drop_last(), score) =~= with_score(sorted, score));
        }
    } else if sorted.last().1 <= item.1 {
        assert(result.drop_last() =~= sorted);
        assert forall|i: int, j: int| 0 <= i < j < result.len() implies result[i].1
            <= result[j].1 by {
            if j == result.len() - 1 {
                if i < sorted.len() - 1 {
                    assert(sorted[i].1 <= sorted[sorted.len() - 1].1);
                }
            } else {
                assert(sorted[i].1 <= sorted[j].1);
            }
        }
    } else {
        let rest = sorted.drop_last();
        let last = sorted.last();
        let inner = insert_by_score(rest, item);
        assert(ascending(rest)) by {
            assert forall|i: int, j: int| 0 <= i < j < rest.len() implies rest[i].1
                <= rest[j].1 by {
                assert(sorted[i].1 <= sorted[j].1);
            }
        }
        lemma_insert_by_score(rest, item);
        assert(result.drop_last() =~= inner);
        assert(result.last() == last);
        assert(inner.last().1 <= last.1) by {
            if rest.len() > 0 {
                assert(sorted[rest.len() - 1].1 <= sorted[sorted.len() - 1].1);
            }
        }
        assert forall|i: int, j: int| 0 <= i < j < result.len() implies result[i].1
            <= result[j].1 by {
            if j == result.len() - 1 {
                if i < inner.len() - 1 {
                    assert(inner[i].1 <= inner[inner.len() - 1].1);
                }
            } else {
                assert(inner[i].1 <= inner[j].1);
            }
        }
        assert forall|score: i32| #[trigger]
            with_score(result, score) == (if score == item.1 {
                with_score(sorted, score).push(item)
            } else {
                with_score(sorted, score)
            }) by {
            let kept = with_score(rest, score);
            assert(with_score(inner, score) == (if score == item.1 {
                kept.push(item)
            } else {
                kept
            }));
        }
    }
}

/// `stable_ordering` sorts stably.
pub proof fn lemma_stable_ordering(unsorted: Seq<(Move, i32)>)
    ensures
        is_stable_ordering(unsorted, stable_ordering(unsorted)),
    decreases unsorted.len(),
{
    if unsorted.len() > 0 {
        let rest = unsorted.drop_last();
        let last = unsorted.last();
        lemma_stable_ordering(rest);
        lemma_insert_by_score(stable_ordering(rest), last);
        assert forall|score: i32| #[trigger]
            with_score(stable_ordering(unsorted), score) == with_score(unsorted, score) by {
            assert(with_score(stable_ordering(rest), score) == with_score(rest, score));
        }
    }
}

/// A sequence has one stable ordering only: whatever sorts it stably gives
/// `stable_ordering` of it.
pub proof fn lemma_stable_ordering_unique(unsorted: Seq<(Move, i32)>, sorted: Seq<(Move, i32)>)
    requires
        is_stable_ordering(unsorted, sorted),
    ensures
        sorted == stable_ordering(unsorted),
{
    let built = stable_ordering(unsorted);
    lemma_stable_ordering(unsorted);
    assert forall|score: i32| #[trigger] with_score(sorted, score) == with_score(built, score) by {
        assert(with_score(sorted, score) == with_score(unsorted, score));
        assert(with_score(built, score) == with_score(unsorted, score));
    }
    lemma_ordering_unique(sorted, built);
}

/// Sorts scored moves by ascending score; moves of equal score keep their
/// order.
pub fn sort_by_score(scored: Vec<(Move, i32)>) -> (sorted: Vec<(Move, i32)>)
    ensures
        sorted@ == stable_ordering(scored@),
        is_stable_ordering(scored@, sorted@),
{
    let sorted = sorted_by_score(scored);
    proof {
        lemma_stable_ordering_unique(scored@, sorted@);
    }
    sorted
}

} // verus!
