//! Facts about insertion into a sorted list.
use vstd::prelude::*;

verus! {

/// Whether every element of the list may stand before those that follow it.
pub open spec fn in_order<A>(list: Seq<A>, may_precede: spec_fn(A, A) -> bool) -> bool {
    forall|i: int, j: int|
        0 <= i < j < list.len() ==> may_precede(#[trigger] list[i], #[trigger] list[j])
}

/// Whether `sorted` is the stably sorted form of `list`: the same elements, in order, and
/// elements that may stand either way keep the order they had.
pub open spec fn stably_sorted<A>(
    list: Seq<A>,
    sorted: Seq<A>,
    may_precede: spec_fn(A, A) -> bool,
) -> bool {
    &&& sorted.to_multiset() == list.to_multiset()
    &&& in_order(sorted, may_precede)
    &&& forall|x: A| #[trigger]
        sorted.filter(ties_with(may_precede, x)) == list.filter(ties_with(may_precede, x))
}

/// The elements that may stand before `x` as well as behind it.
pub open spec fn ties_with<A>(may_precede: spec_fn(A, A) -> bool, x: A) -> spec_fn(A) -> bool {
    |y: A| may_precede(x, y) && may_precede(y, x)
}

/// Inserting an element behind all that may precede it, and before all that may not, keeps
/// a list stably sorted.
pub(crate) proof fn insertion_keeps_sorted<A>(
    list: Seq<A>,
    sorted: Seq<A>,
    may_precede: spec_fn(A, A) -> bool,
    x: A,
    at: int,
)
    requires
        stably_sorted(list, sorted, may_precede),
        0 <= at <= sorted.len(),
        forall|i: int| 0 <= i < at ==> may_precede(#[trigger] sorted[i], x),
        forall|i: int| at <= i < sorted.len() ==> may_precede(x, #[trigger] sorted[i]),
        forall|i: int, y: A|
            at <= i < sorted.len() && may_precede(#[trigger] sorted[i], y) ==> !(#[trigger]
            may_precede(y, x)),
    ensures
        stably_sorted(list.push(x), sorted.insert(at, x), may_precede),
{
    broadcast use vstd::seq_lib::group_to_multiset_ensures;

    let grown = sorted.insert(at, x);
    assert(grown.to_multiset() =~= sorted.to_multiset().insert(x));
    assert(list.push(x).to_multiset() =~= list.to_multiset().insert(x));
    assert forall|i: int, j: int| 0 <= i < j < grown.len() implies may_precede(
        #[trigger] grown[i],
        #[trigger] grown[j],
    ) by {
        let i0 = if i < at { i } else { i - 1 };
        let j0 = if j < at { j } else { j - 1 };
        if i != at && j != at {
            assert(grown[i] == sorted[i0] && grown[j] == sorted[j0]);
        } else if i == at {
            assert(grown[j] == sorted[j0]);
        } else {
            assert(grown[i] == sorted[i0]);
        }
    }
    assert forall|c: A| #[trigger]
        grown.filter(ties_with(may_precede, c)) == list.push(x).filter(
            ties_with(may_precede, c),
        ) by {
        let f = ties_with(may_precede, c);
        let front = sorted.take(at);
        let back = sorted.skip(at);
        assert(sorted =~= front + back);
        assert(grown =~= front + seq![x] + back);
        Seq::filter_distributes_over_add(front, back, f);
        Seq::filter_distributes_over_add(front + seq![x], back, f);
        Seq::filter_distributes_over_add(front, seq![x], f);
        Seq::filter_distributes_over_add(list, seq![x], f);
        assert(list.push(x) =~= list + seq![x]);
        assert(sorted.filter(f) == list.filter(f));
        if f(x) {
            assert(back.filter(f) =~= Seq::<A>::empty()) by {
                if back.filter(f).len() > 0 {
                    let y = back.filter(f)[0];
                    back.lemma_filter_pred(f, 0);
                    back.lemma_filter_contains_rev(f, y);
                    let k = back.index_of(y);
                    assert(back.contains(y));
                    assert(sorted[at + k] == y);
                    assert(may_precede(sorted[at + k], c));
                    assert(may_precede(c, x));
                }
            }
            assert(front.filter(f) + seq![x].filter(f) + back.filter(f) =~= front.filter(f)
                + back.filter(f) + seq![x].filter(f));
        } else {
            assert(seq![x].filter(f) =~= Seq::<A>::empty()) by {
                reveal_with_fuel(Seq::filter, 2);
                assert(seq![x].drop_last() =~= Seq::<A>::empty());
            }
            assert(front.filter(f) + seq![x].filter(f) + back.filter(f) =~= front.filter(f)
                + back.filter(f) + seq![x].filter(f));
        }
    }
}

/// The empty list is sorted.
pub(crate) proof fn nothing_is_sorted<A>(may_precede: spec_fn(A, A) -> bool)
    ensures
        stably_sorted(Seq::<A>::empty(), Seq::<A>::empty(), may_precede),
{
}

} // verus!
