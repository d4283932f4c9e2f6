//! Sequences kept in strictly ascending order: the shape in which this crate
//! holds its sets and maps, so that walking them always gives one order.

use vstd::prelude::*;

verus! {

/// `before` is a strict total order: nothing comes before itself, the
/// relation is transitive, and of two different values one comes first.
pub open spec fn strict_total_order<T>(before: spec_fn(T, T) -> bool) -> bool {
    &&& forall|a: T| !#[trigger] before(a, a)
    &&& forall|a: T, b: T, c: T| #[trigger] before(a, b) && #[trigger] before(b, c) ==> before(a, c)
    &&& forall|a: T, b: T| a == b || #[trigger] before(a, b) || before(b, a)
}

/// Each item of `items` comes before all that follow it.
pub open spec fn ascending<T>(items: Seq<T>, before: spec_fn(T, T) -> bool) -> bool {
    forall|i: int, j: int| 0 <= i < j < items.len() ==> before(#[trigger] items[i], #[trigger] items[j])
}

/// An ascending sequence holds nothing twice.
pub proof fn ascending_has_no_duplicates<T>(items: Seq<T>, before: spec_fn(T, T) -> bool)
    requires
        strict_total_order(before),
        ascending(items, before),
    ensures
        items.no_duplicates(),
{
    assert forall|i: int, j: int| 0 <= i < items.len() && 0 <= j < items.len() && i != j implies items[i]
        != items[j] by {
        if i < j {
            assert(before(items[i], items[j]));
        } else {
            assert(before(items[j], items[i]));
        }
    }
}

/// What passes a test, taken out of an ascending sequence, is ascending.
pub proof fn filter_keeps_ascending<T>(
    items: Seq<T>,
    before: spec_fn(T, T) -> bool,
    test: spec_fn(T) -> bool,
)
    requires
        ascending(items, before),
    ensures
        ascending(items.filter(test), before),
    decreases items.len(),
{
    reveal(Seq::filter);
    if items.len() > 0 {
        let front = items.drop_last();
        filter_keeps_ascending(front, before, test);
        if test(items.last()) {
            let kept = front.filter(test);
            assert forall|i: int, j: int| 0 <= i < j < kept.push(items.last()).len() implies before(
                #[trigger] kept.push(items.last())[i],
                #[trigger] kept.push(items.last())[j],
            ) by {
                if j == kept.len() {
                    assert(kept.contains(kept[i]));
                    front.lemma_filter_contains_rev(test, kept[i]);
                    let k = choose|k: int| 0 <= k < front.len() && front[k] == kept[i];
                    assert(before(items[k], items[items.len() - 1]));
                }
            }
        }
    }
}

/// Taking out what passes a test changes nothing where every item passes.
pub proof fn filter_takes_all<T>(items: Seq<T>, test: spec_fn(T) -> bool)
    requires
        forall|i: int| 0 <= i < items.len() ==> test(#[trigger] items[i]),
    ensures
        items.filter(test) == items,
    decreases items.len(),
{
    reveal(Seq::filter);
    if items.len() > 0 {
        filter_takes_all(items.drop_last(), test);
        assert(items.drop_last().push(items.last()) =~= items);
    }
}

/// Taking out what passes a test leaves nothing where no item passes.
pub proof fn filter_takes_none<T>(items: Seq<T>, test: spec_fn(T) -> bool)
    requires
        forall|i: int| 0 <= i < items.len() ==> !test(#[trigger] items[i]),
    ensures
        items.filter(test) == Seq::<T>::empty(),
    decreases items.len(),
{
    reveal(Seq::filter);
    if items.len() > 0 {
        filter_takes_none(items.drop_last(), test);
    }
}

/// Where the items that pass a test are the first `count`, they are what
/// the test takes out.
pub proof fn filter_takes_front<T>(items: Seq<T>, test: spec_fn(T) -> bool, count: int)
    requires
        0 <= count <= items.len(),
        forall|i: int| 0 <= i < count ==> test(#[trigger] items[i]),
        forall|i: int| count <= i < items.len() ==> !test(#[trigger] items[i]),
    ensures
        items.filter(test) == items.take(count),
{
    let front = items.take(count);
    let back = items.skip(count);
    assert(items =~= front + back);
    Seq::filter_distributes_over_add(front, back, test);
    filter_takes_all(front, test);
    filter_takes_none(back, test);
}

/// Where the items that pass a test are all but the first `count`, they are
/// what the test takes out.
pub proof fn filter_takes_back<T>(items: Seq<T>, test: spec_fn(T) -> bool, count: int)
    requires
        0 <= count <= items.len(),
        forall|i: int| 0 <= i < count ==> !test(#[trigger] items[i]),
        forall|i: int| count <= i < items.len() ==> test(#[trigger] items[i]),
    ensures
        items.filter(test) == items.skip(count),
{
    let front = items.take(count);
    let back = items.skip(count);
    assert(items =~= front + back);
    Seq::filter_distributes_over_add(front, back, test);
    filter_takes_none(front, test);
    filter_takes_all(back, test);
}

/// Two tests can be applied in either order.
pub proof fn filter_commutes<T>(items: Seq<T>, first: spec_fn(T) -> bool, second: spec_fn(T) -> bool)
    ensures
        items.filter(first).filter(second) == items.filter(second).filter(first),
    decreases items.len(),
{
    reveal(Seq::filter);
    if items.len() > 0 {
        let front = items.drop_last();
        let last = items.last();
        filter_commutes(front, first, second);
        assert(front.push(last) =~= items);
        front.lemma_filter_push(last, first);
        front.lemma_filter_push(last, second);
        front.filter(first).lemma_filter_push(last, second);
        front.filter(second).lemma_filter_push(last, first);
    }
}

/// A test that only passes what another passes can be applied alone.
pub proof fn filter_within<T>(items: Seq<T>, wide: spec_fn(T) -> bool, narrow: spec_fn(T) -> bool)
    requires
        forall|item: T| #[trigger] narrow(item) ==> wide(item),
    ensures
        items.filter(wide).filter(narrow) == items.filter(narrow),
    decreases items.len(),
{
    reveal(Seq::filter);
    if items.len() > 0 {
        let front = items.drop_last();
        let last = items.last();
        filter_within(front, wide, narrow);
        assert(front.push(last) =~= items);
        front.lemma_filter_push(last, wide);
        front.lemma_filter_push(last, narrow);
        front.filter(wide).lemma_filter_push(last, narrow);
    }
}

/// Two sequences of one length, of which the items at each place pass or
/// fail their tests together, have as many items that pass.
pub proof fn filters_count_alike<A, B>(
    left: Seq<A>,
    right: Seq<B>,
    left_test: spec_fn(A) -> bool,
    right_test: spec_fn(B) -> bool,
)
    requires
        left.len() == right.len(),
        forall|i: int| 0 <= i < left.len() ==> left_test(#[trigger] left[i]) == right_test(right[i]),
    ensures
        left.filter(left_test).len() == right.filter(right_test).len(),
    decreases left.len(),
{
    reveal(Seq::filter);
    if left.len() > 0 {
        filters_count_alike(left.drop_last(), right.drop_last(), left_test, right_test);
        assert(left_test(left[left.len() - 1]) == right_test(right[left.len() - 1]));
    }
}

/// What a test takes out of a sequence holds the items of the sequence that
/// pass the test.
pub proof fn filter_holds<T>(items: Seq<T>, test: spec_fn(T) -> bool, item: T)
    ensures
        items.filter(test).contains(item) <==> (items.contains(item) && test(item)),
{
    let taken = items.filter(test);
    if taken.contains(item) {
        let i = choose|i: int| 0 <= i < taken.len() && taken[i] == item;
        items.lemma_filter_pred(test, i);
        items.lemma_filter_contains_rev(test, item);
    }
    if items.contains(item) && test(item) {
        let i = choose|i: int| 0 <= i < items.len() && items[i] == item;
        items.lemma_filter_contains(test, i);
    }
}

/// What a test takes out of a sequence that holds nothing twice holds
/// nothing twice.
pub proof fn filter_keeps_distinct<T>(items: Seq<T>, test: spec_fn(T) -> bool)
    requires
        items.no_duplicates(),
    ensures
        items.filter(test).no_duplicates(),
    decreases items.len(),
{
    reveal(Seq::filter);
    if items.len() > 0 {
        let front = items.drop_last();
        let last = items.last();
        filter_keeps_distinct(front, test);
        if test(last) {
            let taken = front.filter(test);
            assert forall|i: int, j: int| 0 <= i < j < taken.push(last).len() implies taken.push(
                last,
            )[i] != taken.push(last)[j] by {
                if j == taken.len() {
                    assert(taken.contains(taken[i]));
                    front.lemma_filter_contains_rev(test, taken[i]);
                    let k = choose|k: int| 0 <= k < front.len() && front[k] == taken[i];
                    assert(items[k] != items[items.len() - 1]);
                }
            }
        }
    }
}

/// Two sequences that hold the same items, none twice, have as many items
/// that pass a test.
pub proof fn same_items_count_alike<T>(first: Seq<T>, second: Seq<T>, test: spec_fn(T) -> bool)
    requires
        first.no_duplicates(),
        second.no_duplicates(),
        first.to_set() == second.to_set(),
    ensures
        first.filter(test).len() == second.filter(test).len(),
{
    let left = first.filter(test);
    let right = second.filter(test);
    filter_keeps_distinct(first, test);
    filter_keeps_distinct(second, test);
    left.unique_seq_to_set();
    right.unique_seq_to_set();
    assert(left.to_set() =~= right.to_set()) by {
        assert forall|item: T| left.to_set().contains(item) <==> right.to_set().contains(item) by {
            filter_holds(first, test, item);
            filter_holds(second, test, item);
            assert(first.to_set().contains(item) == first.contains(item));
            assert(second.to_set().contains(item) == second.contains(item));
            assert(left.to_set().contains(item) == left.contains(item));
            assert(right.to_set().contains(item) == right.contains(item));
        }
    }
}

/// Two ascending sequences that hold the same items are the same sequence.
pub proof fn ascending_is_unique<T>(first: Seq<T>, second: Seq<T>, before: spec_fn(T, T) -> bool)
    requires
        strict_total_order(before),
        ascending(first, before),
        ascending(second, before),
        first.to_set() == second.to_set(),
    ensures
        first == second,
    decreases first.len(),
{
    ascending_has_no_duplicates(first, before);
    ascending_has_no_duplicates(second, before);
    first.unique_seq_to_set();
    second.unique_seq_to_set();
    assert(first.len() == second.len());
    if first.len() > 0 {
        let a = first.last();
        let b = second.last();
        assert(first.to_set().contains(a));
        assert(second.to_set().contains(b));
        assert(second.contains(a));
        assert(first.contains(b));
        let i = choose|i: int| 0 <= i < second.len() && second[i] == a;
        let j = choose|j: int| 0 <= j < first.len() && first[j] == b;
        if a != b {
            assert(i < second.len() - 1);
            assert(before(second[i], second[second.len() - 1]));
            assert(j < first.len() - 1);
            assert(before(first[j], first[first.len() - 1]));
            assert(before(a, a));
        }
        let first_front = first.drop_last();
        let second_front = second.drop_last();
        assert(first_front.to_set() =~= second_front.to_set()) by {
            assert forall|x: T| first_front.to_set().contains(x) <==> second_front.to_set().contains(
                x,
            ) by {
                front_holds_all_but_last(first, before, x);
                front_holds_all_but_last(second, before, x);
                assert(first.to_set().contains(x) == second.to_set().contains(x));
            }
        }
        assert(ascending(first_front, before)) by {
            assert forall|i: int, j: int| 0 <= i < j < first_front.len() implies before(
                #[trigger] first_front[i],
                #[trigger] first_front[j],
            ) by {
                assert(before(first[i], first[j]));
            }
        }
        assert(ascending(second_front, before)) by {
            assert forall|i: int, j: int| 0 <= i < j < second_front.len() implies before(
                #[trigger] second_front[i],
                #[trigger] second_front[j],
            ) by {
                assert(before(second[i], second[j]));
            }
        }
        ascending_is_unique(first_front, second_front, before);
        assert(first =~= first_front.push(a));
        assert(second =~= second_front.push(b));
    } else {
        assert(first =~= second);
    }
}

/// All of an ascending sequence but its last item holds exactly the items
/// other than the last.
proof fn front_holds_all_but_last<T>(items: Seq<T>, before: spec_fn(T, T) -> bool, item: T)
    requires
        strict_total_order(before),
        ascending(items, before),
        items.len() > 0,
    ensures
        items.drop_last().to_set().contains(item) <==> (items.to_set().contains(item) && item
            != items.last()),
{
    let front = items.drop_last();
    if front.to_set().contains(item) {
        assert(front.contains(item));
        let i = choose|i: int| 0 <= i < front.len() && front[i] == item;
        assert(items[i] == item);
        assert(before(items[i], items[items.len() - 1]));
        assert(items.contains(item));
    }
    if items.to_set().contains(item) && item != items.last() {
        assert(items.contains(item));
        let i = choose|i: int| 0 <= i < items.len() && items[i] == item;
        assert(front[i] == item);
        assert(front.contains(item));
    }
}

} // verus!
