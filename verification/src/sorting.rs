use vstd::prelude::*;
use itertools::Itertools;

verus! {

/// A sorted list with one item more: the new item goes behind every item
/// whose position is not larger than its own.
pub open spec fn insert_by_position<T>(sorted: Seq<(usize, T)>, item: (usize, T)) -> Seq<
    (usize, T),
>
    decreases sorted.len(),
{
    if sorted.len() == 0 {
        seq![item]
    } else if sorted.last().0 <= item.0 {
        sorted.push(item)
    } else {
        insert_by_position(sorted.drop_last(), item).push(sorted.last())
    }
}

/// The items in ascending order of their positions; items of equal position
/// keep the order they came in.
pub open spec fn sorted_by_position<T>(items: Seq<(usize, T)>) -> Seq<(usize, T)>
    decreases items.len(),
{
    if items.len() == 0 {
        Seq::empty()
    } else {
        insert_by_position(sorted_by_position(items.drop_last()), items.last())
    }
}

/// Sorts by position with `Itertools::sorted_by`, which sorts with the
/// standard library's stable sort. The contract claims that the outcome is
/// the stable ordering of the input by position, which is unique.
#[verifier::external_body]
pub(crate) fn sort_by_position<T>(items: Vec<(usize, T)>) -> (r: Vec<(usize, T)>)
    ensures
        r@ == sorted_by_position(items@),
{
    items.into_iter().sorted_by(|a, b| a.0.cmp(&b.0)).collect()
}

/// Inserting keeps a sorted list sorted, by positions.
pub proof fn lemma_insert_sorted<T>(sorted: Seq<(usize, T)>, item: (usize, T))
    requires
        forall|i: int, j: int| 0 <= i <= j < sorted.len() ==> sorted[i].0 <= sorted[j].0,
    ensures
        insert_by_position(sorted, item).len() == sorted.len() + 1,
        forall|i: int, j: int|
            0 <= i <= j < sorted.len() + 1 ==> insert_by_position(sorted, item)[i].0
                <= insert_by_position(sorted, item)[j].0,
        forall|i: int|
            0 <= i < sorted.len() + 1 ==> (#[trigger] insert_by_position(sorted, item)[i]).0
                == item.0 || exists|k: int|
                0 <= k < sorted.len() && sorted[k] == insert_by_position(sorted, item)[i],
    decreases sorted.len(),
{
    if sorted.len() > 0 && sorted.last().0 > item.0 {
        let head = sorted.drop_last();
        lemma_insert_sorted(head, item);
        let inner = insert_by_position(head, item);
        let out = inner.push(sorted.last());
        assert forall|i: int, j: int| 0 <= i <= j < sorted.len() + 1 implies out[i].0
            <= out[j].0 by {
            if j == sorted.len() {
                if i < j {
                    if inner[i].0 != item.0 {
                        let k = choose|k: int| 0 <= k < head.len() && head[k] == inner[i];
                        assert(sorted[k] == head[k]);
                    }
                }
            }
        }
        assert forall|i: int| 0 <= i < sorted.len() + 1 implies (#[trigger] out[i]).0 == item.0
            || exists|k: int| 0 <= k < sorted.len() && sorted[k] == out[i] by {
            if i < sorted.len() {
                if inner[i].0 != item.0 {
                    let k = choose|k: int| 0 <= k < head.len() && head[k] == inner[i];
                    assert(sorted[k] == out[i]);
                }
            } else {
                assert(sorted[sorted.len() - 1] == out[i]);
            }
        }
    }
}

/// The ordering by position has as many items as the input and is in
/// ascending order of positions.
pub proof fn lemma_sorted_by_position<T>(items: Seq<(usize, T)>)
    ensures
        sorted_by_position(items).len() == items.len(),
        forall|i: int, j: int|
            0 <= i <= j < items.len() ==> sorted_by_position(items)[i].0 <= sorted_by_position(
                items,
            )[j].0,
    decreases items.len(),
{
    if items.len() > 0 {
        lemma_sorted_by_position(items.drop_last());
        lemma_insert_sorted(sorted_by_position(items.drop_last()), items.last());
    }
}

/// The same items with `f` applied to what each carries.
pub open spec fn carried<T, U>(items: Seq<(usize, T)>, f: spec_fn(T) -> U) -> Seq<(usize, U)> {
    Seq::new(items.len(), |i: int| (items[i].0, f(items[i].1)))
}

proof fn lemma_insert_carried<T, U>(sorted: Seq<(usize, T)>, item: (usize, T), f: spec_fn(T) -> U)
    ensures
        carried(insert_by_position(sorted, item), f) == insert_by_position(
            carried(sorted, f),
            (item.0, f(item.1)),
        ),
    decreases sorted.len(),
{
    let mapped = carried(sorted, f);
    if sorted.len() == 0 {
        assert(carried(seq![item], f) =~= seq![(item.0, f(item.1))]);
    } else if sorted.last().0 <= item.0 {
        assert(carried(sorted.push(item), f) =~= mapped.push((item.0, f(item.1))));
    } else {
        lemma_insert_carried(sorted.drop_last(), item, f);
        assert(carried(sorted.drop_last(), f) =~= mapped.drop_last());
        assert(carried(insert_by_position(sorted.drop_last(), item).push(sorted.last()), f)
            =~= carried(insert_by_position(sorted.drop_last(), item), f).push(mapped.last()));
    }
}

/// Ordering looks at positions only: it makes no difference whether what
/// the items carry is changed before or after.
pub proof fn lemma_sort_carried<T, U>(items: Seq<(usize, T)>, f: spec_fn(T) -> U)
    ensures
        carried(sorted_by_position(items), f) == sorted_by_position(carried(items, f)),
    decreases items.len(),
{
    if items.len() == 0 {
        assert(carried(Seq::<(usize, T)>::empty(), f) =~= Seq::<(usize, U)>::empty());
    } else {
        lemma_sort_carried(items.drop_last(), f);
        lemma_insert_carried(sorted_by_position(items.drop_last()), items.last(), f);
        assert(carried(items.drop_last(), f) =~= carried(items, f).drop_last());
    }
}

} // verus!
