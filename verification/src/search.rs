use vstd::prelude::*;

verus! {

/// The position of the first item that a predicate holds of.
pub open spec fn first_position<T>(items: Seq<T>, wanted: spec_fn(T) -> bool) -> Option<int>
    decreases items.len(),
{
    if items.len() == 0 {
        None
    } else if wanted(items[0]) {
        Some(0)
    } else {
        match first_position(items.drop_first(), wanted) {
            Some(i) => Some(i + 1),
            None => None,
        }
    }
}

/// The first position is a position, the predicate holds there, and it holds
/// nowhere before it.
pub proof fn lemma_first_position<T>(items: Seq<T>, wanted: spec_fn(T) -> bool)
    ensures
        match first_position(items, wanted) {
            Some(i) => 0 <= i < items.len() && wanted(items[i]) && forall|j: int|
                0 <= j < i ==> !wanted(#[trigger] items[j]),
            None => forall|j: int| 0 <= j < items.len() ==> !wanted(#[trigger] items[j]),
        },
    decreases items.len(),
{
    if items.len() > 0 && !wanted(items[0]) {
        let rest = items.drop_first();
        lemma_first_position(rest, wanted);
        match first_position(rest, wanted) {
            Some(i) => {
                assert forall|j: int| 0 <= j < i + 1 implies !wanted(#[trigger] items[j]) by {
                    if j > 0 {
                        assert(items[j] == rest[j - 1]);
                    }
                }
            },
            None => {
                assert forall|j: int| 0 <= j < items.len() implies !wanted(
                    #[trigger] items[j],
                ) by {
                    if j > 0 {
                        assert(items[j] == rest[j - 1]);
                    }
                }
            },
        }
    }
}

/// A position where the predicate holds, with none before it, is the first.
pub proof fn lemma_first_position_is<T>(items: Seq<T>, wanted: spec_fn(T) -> bool, i: int)
    requires
        0 <= i < items.len(),
        wanted(items[i]),
        forall|j: int| 0 <= j < i ==> !wanted(#[trigger] items[j]),
    ensures
        first_position(items, wanted) == Some(i),
{
    lemma_first_position(items, wanted);
}

/// Where the predicate holds nowhere, there is no first position.
pub proof fn lemma_first_position_none<T>(items: Seq<T>, wanted: spec_fn(T) -> bool)
    requires
        forall|j: int| 0 <= j < items.len() ==> !wanted(#[trigger] items[j]),
    ensures
        first_position(items, wanted).is_none(),
{
    lemma_first_position(items, wanted);
}

} // verus!
