//! Searching rows of values.

use vstd::prelude::*;

verus! {

/// The first index at or behind `from` whose item satisfies `wanted`.
pub open spec fn first_from<T>(items: Seq<T>, wanted: spec_fn(T) -> bool, from: int) -> Option<int>
    decreases items.len() - from,
{
    if from < 0 || from >= items.len() {
        None
    } else if wanted(items[from]) {
        Some(from)
    } else {
        first_from(items, wanted, from + 1)
    }
}

/// The first item that satisfies `wanted`.
pub open spec fn first_where<T>(items: Seq<T>, wanted: spec_fn(T) -> bool) -> Option<T> {
    match first_from(items, wanted, 0) {
        Some(index) => Some(items[index]),
        None => None,
    }
}

/// The item at `index` is the first that satisfies `wanted`.
pub open spec fn first_is<T>(items: Seq<T>, wanted: spec_fn(T) -> bool, index: int) -> bool {
    &&& 0 <= index < items.len()
    &&& wanted(items[index])
    &&& forall|i: int| 0 <= i < index ==> !wanted(#[trigger] items[i])
}

/// No item satisfies `wanted`.
pub open spec fn none_is<T>(items: Seq<T>, wanted: spec_fn(T) -> bool) -> bool {
    forall|i: int| 0 <= i < items.len() ==> !wanted(#[trigger] items[i])
}

/// Searching by one of two conditions that come to the same finds what the other
/// describes.
pub proof fn lemma_first_is<T>(
    items: Seq<T>,
    wanted: spec_fn(T) -> bool,
    stated: spec_fn(T) -> bool,
    index: int,
)
    requires
        forall|item: T| #[trigger] wanted(item) == stated(item),
    ensures
        first_is(items, stated, index) ==> first_from(items, wanted, 0) == Some(index)
            && first_where(items, wanted) == Some(items[index]),
        none_is(items, stated) ==> first_from(items, wanted, 0) is None && first_where(
            items,
            wanted,
        ) is None,
{
    if first_is(items, stated, index) {
        assert forall|i: int| 0 <= i < index implies !wanted(#[trigger] items[i]) by {}
        lemma_first_skips(items, wanted, 0, index);
    }
    if none_is(items, stated) {
        assert forall|i: int| 0 <= i < items.len() implies !wanted(#[trigger] items[i]) by {}
        lemma_first_skips(items, wanted, 0, items.len() as int);
    }
}

/// Items that are not wanted can be skipped.
pub proof fn lemma_first_skips<T>(items: Seq<T>, wanted: spec_fn(T) -> bool, from: int, to: int)
    requires
        0 <= from <= to <= items.len(),
        forall|i: int| from <= i < to ==> !wanted(#[trigger] items[i]),
    ensures
        first_from(items, wanted, from) == first_from(items, wanted, to),
    decreases to - from,
{
    if from < to {
        assert(!wanted(items[from]));
        lemma_first_skips(items, wanted, from + 1, to);
    }
}

/// What is found is wanted, and nothing before it is; and something is found
/// when anything is wanted.
pub proof fn lemma_first_from<T>(items: Seq<T>, wanted: spec_fn(T) -> bool, from: int)
    requires
        0 <= from,
    ensures
        match first_from(items, wanted, from) {
            Some(index) => from <= index < items.len() && wanted(items[index]) && forall|i: int|
                from <= i < index ==> !wanted(#[trigger] items[i]),
            None => forall|i: int| from <= i < items.len() ==> !wanted(#[trigger] items[i]),
        },
    decreases items.len() - from,
{
    if from < items.len() && !wanted(items[from]) {
        lemma_first_from(items, wanted, from + 1);
    }
}

/// The first item that satisfies `wanted`, among items none of which does before
/// `index`.
pub proof fn lemma_first_where<T>(items: Seq<T>, wanted: spec_fn(T) -> bool, index: int)
    requires
        0 <= index <= items.len(),
        forall|i: int| 0 <= i < index ==> !wanted(#[trigger] items[i]),
    ensures
        index < items.len() && wanted(items[index]) ==> first_where(items, wanted) == Some(
            items[index],
        ),
        index == items.len() ==> first_where(items, wanted) is None,
{
    lemma_first_skips(items, wanted, 0, index);
}

/// Rows whose items are wanted at the same places are searched alike.
pub proof fn lemma_first_alike<T>(
    one: Seq<T>,
    other: Seq<T>,
    wanted: spec_fn(T) -> bool,
    from: int,
)
    requires
        0 <= from,
        one.len() == other.len(),
        forall|i: int| 0 <= i < one.len() ==> wanted(#[trigger] one[i]) == wanted(other[i]),
    ensures
        first_from(one, wanted, from) == first_from(other, wanted, from),
    decreases one.len() - from,
{
    if from < one.len() {
        assert(wanted(one[from]) == wanted(other[from]));
        lemma_first_alike(one, other, wanted, from + 1);
    }
}

/// An item more at the end is found when none before it is.
pub proof fn lemma_first_of_longer<T>(
    items: Seq<T>,
    more: T,
    wanted: spec_fn(T) -> bool,
    from: int,
)
    requires
        0 <= from <= items.len(),
    ensures
        first_from(items.push(more), wanted, from) == match first_from(items, wanted, from) {
            Some(index) => Some(index),
            None => if wanted(more) {
                Some(items.len() as int)
            } else {
                None
            },
        },
    decreases items.len() - from,
{
    let longer = items.push(more);
    if from < items.len() {
        assert(longer[from] == items[from]);
        lemma_first_of_longer(items, more, wanted, from + 1);
    } else {
        assert(longer[from] == more);
        assert(first_from(longer, wanted, from + 1) is None);
    }
}

} // verus!
