//! Operators that copy the leading or the trailing part of a collection.
//! The collection itself is left as it is.
use vstd::prelude::*;

verus! {

/// How many elements are taken where `number` are asked for of `available`.
pub open spec fn taken(number: int, available: int) -> int {
    if number <= available {
        number
    } else {
        available
    }
}

/// The first `number` elements of `items`, in their order; all of them where
/// there are fewer.
pub fn FIRST<T: Clone>(items: &[T], number: usize) -> (selection: Vec<T>)
    ensures
        selection@.len() == taken(number as int, items@.len() as int),
        forall|i: int|
            0 <= i < selection@.len() ==> cloned(items@[i], #[trigger] selection@[i]),
{
    let count = if number <= items.len() {
        number
    } else {
        items.len()
    };
    let mut selection: Vec<T> = Vec::new();
    let mut i: usize = 0;
    while i < count
        invariant
            i <= count <= items@.len(),
            selection@.len() == i,
            forall|j: int| 0 <= j < i ==> cloned(items@[j], #[trigger] selection@[j]),
        decreases count - i,
    {
        selection.push(items[i].clone());
        i += 1;
    }
    selection
}

/// The last `number` elements of `items`, in their order; all of them where
/// there are fewer.
pub fn LAST<T: Clone>(items: &[T], number: usize) -> (selection: Vec<T>)
    ensures
        selection@.len() == taken(number as int, items@.len() as int),
        forall|i: int|
            0 <= i < selection@.len() ==> cloned(
                items@[items@.len() - selection@.len() + i],
                #[trigger] selection@[i],
            ),
{
    let count = if number <= items.len() {
        number
    } else {
        items.len()
    };
    let start = items.len() - count;
    let mut selection: Vec<T> = Vec::new();
    let mut i: usize = 0;
    while i < count
        invariant
            i <= count <= items@.len(),
            start == items@.len() - count,
            items@.len() <= usize::MAX,
            selection@.len() == i,
            forall|j: int| 0 <= j < i ==> cloned(items@[start + j], #[trigger] selection@[j]),
        decreases count - i,
    {
        selection.push(items[start + i].clone());
        i += 1;
    }
    selection
}

} // verus!
