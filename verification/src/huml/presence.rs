//! Operators that ask whether a value or any element is there at all.
use vstd::prelude::*;

verus! {

/// Whether an optional value is present.
pub fn EXISTS<T>(item: &Option<T>) -> (r: bool)
    ensures
        r == item.is_some(),
{
    item.is_some()
}

/// Whether an optional value is absent: the negation of [`EXISTS`].
pub fn NOT_EXISTS<T>(item: &Option<T>) -> (r: bool)
    ensures
        r == item.is_none(),
{
    item.is_none()
}

/// Whether a collection has no elements.
pub fn EMPTY<T>(items: &[T]) -> (r: bool)
    ensures
        r == (items@.len() == 0),
{
    items.len() == 0
}

/// Whether a collection has at least one element: the negation of [`EMPTY`].
pub fn NOT_EMPTY<T>(items: &[T]) -> (r: bool)
    ensures
        r == (items@.len() > 0),
{
    !EMPTY(items)
}

} // verus!
