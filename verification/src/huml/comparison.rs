//! Equality and ordering operators, generic over any type that can be
//! compared. Each result is the one that the type's own comparison gave; for
//! a type of which Verus knows what its comparison computes, the result is
//! that value.
use core::cmp::Ordering;
use vstd::prelude::*;
use vstd::std_specs::cmp::PartialEqSpec;
use vstd::std_specs::cmp::PartialOrdSpec;

verus! {

/// Whether the two operands are equal.
pub fn EQUALS<T: PartialEq>(left_operand: &T, right_operand: &T) -> (r: bool)
    ensures
        call_ensures(T::eq, (left_operand, right_operand), r),
        T::obeys_eq_spec() ==> r == left_operand.eq_spec(right_operand),
{
    left_operand.eq(right_operand)
}

/// Whether the two operands differ: the negation of [`EQUALS`].
pub fn NOT_EQUALS<T: PartialEq>(left_operand: &T, right_operand: &T) -> (r: bool)
    ensures
        call_ensures(T::eq, (left_operand, right_operand), !r),
        T::obeys_eq_spec() ==> r == !left_operand.eq_spec(right_operand),
{
    !EQUALS(left_operand, right_operand)
}

/// Whether the left operand is strictly below the right one.
pub fn LESS_THAN<T: PartialOrd>(left_operand: &T, right_operand: &T) -> (r: bool)
    ensures
        call_ensures(T::lt, (left_operand, right_operand), r),
        T::obeys_partial_cmp_spec() ==> r == (left_operand.partial_cmp_spec(right_operand) == Some(
            Ordering::Less,
        )),
{
    left_operand.lt(right_operand)
}

/// Whether the left operand is strictly above the right one.
pub fn GREATER_THAN<T: PartialOrd>(left_operand: &T, right_operand: &T) -> (r: bool)
    ensures
        call_ensures(T::gt, (left_operand, right_operand), r),
        T::obeys_partial_cmp_spec() ==> r == (left_operand.partial_cmp_spec(right_operand) == Some(
            Ordering::Greater,
        )),
{
    left_operand.gt(right_operand)
}

/// Whether the left operand is below or equal to the right one.
pub fn LESS_OR_EQUALS<T: PartialOrd>(left_operand: &T, right_operand: &T) -> (r: bool)
    ensures
        call_ensures(T::le, (left_operand, right_operand), r),
        T::obeys_partial_cmp_spec() ==> r == (left_operand.partial_cmp_spec(right_operand)
            matches Some(Ordering::Less | Ordering::Equal)),
{
    left_operand.le(right_operand)
}

/// Whether the left operand is above or equal to the right one.
pub fn GREATER_OR_EQUALS<T: PartialOrd>(left_operand: &T, right_operand: &T) -> (r: bool)
    ensures
        call_ensures(T::ge, (left_operand, right_operand), r),
        T::obeys_partial_cmp_spec() ==> r == (left_operand.partial_cmp_spec(right_operand)
            matches Some(Ordering::Greater | Ordering::Equal)),
{
    left_operand.ge(right_operand)
}

} // verus!
