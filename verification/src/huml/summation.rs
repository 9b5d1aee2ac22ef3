//! Summation over the integer types.
use vstd::prelude::*;

verus! {

/// A number type whose values can be added up.
pub trait Summable: Copy {
    /// The number that a value stands for.
    spec fn amount(self) -> int;

    /// Whether the type has a value for `amount`.
    spec fn holds(amount: int) -> bool;

    /// The additive identity.
    fn zero() -> (r: Self)
        ensures
            r.amount() == 0,
    ;

    /// The sum of two values, where the type has a value for it.
    fn plus(self, other: Self) -> (r: Self)
        requires
            Self::holds(self.amount() + other.amount()),
        ensures
            r.amount() == self.amount() + other.amount(),
    ;
}

/// The sum of the numbers that `items` stand for.
pub open spec fn total<T: Summable>(items: Seq<T>) -> int
    decreases items.len(),
{
    if items.len() == 0 {
        0
    } else {
        total(items.drop_last()) + items.last().amount()
    }
}

/// Every sum of leading elements has a value in the type, so that adding
/// from the left never leaves it.
pub open spec fn summable<T: Summable>(items: Seq<T>) -> bool {
    forall|n: int| 0 <= n <= items.len() ==> T::holds(#[trigger] total(items.take(n)))
}

/// The sum of the elements of `items`, added from the left; the additive
/// identity where there are none.
pub fn SUM_OF<T: Summable>(items: &[T]) -> (sum: T)
    requires
        summable(items@),
    ensures
        sum.amount() == total(items@),
{
    let mut sum = T::zero();
    let mut i: usize = 0;
    proof {
        assert(items@.take(0) =~= Seq::<T>::empty());
    }
    while i < items.len()
        invariant
            i <= items@.len(),
            summable(items@),
            sum.amount() == total(items@.take(i as int)),
        decreases items@.len() - i,
    {
        proof {
            assert(items@.take(i + 1).drop_last() =~= items@.take(i as int));
            assert(items@.take(i + 1).last() == items@[i as int]);
            assert(T::holds(total(items@.take(i + 1))));
        }
        sum = sum.plus(items[i]);
        i += 1;
    }
    proof {
        assert(items@.take(i as int) =~= items@);
    }
    sum
}

impl Summable for u8 {
    open spec fn amount(self) -> int {
        self as int
    }

    open spec fn holds(amount: int) -> bool {
        u8::MIN <= amount <= u8::MAX
    }

    fn zero() -> (r: Self) {
        0
    }

    fn plus(self, other: Self) -> (r: Self) {
        self + other
    }
}

impl Summable for u16 {
    open spec fn amount(self) -> int {
        self as int
    }

    open spec fn holds(amount: int) -> bool {
        u16::MIN <= amount <= u16::MAX
    }

    fn zero() -> (r: Self) {
        0
    }

    fn plus(self, other: Self) -> (r: Self) {
        self + other
    }
}

impl Summable for u32 {
    open spec fn amount(self) -> int {
        self as int
    }

    open spec fn holds(amount: int) -> bool {
        u32::MIN <= amount <= u32::MAX
    }

    fn zero() -> (r: Self) {
        0
    }

    fn plus(self, other: Self) -> (r: Self) {
        self + other
    }
}

impl Summable for u64 {
    open spec fn amount(self) -> int {
        self as int
    }

    open spec fn holds(amount: int) -> bool {
        u64::MIN <= amount <= u64::MAX
    }

    fn zero() -> (r: Self) {
        0
    }

    fn plus(self, other: Self) -> (r: Self) {
        self + other
    }
}

impl Summable for u128 {
    open spec fn amount(self) -> int {
        self as int
    }

    open spec fn holds(amount: int) -> bool {
        u128::MIN <= amount <= u128::MAX
    }

    fn zero() -> (r: Self) {
        0
    }

    fn plus(self, other: Self) -> (r: Self) {
        self + other
    }
}

impl Summable for usize {
    open spec fn amount(self) -> int {
        self as int
    }

    open spec fn holds(amount: int) -> bool {
        usize::MIN <= amount <= usize::MAX
    }

    fn zero() -> (r: Self) {
        0
    }

    fn plus(self, other: Self) -> (r: Self) {
        self + other
    }
}

impl Summable for i8 {
    open spec fn amount(self) -> int {
        self as int
    }

    open spec fn holds(amount: int) -> bool {
        i8::MIN <= amount <= i8::MAX
    }

    fn zero() -> (r: Self) {
        0
    }

    fn plus(self, other: Self) -> (r: Self) {
        self + other
    }
}

impl Summable for i16 {
    open spec fn amount(self) -> int {
        self as int
    }

    open spec fn holds(amount: int) -> bool {
        i16::MIN <= amount <= i16::MAX
    }

    fn zero() -> (r: Self) {
        0
    }

    fn plus(self, other: Self) -> (r: Self) {
        self + other
    }
}

impl Summable for i32 {
    open spec fn amount(self) -> int {
        self as int
    }

    open spec fn holds(amount: int) -> bool {
        i32::MIN <= amount <= i32::MAX
    }

    fn zero() -> (r: Self) {
        0
    }

    fn plus(self, other: Self) -> (r: Self) {
        self + other
    }
}

impl Summable for i64 {
    open spec fn amount(self) -> int {
        self as int
    }

    open spec fn holds(amount: int) -> bool {
        i64::MIN <= amount <= i64::MAX
    }

    fn zero() -> (r: Self) {
        0
    }

    fn plus(self, other: Self) -> (r: Self) {
        self + other
    }
}

impl Summable for i128 {
    open spec fn amount(self) -> int {
        self as int
    }

    open spec fn holds(amount: int) -> bool {
        i128::MIN <= amount <= i128::MAX
    }

    fn zero() -> (r: Self) {
        0
    }

    fn plus(self, other: Self) -> (r: Self) {
        self + other
    }
}

impl Summable for isize {
    open spec fn amount(self) -> int {
        self as int
    }

    open spec fn holds(amount: int) -> bool {
        isize::MIN <= amount <= isize::MAX
    }

    fn zero() -> (r: Self) {
        0
    }

    fn plus(self, other: Self) -> (r: Self) {
        self + other
    }
}

} // verus!
