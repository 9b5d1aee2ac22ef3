//! Operators that look for an item, or for an element with some property,
//! in a collection.
//!
//! Elements are compared with the element type's `==`, the element on the
//! left. Each contract says first what holds of the answers that `==` gave,
//! whatever it computes, and then, for a type of which Verus knows what `==`
//! computes, what the result is.
use vstd::prelude::*;
use vstd::std_specs::cmp::PartialEqSpec;

verus! {

/// How many elements of `items` equal `item`.
pub open spec fn multiplicity<T: PartialEq>(items: Seq<T>, item: T) -> nat {
    items.filter(|element: T| element.eq_spec(&item)).len()
}

/// `answers[i]` is an answer that `==` gave for element `i` and `item`.
pub open spec fn answered<T: PartialEq>(items: Seq<T>, item: T, answers: Seq<bool>) -> bool {
    &&& answers.len() == items.len()
    &&& forall|i: int|
        0 <= i < items.len() ==> call_ensures(T::eq, (&items[i], &item), #[trigger] answers[i])
}

/// How many of the answers are `true`.
pub open spec fn affirmations(answers: Seq<bool>) -> nat {
    answers.filter(|answer: bool| answer).len()
}

/// Taking one more element adds one to the multiplicity where that element
/// equals the item, and nothing otherwise.
pub proof fn lemma_multiplicity_push<T: PartialEq>(items: Seq<T>, element: T, item: T)
    ensures
        multiplicity(items.push(element), item) == multiplicity(items, item) + if element.eq_spec(
            &item,
        ) {
            1nat
        } else {
            0nat
        },
{
    reveal(Seq::filter);
    assert(items.push(element).drop_last() =~= items);
}

/// One more answer adds one to the affirmations where it is `true`.
pub proof fn lemma_affirmations_push(answers: Seq<bool>, answer: bool)
    ensures
        affirmations(answers.push(answer)) == affirmations(answers) + if answer {
            1nat
        } else {
            0nat
        },
{
    reveal(Seq::filter);
    assert(answers.push(answer).drop_last() =~= answers);
}

/// There is an affirmation exactly where some answer is `true`.
pub proof fn lemma_affirmations_positive(answers: Seq<bool>)
    ensures
        affirmations(answers) >= 1 <==> exists|i: int| 0 <= i < answers.len() && answers[i],
    decreases answers.len(),
{
    reveal(Seq::filter);
    if answers.len() > 0 {
        let front = answers.drop_last();
        lemma_affirmations_positive(front);
        assert(answers =~= front.push(answers.last()));
        lemma_affirmations_push(front, answers.last());
        if affirmations(answers) >= 1 {
            if answers.last() {
                assert(answers[answers.len() - 1]);
            } else {
                let i = choose|i: int| 0 <= i < front.len() && front[i];
                assert(answers[i]);
            }
        }
        if exists|i: int| 0 <= i < answers.len() && answers[i] {
            let i = choose|i: int| 0 <= i < answers.len() && answers[i];
            if i < front.len() {
                assert(front[i]);
            }
        }
    }
}

/// The multiplicity is positive exactly where some element equals the item.
pub proof fn lemma_multiplicity_positive<T: PartialEq>(items: Seq<T>, item: T)
    ensures
        multiplicity(items, item) >= 1 <==> exists|i: int|
            0 <= i < items.len() && (#[trigger] items[i]).eq_spec(&item),
    decreases items.len(),
{
    reveal(Seq::filter);
    if items.len() > 0 {
        let front = items.drop_last();
        lemma_multiplicity_positive(front, item);
        assert(items =~= front.push(items.last()));
        lemma_multiplicity_push(front, items.last(), item);
        if multiplicity(items, item) >= 1 {
            if items.last().eq_spec(&item) {
                assert(items[items.len() - 1].eq_spec(&item));
            } else {
                let i = choose|i: int| 0 <= i < front.len() && (#[trigger] front[i]).eq_spec(&item);
                assert(items[i].eq_spec(&item));
            }
        }
        if exists|i: int| 0 <= i < items.len() && (#[trigger] items[i]).eq_spec(&item) {
            let i = choose|i: int| 0 <= i < items.len() && (#[trigger] items[i]).eq_spec(&item);
            if i < front.len() {
                assert(front[i].eq_spec(&item));
            }
        }
    }
}

/// Whether `item` occurs in `items` at least once.
pub fn ONE_OF<T: PartialEq>(items: &[T], item: &T) -> (r: bool)
    ensures
        r ==> exists|i: int|
            0 <= i < items@.len() && call_ensures(T::eq, (&#[trigger] items@[i], item), true),
        !r ==> forall|i: int|
            0 <= i < items@.len() ==> call_ensures(T::eq, (&#[trigger] items@[i], item), false),
        T::obeys_eq_spec() ==> r == (multiplicity(items@, *item) >= 1),
{
    let mut i: usize = 0;
    while i < items.len()
        invariant
            i <= items@.len(),
            forall|j: int|
                0 <= j < i ==> call_ensures(T::eq, (&#[trigger] items@[j], item), false),
            T::obeys_eq_spec() ==> forall|j: int|
                0 <= j < i ==> !(#[trigger] items@[j]).eq_spec(item),
        decreases items@.len() - i,
    {
        if items[i].eq(item) {
            proof {
                lemma_multiplicity_positive(items@, *item);
                assert(call_ensures(T::eq, (&items@[i as int], item), true));
            }
            return true;
        }
        i += 1;
    }
    proof {
        lemma_multiplicity_positive(items@, *item);
    }
    false
}

/// Whether `item` does not occur in `items`: the negation of [`ONE_OF`].
pub fn NONE_OF<T: PartialEq>(items: &[T], item: &T) -> (r: bool)
    ensures
        !r ==> exists|i: int|
            0 <= i < items@.len() && call_ensures(T::eq, (&#[trigger] items@[i], item), true),
        r ==> forall|i: int|
            0 <= i < items@.len() ==> call_ensures(T::eq, (&#[trigger] items@[i], item), false),
        T::obeys_eq_spec() ==> r == (multiplicity(items@, *item) == 0),
{
    !ONE_OF(items, item)
}

/// Whether `item` occurs in `items` exactly once. Every element is compared.
pub fn EXACTLY_ONE_OF<T: PartialEq>(items: &[T], item: &T) -> (r: bool)
    ensures
        exists|answers: Seq<bool>|
            answered(items@, *item, answers) && r == (affirmations(answers) == 1),
        T::obeys_eq_spec() ==> r == (multiplicity(items@, *item) == 1),
{
    let count = count_equal(items, item);
    count == 1
}

/// Whether `item` occurs in `items` at least once, as [`ONE_OF`] tells it.
/// Every element is compared.
pub fn AT_LEAST_ONE_OF<T: PartialEq>(items: &[T], item: &T) -> (r: bool)
    ensures
        exists|answers: Seq<bool>|
            answered(items@, *item, answers) && r == (affirmations(answers) >= 1),
        r ==> exists|i: int|
            0 <= i < items@.len() && call_ensures(T::eq, (&#[trigger] items@[i], item), true),
        !r ==> forall|i: int|
            0 <= i < items@.len() ==> call_ensures(T::eq, (&#[trigger] items@[i], item), false),
        T::obeys_eq_spec() ==> r == (multiplicity(items@, *item) >= 1),
{
    let count = count_equal(items, item);
    proof {
        let answers = choose|answers: Seq<bool>|
            answered(items@, *item, answers) && count == affirmations(answers);
        lemma_affirmations_positive(answers);
        if count >= 1 {
            let i = choose|i: int| 0 <= i < answers.len() && answers[i];
            assert(call_ensures(T::eq, (&items@[i], item), answers[i]));
        } else {
            assert forall|i: int| 0 <= i < items@.len() implies call_ensures(
                T::eq,
                (&#[trigger] items@[i], item),
                false,
            ) by {
                assert(!answers[i]);
            }
        }
    }
    count >= 1
}

/// Compares every element with `item` and counts the equal ones.
fn count_equal<T: PartialEq>(items: &[T], item: &T) -> (count: usize)
    ensures
        exists|answers: Seq<bool>|
            answered(items@, *item, answers) && count == affirmations(answers),
        T::obeys_eq_spec() ==> count == multiplicity(items@, *item),
{
    let mut count: usize = 0;
    let mut i: usize = 0;
    let ghost mut answers: Seq<bool> = Seq::empty();
    proof {
        reveal(Seq::filter);
        assert(items@.take(0) =~= Seq::<T>::empty());
    }
    while i < items.len()
        invariant
            i <= items@.len(),
            count <= i,
            answered(items@.take(i as int), *item, answers),
            count == affirmations(answers),
            T::obeys_eq_spec() ==> count == multiplicity(items@.take(i as int), *item),
        decreases items@.len() - i,
    {
        let equal = items[i].eq(item);
        proof {
            lemma_affirmations_push(answers, equal);
            lemma_multiplicity_push(items@.take(i as int), items@[i as int], *item);
            assert(items@.take(i + 1) =~= items@.take(i as int).push(items@[i as int]));
            answers = answers.push(equal);
        }
        if equal {
            count += 1;
        }
        i += 1;
    }
    proof {
        assert(items@.take(i as int) =~= items@);
    }
    count
}

/// Whether `function` holds of at least one element of `items`. It is asked
/// about every element.
pub fn WHERE<T, F: Fn(&T) -> bool>(items: &[T], function: F) -> (r: bool)
    requires
        forall|i: int| 0 <= i < items@.len() ==> call_requires(function, (&#[trigger] items@[i],)),
    ensures
        r ==> exists|i: int|
            0 <= i < items@.len() && call_ensures(function, (&#[trigger] items@[i],), true),
        !r ==> forall|i: int|
            0 <= i < items@.len() ==> call_ensures(function, (&#[trigger] items@[i],), false),
{
    let mut found = false;
    let mut i: usize = 0;
    while i < items.len()
        invariant
            i <= items@.len(),
            forall|j: int|
                0 <= j < items@.len() ==> call_requires(function, (&#[trigger] items@[j],)),
            found ==> exists|j: int|
                0 <= j < i && call_ensures(function, (&#[trigger] items@[j],), true),
            !found ==> forall|j: int|
                0 <= j < i ==> call_ensures(function, (&#[trigger] items@[j],), false),
        decreases items@.len() - i,
    {
        if function(&items[i]) {
            found = true;
            assert(call_ensures(function, (&items@[i as int],), true));
        }
        i += 1;
    }
    found
}

} // verus!
