//! What the comparisons of a type say, for types whose comparisons keep to what they
//! declare.

use core::cmp::Ordering;
use vstd::std_specs::cmp::{PartialEqSpec, PartialOrdSpec};
use vstd::prelude::*;

verus! {

/// Whether the equality of `T` keeps to what `T` declares of it.
pub open spec fn equatable<T: PartialEq>() -> bool {
    T::obeys_eq_spec()
}

/// `a == b` in the equality that `T` declares.
pub open spec fn same<T: PartialEq>(a: &T, b: &T) -> bool {
    a.eq_spec(b)
}

/// Whether the order of `T` keeps to what `T` declares of it.
pub open spec fn ordered<T: PartialOrd>() -> bool {
    T::obeys_partial_cmp_spec()
}

/// `a < b` in the order that `T` declares.
pub open spec fn below<T: PartialOrd>(a: &T, b: &T) -> bool {
    a.partial_cmp_spec(b) == Some(Ordering::Less)
}

/// `a > b` in the order that `T` declares.
pub open spec fn above<T: PartialOrd>(a: &T, b: &T) -> bool {
    a.partial_cmp_spec(b) == Some(Ordering::Greater)
}

/// `a <= b` in the order that `T` declares.
pub open spec fn at_most<T: PartialOrd>(a: &T, b: &T) -> bool {
    a.partial_cmp_spec(b) matches Some(Ordering::Less | Ordering::Equal)
}

/// `a >= b` in the order that `T` declares.
pub open spec fn at_least<T: PartialOrd>(a: &T, b: &T) -> bool {
    a.partial_cmp_spec(b) matches Some(Ordering::Greater | Ordering::Equal)
}

/// `min < current < max`, both ends excluded, in the order that `T` declares.
pub open spec fn strictly_between<T: PartialOrd>(min: &T, max: &T, current: &T) -> bool {
    above(current, min) && below(current, max)
}

/// For each entry of `data`, whether it equals `expected`.
pub open spec fn each_same<T: PartialEq>(data: Seq<T>, expected: T) -> Seq<bool> {
    Seq::new(data.len(), |i: int| same(&data[i], &expected))
}

/// For each entry of `data`, whether it differs from `expected`.
pub open spec fn each_other<T: PartialEq>(data: Seq<T>, expected: T) -> Seq<bool> {
    Seq::new(data.len(), |i: int| !same(&data[i], &expected))
}

/// For each entry of `data`, whether it is greater than `expected`.
pub open spec fn each_above<T: PartialOrd>(data: Seq<T>, expected: T) -> Seq<bool> {
    Seq::new(data.len(), |i: int| above(&data[i], &expected))
}

/// For each entry of `data`, whether it is less than `expected`.
pub open spec fn each_below<T: PartialOrd>(data: Seq<T>, expected: T) -> Seq<bool> {
    Seq::new(data.len(), |i: int| below(&data[i], &expected))
}

/// For each entry of `data`, whether it is greater than `expected` or equal to it.
pub open spec fn each_at_least<T: PartialOrd>(data: Seq<T>, expected: T) -> Seq<bool> {
    Seq::new(data.len(), |i: int| at_least(&data[i], &expected))
}

/// For each entry of `data`, whether it is less than `expected` or equal to it.
pub open spec fn each_at_most<T: PartialOrd>(data: Seq<T>, expected: T) -> Seq<bool> {
    Seq::new(data.len(), |i: int| at_most(&data[i], &expected))
}

/// Whether `a == b`, as `T` evaluates it, can give `answer`.
pub open spec fn said_same<T: PartialEq>(a: &T, b: &T, answer: bool) -> bool {
    call_ensures(T::eq, (a, b), answer)
}

/// Whether `a != b`, as `T` evaluates it, can give `answer`.
pub open spec fn said_other<T: PartialEq>(a: &T, b: &T, answer: bool) -> bool {
    call_ensures(T::ne, (a, b), answer)
}

/// Whether `a > b`, as `T` evaluates it, can give `answer`.
pub open spec fn said_above<T: PartialOrd>(a: &T, b: &T, answer: bool) -> bool {
    call_ensures(T::gt, (a, b), answer)
}

/// Whether `a < b`, as `T` evaluates it, can give `answer`.
pub open spec fn said_below<T: PartialOrd>(a: &T, b: &T, answer: bool) -> bool {
    call_ensures(T::lt, (a, b), answer)
}

/// Whether `a >= b`, as `T` evaluates it, can give `answer`.
pub open spec fn said_at_least<T: PartialOrd>(a: &T, b: &T, answer: bool) -> bool {
    call_ensures(T::ge, (a, b), answer)
}

/// Whether `a <= b`, as `T` evaluates it, can give `answer`.
pub open spec fn said_at_most<T: PartialOrd>(a: &T, b: &T, answer: bool) -> bool {
    call_ensures(T::le, (a, b), answer)
}

/// Whether asking `current > min` and, where that holds, `current < max` can give
/// `answer` for both together.
pub open spec fn said_between<T: PartialOrd>(min: &T, max: &T, current: &T, answer: bool) -> bool {
    if answer {
        said_above(current, min, true) && said_below(current, max, true)
    } else {
        said_above(current, min, false) || (said_above(current, min, true) && said_below(
            current,
            max,
            false,
        ))
    }
}

/// `answers` holds, entry by entry, what `==` with `expected` gave for `data`.
pub open spec fn all_said_same<T: PartialEq>(data: Seq<T>, expected: T, answers: Seq<bool>) -> bool {
    &&& answers.len() == data.len()
    &&& forall|i: int|
        0 <= i < data.len() ==> #[trigger] said_same(&data[i], &expected, answers[i])
}

/// `answers` holds, entry by entry, what `!=` with `expected` gave for `data`.
pub open spec fn all_said_other<T: PartialEq>(data: Seq<T>, expected: T, answers: Seq<bool>) -> bool {
    &&& answers.len() == data.len()
    &&& forall|i: int|
        0 <= i < data.len() ==> #[trigger] said_other(&data[i], &expected, answers[i])
}

/// `answers` holds, entry by entry, what `>` with `expected` gave for `data`.
pub open spec fn all_said_above<T: PartialOrd>(data: Seq<T>, expected: T, answers: Seq<bool>) -> bool {
    &&& answers.len() == data.len()
    &&& forall|i: int|
        0 <= i < data.len() ==> #[trigger] said_above(&data[i], &expected, answers[i])
}

/// `answers` holds, entry by entry, what `<` with `expected` gave for `data`.
pub open spec fn all_said_below<T: PartialOrd>(data: Seq<T>, expected: T, answers: Seq<bool>) -> bool {
    &&& answers.len() == data.len()
    &&& forall|i: int|
        0 <= i < data.len() ==> #[trigger] said_below(&data[i], &expected, answers[i])
}

/// `answers` holds, entry by entry, what `>=` with `expected` gave for `data`.
pub open spec fn all_said_at_least<T: PartialOrd>(
    data: Seq<T>,
    expected: T,
    answers: Seq<bool>,
) -> bool {
    &&& answers.len() == data.len()
    &&& forall|i: int|
        0 <= i < data.len() ==> #[trigger] said_at_least(&data[i], &expected, answers[i])
}

/// `answers` holds, entry by entry, what `<=` with `expected` gave for `data`.
pub open spec fn all_said_at_most<T: PartialOrd>(
    data: Seq<T>,
    expected: T,
    answers: Seq<bool>,
) -> bool {
    &&& answers.len() == data.len()
    &&& forall|i: int|
        0 <= i < data.len() ==> #[trigger] said_at_most(&data[i], &expected, answers[i])
}

/// Whether some entry of `set` equals `value`.
pub open spec fn member<T: PartialEq>(set: Seq<T>, value: T) -> bool {
    exists|i: int| 0 <= i < set.len() && #[trigger] same(&set[i], &value)
}

/// Whether a search for `value` in `set` can find it: some comparison can say yes.
pub open spec fn can_find<T: PartialEq>(set: Seq<T>, value: T) -> bool {
    exists|i: int| 0 <= i < set.len() && #[trigger] said_same(&set[i], &value, true)
}

/// Whether a search for `value` in `set` can miss it: every comparison can say no.
pub open spec fn can_miss<T: PartialEq>(set: Seq<T>, value: T) -> bool {
    forall|i: int| 0 <= i < set.len() ==> #[trigger] said_same(&set[i], &value, false)
}

/// Looks for `value` among the entries of `set`, comparing from the first entry on
/// until one is equal.
pub fn holds<T: PartialEq>(set: &Vec<T>, value: &T) -> (found: bool)
    ensures
        found ==> can_find(set@, *value),
        !found ==> can_miss(set@, *value),
        equatable::<T>() ==> found == member(set@, *value),
{
    let mut i: usize = 0;
    while i < set.len()
        invariant
            i <= set.len(),
            forall|j: int| 0 <= j < i ==> #[trigger] said_same(&set@[j], value, false),
            equatable::<T>() ==> forall|j: int| 0 <= j < i ==> !#[trigger] same(&set@[j], value),
        decreases set.len() - i,
    {
        if set[i] == *value {
            assert(said_same(&set@[i as int], value, true));
            assert(equatable::<T>() ==> same(&set@[i as int], value));
            return true;
        }
        i = i + 1;
    }
    false
}

/// On signed integers a value lies strictly between two bounds exactly where it is
/// greater than the lower and less than the upper one: a value equal to either bound
/// is not between them.
pub proof fn lemma_strictly_between_i64(min: i64, max: i64, current: i64)
    ensures
        ordered::<i64>(),
        strictly_between(&min, &max, &current) <==> min < current < max,
        !strictly_between(&min, &max, &min),
        !strictly_between(&min, &max, &max),
{
}

/// On unsigned integers a value lies strictly between two bounds exactly where it is
/// greater than the lower and less than the upper one: a value equal to either bound
/// is not between them.
pub proof fn lemma_strictly_between_u64(min: u64, max: u64, current: u64)
    ensures
        ordered::<u64>(),
        strictly_between(&min, &max, &current) <==> min < current < max,
        !strictly_between(&min, &max, &min),
        !strictly_between(&min, &max, &max),
{
}

} // verus!
