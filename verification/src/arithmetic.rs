//! The scalar operations that inference is built from.
use vstd::prelude::*;

verus! {

/// The elementary operations on the elements of weights, frames and outputs.
///
/// No operation has a precondition, and none promises anything of its result: a contract
/// that says `call_ensures(A::plus, (a, b), r)` says that `r` is what `A::plus` gave for
/// `a` and `b`, and nothing else. That is what can be said of floating point, where a sum
/// rounds and where the bits of a NaN may differ from call to call.
///
/// For a float type the operations are the ones of the type itself: `zero()` is `0.0`,
/// `one()` is `1.0`, `minus_one()` is `-1.0`, `plus`, `minus` and `times` are `+`, `-`
/// and `*`, `magnitude` is `abs`, and `less(a, b)` is `a < b`.
pub trait Arithmetic {
    /// The type of one element.
    type Elem: Copy;

    /// The element that an accumulator starts from.
    fn zero() -> Self::Elem;

    /// The value of a weight of plus one.
    fn one() -> Self::Elem;

    /// The value of a weight of minus one.
    fn minus_one() -> Self::Elem;

    /// The sum of two elements.
    fn plus(a: Self::Elem, b: Self::Elem) -> Self::Elem;

    /// The difference of two elements.
    fn minus(a: Self::Elem, b: Self::Elem) -> Self::Elem;

    /// The product of two elements.
    fn times(a: Self::Elem, b: Self::Elem) -> Self::Elem;

    /// The absolute value of an element.
    fn magnitude(a: Self::Elem) -> Self::Elem;

    /// Whether the first element is strictly below the second.
    fn less(a: Self::Elem, b: Self::Elem) -> bool;
}

/// That `A` has one zero, one magnitude for each element and one verdict for each comparison.
/// Every float type does.
pub open spec fn compares_single_valued<A: Arithmetic>() -> bool {
    &&& forall|r: A::Elem, s: A::Elem| #[trigger]
        call_ensures(A::zero, (), r) && #[trigger] call_ensures(A::zero, (), s) ==> r == s
    &&& forall|a: A::Elem, r: A::Elem, s: A::Elem| #[trigger]
        call_ensures(A::magnitude, (a,), r) && #[trigger] call_ensures(A::magnitude, (a,), s)
            ==> r == s
    &&& forall|a: A::Elem, b: A::Elem, r: bool, s: bool| #[trigger]
        call_ensures(A::less, (a, b), r) && #[trigger] call_ensures(A::less, (a, b), s) ==> r == s
}

/// That `same` is an equivalence of elements.
pub open spec fn is_equivalence<T>(same: spec_fn(T, T) -> bool) -> bool {
    &&& forall|a: T| #[trigger] same(a, a)
    &&& forall|a: T, b: T| #[trigger] same(a, b) ==> same(b, a)
    &&& forall|a: T, b: T, c: T| #[trigger] same(a, b) && #[trigger] same(b, c) ==> same(a, c)
}

/// That `A` adds and subtracts in one way only: the same operands give the same result. With
/// equality for `same` that is one result for each operands; float types have it with one NaN
/// for the same as any other.
pub open spec fn adds_consistently<A: Arithmetic>(
    same: spec_fn(A::Elem, A::Elem) -> bool,
) -> bool {
    &&& is_equivalence(same)
    &&& forall|r: A::Elem, s: A::Elem| #[trigger]
        call_ensures(A::zero, (), r) && #[trigger] call_ensures(A::zero, (), s) ==> same(r, s)
    &&& forall|a: A::Elem, b: A::Elem, c: A::Elem, d: A::Elem, r: A::Elem, s: A::Elem|
        same(a, c) && same(b, d) && #[trigger] call_ensures(A::plus, (a, b), r)
            && #[trigger] call_ensures(A::plus, (c, d), s) ==> same(r, s)
    &&& forall|a: A::Elem, b: A::Elem, c: A::Elem, d: A::Elem, r: A::Elem, s: A::Elem|
        same(a, c) && same(b, d) && #[trigger] call_ensures(A::minus, (a, b), r)
            && #[trigger] call_ensures(A::minus, (c, d), s) ==> same(r, s)
}

/// That `A` multiplies in one way only: the same operands give the same result.
pub open spec fn multiplies_consistently<A: Arithmetic>(
    same: spec_fn(A::Elem, A::Elem) -> bool,
) -> bool {
    &&& is_equivalence(same)
    &&& forall|a: A::Elem, b: A::Elem, c: A::Elem, d: A::Elem, r: A::Elem, s: A::Elem|
        same(a, c) && same(b, d) && #[trigger] call_ensures(A::times, (a, b), r)
            && #[trigger] call_ensures(A::times, (c, d), s) ==> same(r, s)
}

/// The representative of `x` modulo 2^64 in the range of `i64`.
pub open spec fn wrap(x: int) -> int {
    (x + 0x8000_0000_0000_0000) % 0x1_0000_0000_0000_0000 - 0x8000_0000_0000_0000
}

/// Two's complement integer registers: sums and products wrap modulo 2^64.
#[derive(Clone, Copy, Debug, PartialEq, Eq)]
pub struct Integers;

impl Arithmetic for Integers {
    type Elem = i64;

    fn zero() -> (r: i64)
        ensures
            r == 0,
    {
        0
    }

    fn one() -> (r: i64)
        ensures
            r == 1,
    {
        1
    }

    fn minus_one() -> (r: i64)
        ensures
            r == -1,
    {
        -1
    }

    fn plus(a: i64, b: i64) -> (r: i64)
        ensures
            r == wrap(a + b),
    {
        a.wrapping_add(b)
    }

    fn minus(a: i64, b: i64) -> (r: i64)
        ensures
            r == wrap(a - b),
    {
        a.wrapping_sub(b)
    }

    fn times(a: i64, b: i64) -> (r: i64)
        ensures
            r == wrap(a * b),
    {
        a.wrapping_mul(b)
    }

    /// The absolute value, or `i64::MAX` for `i64::MIN`, whose absolute value is out of range.
    fn magnitude(a: i64) -> (r: i64)
        ensures
            a == i64::MIN ==> r == i64::MAX,
            a != i64::MIN ==> r == (if a < 0 { -a } else { a as int }),
    {
        if a == i64::MIN {
            i64::MAX
        } else if a < 0 {
            -a
        } else {
            a
        }
    }

    fn less(a: i64, b: i64) -> (r: bool)
        ensures
            r == (a < b),
    {
        a < b
    }
}

/// Every operation on integer registers has one result.
pub proof fn law_integers_are_consistent()
    ensures
        compares_single_valued::<Integers>(),
        adds_consistently::<Integers>(|a: i64, b: i64| a == b),
        multiplies_consistently::<Integers>(|a: i64, b: i64| a == b),
{
}

/// A value in the range of `i64` is its own representative.
pub proof fn lemma_wrap_in_range(x: int)
    requires
        i64::MIN <= x <= i64::MAX,
    ensures
        wrap(x) == x,
{
}

/// A representative lies in the range of `i64` and differs from the value it stands for by
/// a multiple of 2^64.
proof fn lemma_wrap_differs_by_multiple(x: int) -> (k: int)
    ensures
        i64::MIN <= wrap(x) <= i64::MAX,
        wrap(x) == x + k * 0x1_0000_0000_0000_0000,
{
    -((x + 0x8000_0000_0000_0000) / 0x1_0000_0000_0000_0000)
}

/// Values that differ by a multiple of 2^64 have the same representative.
proof fn lemma_wrap_of_multiple(x: int, k: int)
    ensures
        wrap(x + k * 0x1_0000_0000_0000_0000) == wrap(x),
{
    vstd::arithmetic::div_mod::lemma_mod_multiples_vanish(
        k,
        x + 0x8000_0000_0000_0000,
        0x1_0000_0000_0000_0000,
    );
    assert(0x1_0000_0000_0000_0000 * k + (x + 0x8000_0000_0000_0000) == x + k
        * 0x1_0000_0000_0000_0000 + 0x8000_0000_0000_0000);
}

/// Wrapping an operand first does not change a wrapped sum, difference or product.
pub proof fn lemma_wrap_absorbs(x: int, y: int)
    ensures
        wrap(wrap(x) + y) == wrap(x + y),
        wrap(wrap(x) - y) == wrap(x - y),
        wrap(wrap(x) * y) == wrap(x * y),
{
    let k = lemma_wrap_differs_by_multiple(x);
    lemma_wrap_of_multiple(x + y, k);
    lemma_wrap_of_multiple(x - y, k);
    lemma_wrap_of_multiple(x * y, k * y);
    assert((x + k * 0x1_0000_0000_0000_0000) * y == x * y + (k * y) * 0x1_0000_0000_0000_0000)
        by (nonlinear_arith);
}

/// A representative lies in the range of `i64`, and what it stands for differs from it by whole
/// multiples of 2^64.
pub proof fn law_wrap_is_congruent(x: int)
    ensures
        i64::MIN <= wrap(x) <= i64::MAX,
        (wrap(x) - x) % 0x1_0000_0000_0000_0000 == 0,
{
    let k = lemma_wrap_differs_by_multiple(x);
    vstd::arithmetic::div_mod::lemma_mod_multiples_basic(k, 0x1_0000_0000_0000_0000);
}

} // verus!
