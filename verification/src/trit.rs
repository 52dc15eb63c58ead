//! Ternary weights.
use crate::arithmetic::{compares_single_valued, Arithmetic, Integers};
use vstd::prelude::*;

verus! {

/// A weight: negative one, zero, or positive one.
///
/// The variants stand in the order of their two-bit codes, so that a cast to an integer gives
/// the code.
#[derive(Clone, Copy, Debug, PartialEq, Eq, Structural)]
pub enum Trit {
    Zero,
    PosOne,
    NegOne,
}

/// That `t` is what thresholding gives for the weight `w`: zero where the magnitude of `w`
/// is below the threshold, else the sign of `w`, where all that is not above zero counts as
/// negative.
pub open spec fn quantizes<A: Arithmetic>(w: A::Elem, threshold: A::Elem, t: Trit) -> bool {
    exists|m: A::Elem, below: bool| #[trigger]
        call_ensures(A::less, (m, threshold), below) && call_ensures(A::magnitude, (w,), m) && (
        if below {
            t == Trit::Zero
        } else {
            takes_sign::<A>(w, t)
        })
}

/// That `t` is the sign of `w`: plus one where `w` is above zero, else minus one.
pub open spec fn takes_sign<A: Arithmetic>(w: A::Elem, t: Trit) -> bool {
    exists|z: A::Elem, above: bool| #[trigger]
        call_ensures(A::less, (z, w), above) && call_ensures(A::zero, (), z) && t == if above {
            Trit::PosOne
        } else {
            Trit::NegOne
        }
}

impl Trit {
    /// The number that the weight stands for.
    pub open spec fn value(self) -> int {
        match self {
            Trit::NegOne => -1,
            Trit::Zero => 0,
            Trit::PosOne => 1,
        }
    }

    /// The two bits that the weight is packed into.
    pub open spec fn code(self) -> u64 {
        match self {
            Trit::NegOne => 0b10,
            Trit::Zero => 0b00,
            Trit::PosOne => 0b01,
        }
    }

    /// The weight that two bits stand for; `0b11` is unused and read as zero.
    pub open spec fn decode(bits: u64) -> Trit {
        if bits == 0b01 {
            Trit::PosOne
        } else if bits == 0b10 {
            Trit::NegOne
        } else {
            Trit::Zero
        }
    }

    /// Encodes a weight to a ternary value: a weight whose magnitude is below `threshold` gives
    /// `Zero`, any other gives its sign. At a threshold of half of one that is the nearest
    /// ternary value.
    pub fn from_float<A: Arithmetic>(w: A::Elem, threshold: A::Elem) -> (t: Trit)
        ensures
            quantizes::<A>(w, threshold, t),
    {
        let m: A::Elem = A::magnitude(w);
        let below: bool = A::less(m, threshold);
        if below {
            Trit::Zero
        } else {
            let z: A::Elem = A::zero();
            let above: bool = A::less(z, w);
            let t: Trit = if above {
                Trit::PosOne
            } else {
                Trit::NegOne
            };
            assert(takes_sign::<A>(w, t));
            t
        }
    }

    /// The weight as an element.
    pub fn as_float<A: Arithmetic>(self) -> (e: A::Elem)
        ensures
            match self {
                Trit::NegOne => call_ensures(A::minus_one, (), e),
                Trit::Zero => call_ensures(A::zero, (), e),
                Trit::PosOne => call_ensures(A::one, (), e),
            },
    {
        match self {
            Trit::NegOne => A::minus_one(),
            Trit::Zero => A::zero(),
            Trit::PosOne => A::one(),
        }
    }

    /// The two bits that the weight is packed into: `0b00` for zero, `0b01` for plus one,
    /// `0b10` for minus one.
    pub fn bits(self) -> (bits: u64)
        ensures
            bits == self.code(),
    {
        match self {
            Trit::NegOne => 0b10,
            Trit::Zero => 0b00,
            Trit::PosOne => 0b01,
        }
    }

    /// The weight that two bits stand for; `0b11` is unused and read as zero.
    pub fn from_bits(bits: u64) -> (t: Trit)
        ensures
            t == Trit::decode(bits),
    {
        match bits {
            0b00 => Trit::Zero,
            0b01 => Trit::PosOne,
            0b10 => Trit::NegOne,
            _ => Trit::Zero,
        }
    }
}

/// Reading back the two bits of a weight gives the weight.
pub proof fn law_decode_undoes_code(t: Trit)
    ensures
        Trit::decode(t.code()) == t,
        t.code() <= 0b10,
{
}

/// That `A` takes the magnitude of `w` and compares it exactly, where `val` says which
/// number an element is. Every finite float does: it is a whole multiple of the smallest
/// positive float, and neither `abs` nor `<` rounds.
pub open spec fn compares_exactly<A: Arithmetic>(
    val: spec_fn(A::Elem) -> int,
    w: A::Elem,
    threshold: A::Elem,
) -> bool {
    &&& forall|m: A::Elem| #[trigger]
        call_ensures(A::magnitude, (w,), m) ==> val(m) == if val(w) < 0 {
            -val(w)
        } else {
            val(w)
        }
    &&& forall|m: A::Elem, b: bool| #[trigger]
        call_ensures(A::less, (m, threshold), b) ==> b == (val(m) < val(threshold))
    &&& forall|z: A::Elem, b: bool| #[trigger]
        call_ensures(A::less, (z, w), b) ==> b == (val(z) < val(w))
    &&& forall|z: A::Elem| #[trigger] call_ensures(A::zero, (), z) ==> val(z) == 0
}

/// Thresholding splits the weights in three: zero strictly between minus and plus the
/// threshold, plus one from the threshold up, minus one from minus the threshold down. The
/// last two bands meet only where the threshold is not positive; where a weight lies in both,
/// its sign decides.
pub proof fn law_threshold_bands<A: Arithmetic>(
    val: spec_fn(A::Elem) -> int,
    w: A::Elem,
    threshold: A::Elem,
    t: Trit,
)
    requires
        compares_exactly::<A>(val, w, threshold),
        !(val(threshold) <= val(w) <= -val(threshold)),
        quantizes::<A>(w, threshold, t),
    ensures
        t == Trit::Zero <==> -val(threshold) < val(w) < val(threshold),
        t == Trit::PosOne <==> val(w) >= val(threshold),
        t == Trit::NegOne <==> val(w) <= -val(threshold),
{
}

/// The three bands of [`law_threshold_bands`] for integer weights, the smallest `i64` included.
pub proof fn law_integer_threshold_bands(w: i64, threshold: i64, t: Trit)
    requires
        !(threshold <= w <= -threshold),
        quantizes::<Integers>(w, threshold, t),
    ensures
        t == Trit::Zero <==> -threshold < w < threshold,
        t == Trit::PosOne <==> w >= threshold,
        t == Trit::NegOne <==> w <= -threshold,
{
}

/// The distance of two numbers.
pub open spec fn distance(a: int, b: int) -> int {
    if a < b {
        b - a
    } else {
        a - b
    }
}

/// At a threshold of half of one, thresholding gives the nearest ternary value: no other lies
/// closer to the weight.
pub proof fn law_half_threshold_is_nearest<A: Arithmetic>(
    val: spec_fn(A::Elem) -> int,
    one: int,
    w: A::Elem,
    threshold: A::Elem,
    t: Trit,
    other: Trit,
)
    requires
        compares_exactly::<A>(val, w, threshold),
        one > 0,
        2 * val(threshold) == one,
        quantizes::<A>(w, threshold, t),
    ensures
        distance(val(w), t.value() * one) <= distance(val(w), other.value() * one),
{
    law_threshold_bands::<A>(val, w, threshold, t);
    lemma_nearest(one, val(w), t, other);
}

/// The nearest ternary value of [`law_half_threshold_is_nearest`] for integer weights, the
/// smallest `i64` included.
pub proof fn law_integer_half_threshold_is_nearest(w: i64, threshold: i64, t: Trit, other: Trit)
    requires
        threshold > 0,
        quantizes::<Integers>(w, threshold, t),
    ensures
        distance(w as int, t.value() * (2 * threshold)) <= distance(
            w as int,
            other.value() * (2 * threshold),
        ),
{
    law_integer_threshold_bands(w, threshold, t);
    lemma_nearest(2 * threshold, w as int, t, other);
}

/// A weight that lies in the band of a ternary value is nearest to that value.
proof fn lemma_nearest(one: int, w: int, t: Trit, other: Trit)
    requires
        one > 0,
        t == Trit::Zero <==> -one < 2 * w < one,
        t == Trit::PosOne <==> 2 * w >= one,
        t == Trit::NegOne <==> 2 * w <= -one,
    ensures
        distance(w, t.value() * one) <= distance(w, other.value() * one),
{
    assert(1 * one == one && 0 * one == 0 && -1 * one == -one) by (nonlinear_arith);
}

/// Thresholding one weight twice gives the same, where comparisons have one verdict.
pub proof fn law_thresholding_agrees<A: Arithmetic>(
    w: A::Elem,
    threshold: A::Elem,
    one: Trit,
    other: Trit,
)
    requires
        compares_single_valued::<A>(),
        quantizes::<A>(w, threshold, one),
        quantizes::<A>(w, threshold, other),
    ensures
        one == other,
{
}

/// Encoding the element that [`Trit::as_float`] gives, at a positive threshold that is not
/// above the element for one, gives the weight back.
pub proof fn law_encoding_round_trips<A: Arithmetic>(
    val: spec_fn(A::Elem) -> int,
    one: A::Elem,
    threshold: A::Elem,
    t: Trit,
    e: A::Elem,
    back: Trit,
)
    requires
        compares_exactly::<A>(val, e, threshold),
        0 < val(threshold) <= val(one),
        forall|p: A::Elem| #[trigger] call_ensures(A::one, (), p) ==> val(p) == val(one),
        forall|n: A::Elem| #[trigger] call_ensures(A::minus_one, (), n) ==> val(n) == -val(one),
        call_ensures(Trit::as_float::<A>, (t,), e),
        quantizes::<A>(e, threshold, back),
    ensures
        back == t,
        val(e) == t.value() * val(one),
{
    assert(-1 * val(one) == -val(one));
}

/// The codes are the numbers of the bit layout, a code is what is read back of any two bits
/// but the unused pattern, which is read as zero, and the value of a weight is its code, with
/// the code two for minus one.
pub proof fn law_codes_are_the_layout(t: Trit, bits: u64)
    ensures
        Trit::Zero.code() == 0,
        Trit::PosOne.code() == 1,
        Trit::NegOne.code() == 2,
        Trit::decode(bits).code() == (if bits == 1 || bits == 2 {
            bits
        } else {
            0
        }),
        t.value() == (if t.code() == 2 {
            -1
        } else {
            t.code() as int
        }),
{
}

/// Thresholding follows the comparisons: whatever the magnitude of the weight, the zero and the
/// two verdicts are, the weight is zero where its magnitude is below the threshold, else plus
/// one where it is above zero, else minus one.
pub proof fn law_thresholding_follows_comparisons<A: Arithmetic>(
    w: A::Elem,
    threshold: A::Elem,
    t: Trit,
    m: A::Elem,
    below: bool,
    z: A::Elem,
    above: bool,
)
    requires
        compares_single_valued::<A>(),
        quantizes::<A>(w, threshold, t),
        call_ensures(A::magnitude, (w,), m),
        call_ensures(A::less, (m, threshold), below),
        call_ensures(A::zero, (), z),
        call_ensures(A::less, (z, w), above),
    ensures
        below ==> t == Trit::Zero,
        !below && above ==> t == Trit::PosOne,
        !below && !above ==> t == Trit::NegOne,
{
}

/// Integer weights at any threshold: zero strictly between minus and plus the threshold, and
/// elsewhere the sign, where zero counts as negative.
pub proof fn law_integer_thresholding(w: i64, threshold: i64, t: Trit)
    requires
        quantizes::<Integers>(w, threshold, t),
    ensures
        -threshold < w < threshold ==> t == Trit::Zero,
        !(-threshold < w < threshold) && w > 0 ==> t == Trit::PosOne,
        !(-threshold < w < threshold) && w <= 0 ==> t == Trit::NegOne,
{
}

/// Integers compare exactly, but for the smallest `i64`, whose magnitude is out of range.
pub proof fn law_integers_compare_exactly(w: i64, threshold: i64)
    requires
        w != i64::MIN,
    ensures
        compares_exactly::<Integers>(|e: i64| e as int, w, threshold),
{
}

} // verus!
