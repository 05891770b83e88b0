//! Scalars read as real numbers, for laws that say what results are worth.

use vstd::prelude::*;
use vstd::std_specs::cmp::PartialEqSpec;

use crate::number::{
    is_device_ceiling, is_device_length, is_device_stroke, is_difference, is_non_negative,
    is_product, is_quotient, is_resolved_calc, is_rounded, is_sum, Arithmetic, CalcLength, Pixels,
    Scalar,
};
use crate::space::AvailableSpace;

verus! {

/// A way to read scalars as real numbers.
pub struct Reading {
    /// The number that a scalar stands for, if it stands for one.
    pub read: spec_fn(Scalar) -> Option<real>,
    /// The numbers that some scalar stands for.
    pub fits: spec_fn(real) -> bool,
}

impl Reading {
    /// The scalar stands for a number.
    pub open spec fn has(self, a: Scalar) -> bool {
        (self.read)(a) is Some
    }

    /// The number that a scalar stands for.
    pub open spec fn of(self, a: Scalar) -> real {
        (self.read)(a)->0
    }

    /// The scalar stands for this number.
    pub open spec fn reads(self, a: Scalar, number: real) -> bool {
        (self.read)(a) == Some(number)
    }
}

/// `r` is the integer `n`.
pub open spec fn is_integer(n: int, r: real) -> bool {
    r == n as real
}

/// `r` is an integer.
pub open spec fn is_whole(r: real) -> bool {
    exists|n: int| #[trigger] is_integer(n, r)
}

/// `r` is the integer that is nearest to `a`; of two, the one nearer to zero.
pub open spec fn is_nearest_whole(a: real, r: real) -> bool {
    &&& is_whole(r)
    &&& 2 as real * (r - a) <= 1 as real
    &&& 2 as real * (a - r) <= 1 as real
    &&& 2 as real * (r - a) == 1 as real ==> a < 0 as real
    &&& 2 as real * (a - r) == 1 as real ==> a > 0 as real
}

/// `r` is the least integer that is not below `a`.
pub open spec fn is_least_whole_above(a: real, r: real) -> bool {
    &&& is_whole(r)
    &&& a <= r
    &&& r < a + 1 as real
}

/// `r` is the thickness of a stroke of the given width that is `a` device pixels
/// wide: nothing for no width, otherwise the nearest integer, but at least one.
pub open spec fn is_stroke_thickness(width: real, a: real, r: real) -> bool {
    if width == 0 as real {
        r == 0 as real
    } else {
        &&& r >= 1 as real
        &&& is_nearest_whole(a, r) || (r == 1 as real && 2 as real * a < 3 as real)
    }
}

/// `arith` computes with the numbers that scalars are read as: an operation gives
/// the true result wherever a scalar stands for it, and rounding gives integers.
pub open spec fn is_faithful<A: Arithmetic>(arith: &A, q: Reading) -> bool {
    &&& forall|a: Scalar, b: Scalar, r: Scalar| #[trigger]
        call_ensures(A::sum, (arith, a, b), r) && q.has(a) && q.has(b) && (q.fits)(
            q.of(a) + q.of(b),
        ) ==> q.reads(r, q.of(a) + q.of(b))
    &&& forall|a: Scalar, b: Scalar, r: Scalar| #[trigger]
        call_ensures(A::difference, (arith, a, b), r) && q.has(a) && q.has(b) && (q.fits)(
            q.of(a) - q.of(b),
        ) ==> q.reads(r, q.of(a) - q.of(b))
    &&& forall|a: Scalar, b: Scalar, r: Scalar| #[trigger]
        call_ensures(A::product, (arith, a, b), r) && q.has(a) && q.has(b) && (q.fits)(
            q.of(a) * q.of(b),
        ) ==> q.reads(r, q.of(a) * q.of(b))
    &&& forall|a: Scalar, b: Scalar, r: Scalar| #[trigger]
        call_ensures(A::quotient, (arith, a, b), r) && q.has(a) && q.has(b) && q.of(b) != 0 as real
            && (q.fits)(q.of(a) / q.of(b)) ==> q.reads(r, q.of(a) / q.of(b))
    &&& forall|a: Scalar, r: Scalar| #[trigger]
        call_ensures(A::non_negative, (arith, a), r) && q.has(a) ==> q.reads(
            r,
            if q.of(a) > 0 as real {
                q.of(a)
            } else {
                0 as real
            },
        )
    &&& forall|a: Scalar, r: Scalar| #[trigger]
        call_ensures(A::round_half_toward_zero, (arith, a), r) && q.has(a) ==> q.has(r)
            && is_nearest_whole(q.of(a), q.of(r))
    &&& forall|a: Scalar, s: Scalar, r: Scalar| #[trigger]
        call_ensures(A::round_to_device_pixel, (arith, a, s), r) && q.has(a) && q.has(s) && (
        q.fits)(q.of(a) * q.of(s)) ==> q.has(r) && is_nearest_whole(q.of(a) * q.of(s), q.of(r))
    &&& forall|a: Scalar, s: Scalar, r: Scalar| #[trigger]
        call_ensures(A::round_stroke_to_device_pixel, (arith, a, s), r) && q.has(a) && q.has(s) && (
        q.fits)(q.of(a) * q.of(s)) ==> q.has(r) && is_stroke_thickness(
            q.of(a),
            q.of(a) * q.of(s),
            q.of(r),
        )
    &&& forall|a: Scalar, s: Scalar, r: Scalar| #[trigger]
        call_ensures(A::ceil_to_device_pixel, (arith, a, s), r) && q.has(a) && q.has(s) && (q.fits)(
            q.of(a) * q.of(s),
        ) ==> q.has(r) && is_least_whole_above(q.of(a) * q.of(s), q.of(r))
}

/// The relations that contracts speak of are the operations of the arithmetic, on
/// the same numbers in the same places.
pub proof fn lemma_relations_are_the_operations<A: Arithmetic>(
    arith: &A,
    a: Scalar,
    b: Scalar,
    length: CalcLength,
    rem_size: Pixels,
    r: Scalar,
)
    ensures
        is_sum(arith, a, b, r) <==> call_ensures(A::sum, (arith, a, b), r),
        is_difference(arith, a, b, r) <==> call_ensures(A::difference, (arith, a, b), r),
        is_product(arith, a, b, r) <==> call_ensures(A::product, (arith, a, b), r),
        is_quotient(arith, a, b, r) <==> call_ensures(A::quotient, (arith, a, b), r),
        is_non_negative(arith, a, r) <==> call_ensures(A::non_negative, (arith, a), r),
        is_rounded(arith, a, r) <==> call_ensures(A::round_half_toward_zero, (arith, a), r),
        is_device_length(arith, a, b, r) <==> call_ensures(
            A::round_to_device_pixel,
            (arith, a, b),
            r,
        ),
        is_device_stroke(arith, a, b, r) <==> call_ensures(
            A::round_stroke_to_device_pixel,
            (arith, a, b),
            r,
        ),
        is_device_ceiling(arith, a, b, r) <==> call_ensures(
            A::ceil_to_device_pixel,
            (arith, a, b),
            r,
        ),
        is_resolved_calc(arith, length, a, rem_size, b, r) <==> call_ensures(
            A::resolve_calc,
            (arith, length, a, rem_size, b),
            r,
        ),
{
}

/// Equality of numbers is symmetric and transitive, and a number is equal to
/// itself exactly if its exponent is not all ones with some bit behind it. Two
/// bit patterns stand for zero; no other two are equal.
pub proof fn lemma_equality_of_numbers(a: Scalar, b: Scalar, c: Scalar)
    ensures
        a.is_number_equal(b) ==> b.is_number_equal(a),
        a.is_number_equal(b) && b.is_number_equal(c) ==> a.is_number_equal(c),
        a.is_number_equal(a) <==> a.bits <= 0x7f80_0000 || 0x8000_0000 <= a.bits <= 0xff80_0000,
        a.is_number_equal(b) && a.bits != b.bits ==> {
            &&& a.bits == 0 || a.bits == 0x8000_0000
            &&& b.bits == 0 || b.bits == 0x8000_0000
        },
        a.bits == 0 && b.bits == 0x8000_0000 ==> a.is_number_equal(b),
        a.is_zero() <==> a.bits == 0 || a.bits == 0x8000_0000,
        a.is_number_equal(b) == <Scalar as PartialEqSpec>::eq_spec(&a, &b),
        a.is_number_equal(b) == <Pixels as PartialEqSpec>::eq_spec(&Pixels(a), &Pixels(b)),
{
}

/// Spaces are equal if both are of the same kind and, if definite, of the same
/// number of pixels.
pub proof fn lemma_equality_of_spaces(a: AvailableSpace, b: AvailableSpace)
    ensures
        <AvailableSpace as PartialEqSpec>::eq_spec(&a, &b) <==> {
            ||| a is MinContent && b is MinContent
            ||| a is MaxContent && b is MaxContent
            ||| a is Definite && b is Definite && a->Definite_0.0.is_number_equal(
                b->Definite_0.0,
            )
        },
{
}

/// There is one nearest integer.
pub proof fn lemma_nearest_whole_is_one(a: real, r: real, s: real)
    requires
        is_nearest_whole(a, r),
        is_nearest_whole(a, s),
    ensures
        r == s,
{
    let n = choose|n: int| #[trigger] is_integer(n, r);
    let m = choose|m: int| #[trigger] is_integer(m, s);
    assert(n == m);
}

/// An integer is nearest to itself.
pub proof fn lemma_whole_is_nearest_to_itself(a: real, r: real)
    requires
        is_whole(a),
        is_nearest_whole(a, r),
    ensures
        r == a,
{
    lemma_nearest_whole_is_one(a, a, r);
}

/// What is divided and multiplied again is what it was.
pub proof fn lemma_division_undone(a: real, s: real)
    requires
        s != 0 as real,
    ensures
        (a / s) * s == a,
        (a * s) / s == a,
{
    assert((a / s) * s == a) by (nonlinear_arith)
        requires
            s != 0 as real,
    ;
    assert((a * s) / s == a) by (nonlinear_arith)
        requires
            s != 0 as real,
    ;
}

/// Multiplication distributes over a sum.
pub proof fn lemma_product_of_sum(a: real, b: real, s: real)
    ensures
        (a + b) * s == a * s + b * s,
{
    assert((a + b) * s == a * s + b * s) by (nonlinear_arith);
}

} // verus!
