//! Numbers as the layout engine carries them, and the arithmetic on them.
//!
//! Layout works in single precision. The engine stores such numbers, moves them
//! between a style, a node and a rectangle, and decides which operation is
//! applied to which of them; the operations themselves belong to an
//! [`Arithmetic`].

use vstd::prelude::*;

verus! {

/// A single-precision number, held by its IEEE 754 bit pattern.
#[derive(Clone, Copy, Debug, Eq)]
pub struct Scalar {
    /// The bit pattern.
    pub bits: u32,
}

impl Scalar {
    /// Positive zero.
    pub open spec fn spec_zero() -> Scalar {
        Scalar { bits: 0 }
    }

    /// Positive zero.
    #[verifier::when_used_as_spec(spec_zero)]
    pub fn zero() -> (r: Scalar)
        ensures
            r == Scalar::spec_zero(),
    {
        Scalar { bits: 0 }
    }

    /// The bit pattern without the sign.
    pub open spec fn spec_magnitude_bits(self) -> u32 {
        if self.bits >= 0x8000_0000 {
            (self.bits - 0x8000_0000) as u32
        } else {
            self.bits
        }
    }

    /// The bit pattern without the sign.
    #[verifier::when_used_as_spec(spec_magnitude_bits)]
    fn magnitude_bits(self) -> (r: u32)
        ensures
            r == self.spec_magnitude_bits(),
    {
        if self.bits >= 0x8000_0000 {
            self.bits - 0x8000_0000
        } else {
            self.bits
        }
    }

    /// This is no number: the exponent is all ones, and some bit follows it.
    pub open spec fn is_nan(self) -> bool {
        self.spec_magnitude_bits() > 0x7f80_0000
    }

    /// This is positive or negative zero.
    pub open spec fn is_zero(self) -> bool {
        self.spec_magnitude_bits() == 0
    }

    /// Both are numbers, and the same one: the two zeros are.
    pub open spec fn is_number_equal(self, other: Scalar) -> bool {
        &&& !self.is_nan()
        &&& !other.is_nan()
        &&& self.bits == other.bits || (self.is_zero() && other.is_zero())
    }
}

/// Numbers are compared by value: the two zeros are equal, and what is not a
/// number is equal to nothing, itself included.
impl PartialEq for Scalar {
    fn eq(&self, other: &Self) -> (r: bool) {
        let (a, b) = (self.magnitude_bits(), other.magnitude_bits());
        a <= 0x7f80_0000 && b <= 0x7f80_0000 && (self.bits == other.bits || (a == 0 && b == 0))
    }
}

impl vstd::std_specs::cmp::PartialEqSpecImpl for Scalar {
    open spec fn obeys_eq_spec() -> bool {
        true
    }

    open spec fn eq_spec(&self, other: &Self) -> bool {
        self.is_number_equal(*other)
    }
}

/// A length in logical pixels.
#[derive(Clone, Copy, Debug, Eq)]
pub struct Pixels(pub Scalar);

impl PartialEq for Pixels {
    fn eq(&self, other: &Self) -> (r: bool) {
        self.0 == other.0
    }
}

impl vstd::std_specs::cmp::PartialEqSpecImpl for Pixels {
    open spec fn obeys_eq_spec() -> bool {
        true
    }

    open spec fn eq_spec(&self, other: &Self) -> bool {
        self.0.is_number_equal(other.0)
    }
}

/// The rem size that calc expressions are resolved with: sixteen logical pixels.
pub open spec fn spec_default_rem_size() -> Pixels {
    Pixels(Scalar { bits: 0x4180_0000 })
}

/// The rem size that calc expressions are resolved with: sixteen logical pixels.
#[verifier::when_used_as_spec(spec_default_rem_size)]
pub fn default_rem_size() -> (r: Pixels)
    ensures
        r == spec_default_rem_size(),
{
    Pixels(Scalar { bits: 0x4180_0000 })
}

/// A calc expression, by the handle under which it can be looked up again.
#[derive(Clone, Copy, Debug, PartialEq, Eq, Structural)]
pub struct CalcLength {
    /// The handle that a resolved layout style refers to the expression by.
    pub handle: u64,
}

/// The operations on numbers that layout is made of.
///
/// The engine states what it computes as a composition of these operations, and
/// holds for every implementation of them.
pub trait Arithmetic {
    /// `a + b`.
    fn sum(&self, a: Scalar, b: Scalar) -> Scalar;

    /// `a - b`.
    fn difference(&self, a: Scalar, b: Scalar) -> Scalar;

    /// `a * b`.
    fn product(&self, a: Scalar, b: Scalar) -> Scalar;

    /// `a / b`.
    fn quotient(&self, a: Scalar, b: Scalar) -> Scalar;

    /// `a`, or zero where `a` is negative or not a number.
    fn non_negative(&self, a: Scalar) -> Scalar;

    /// The nearest integer to `a`, midpoints toward zero.
    fn round_half_toward_zero(&self, a: Scalar) -> Scalar;

    /// The logical length `a` in whole device pixels, midpoints toward zero.
    fn round_to_device_pixel(&self, a: Scalar, scale_factor: Scalar) -> Scalar;

    /// The logical stroke width `a` in whole device pixels; a width other than
    /// zero never vanishes.
    fn round_stroke_to_device_pixel(&self, a: Scalar, scale_factor: Scalar) -> Scalar;

    /// The logical length `a` in device pixels, rounded up to whole ones.
    fn ceil_to_device_pixel(&self, a: Scalar, scale_factor: Scalar) -> Scalar;

    /// The value of a calc expression in device pixels, with percentages taken
    /// of `basis`.
    fn resolve_calc(
        &self,
        length: CalcLength,
        basis: Scalar,
        rem_size: Pixels,
        scale_factor: Scalar,
    ) -> Scalar;
}

/// `r` is what `arith` gives for `a + b`.
pub open spec fn is_sum<A: Arithmetic>(arith: &A, a: Scalar, b: Scalar, r: Scalar) -> bool {
    call_ensures(A::sum, (arith, a, b), r)
}

/// `r` is what `arith` gives for `a - b`.
pub open spec fn is_difference<A: Arithmetic>(arith: &A, a: Scalar, b: Scalar, r: Scalar) -> bool {
    call_ensures(A::difference, (arith, a, b), r)
}

/// `r` is what `arith` gives for `a * b`.
pub open spec fn is_product<A: Arithmetic>(arith: &A, a: Scalar, b: Scalar, r: Scalar) -> bool {
    call_ensures(A::product, (arith, a, b), r)
}

/// `r` is what `arith` gives for `a / b`.
pub open spec fn is_quotient<A: Arithmetic>(arith: &A, a: Scalar, b: Scalar, r: Scalar) -> bool {
    call_ensures(A::quotient, (arith, a, b), r)
}

/// `r` is what `arith` gives for `a` with negative values taken to zero.
pub open spec fn is_non_negative<A: Arithmetic>(arith: &A, a: Scalar, r: Scalar) -> bool {
    call_ensures(A::non_negative, (arith, a), r)
}

/// `r` is what `arith` rounds `a` to.
pub open spec fn is_rounded<A: Arithmetic>(arith: &A, a: Scalar, r: Scalar) -> bool {
    call_ensures(A::round_half_toward_zero, (arith, a), r)
}

/// `r` is the whole number of device pixels that `arith` gives for the logical
/// length `a`.
pub open spec fn is_device_length<A: Arithmetic>(
    arith: &A,
    a: Scalar,
    scale_factor: Scalar,
    r: Scalar,
) -> bool {
    call_ensures(A::round_to_device_pixel, (arith, a, scale_factor), r)
}

/// `r` is the whole number of device pixels that `arith` gives for the logical
/// stroke width `a`.
pub open spec fn is_device_stroke<A: Arithmetic>(
    arith: &A,
    a: Scalar,
    scale_factor: Scalar,
    r: Scalar,
) -> bool {
    call_ensures(A::round_stroke_to_device_pixel, (arith, a, scale_factor), r)
}

/// `r` is the whole number of device pixels that `arith` gives as enough to hold
/// the logical length `a`.
pub open spec fn is_device_ceiling<A: Arithmetic>(
    arith: &A,
    a: Scalar,
    scale_factor: Scalar,
    r: Scalar,
) -> bool {
    call_ensures(A::ceil_to_device_pixel, (arith, a, scale_factor), r)
}

/// `r` is the value that `arith` gives for the calc expression `length`.
pub open spec fn is_resolved_calc<A: Arithmetic>(
    arith: &A,
    length: CalcLength,
    basis: Scalar,
    rem_size: Pixels,
    scale_factor: Scalar,
    r: Scalar,
) -> bool {
    call_ensures(A::resolve_calc, (arith, length, basis, rem_size, scale_factor), r)
}

} // verus!
