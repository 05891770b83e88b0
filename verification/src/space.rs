//! The space that an element is laid out in.

use vstd::prelude::*;

use crate::geometry::Size;
use crate::number::{is_product, is_quotient, Arithmetic, Pixels, Scalar};

verus! {

/// The space available for an element to be laid out in.
#[derive(Clone, Copy, Debug, Eq)]
pub enum AvailableSpace {
    /// The amount of space available is the specified number of pixels.
    Definite(Pixels),
    /// The amount of space available is indefinite and the node should be laid
    /// out under a min-content constraint.
    MinContent,
    /// The amount of space available is indefinite and the node should be laid
    /// out under a max-content constraint.
    MaxContent,
}

/// Definite amounts are compared as numbers.
impl PartialEq for AvailableSpace {
    fn eq(&self, other: &Self) -> (r: bool) {
        match (self, other) {
            (AvailableSpace::Definite(a), AvailableSpace::Definite(b)) => *a == *b,
            (AvailableSpace::MinContent, AvailableSpace::MinContent) => true,
            (AvailableSpace::MaxContent, AvailableSpace::MaxContent) => true,
            _ => false,
        }
    }
}

impl vstd::std_specs::cmp::PartialEqSpecImpl for AvailableSpace {
    open spec fn obeys_eq_spec() -> bool {
        true
    }

    open spec fn eq_spec(&self, other: &Self) -> bool {
        match (*self, *other) {
            (AvailableSpace::Definite(a), AvailableSpace::Definite(b)) => a.0.is_number_equal(
                b.0,
            ),
            (AvailableSpace::MinContent, AvailableSpace::MinContent) => true,
            (AvailableSpace::MaxContent, AvailableSpace::MaxContent) => true,
            _ => false,
        }
    }
}

impl Default for AvailableSpace {
    fn default() -> (r: Self)
        ensures
            r == AvailableSpace::MinContent,
    {
        AvailableSpace::MinContent
    }
}

impl AvailableSpace {
    /// Returns a `Size` with both width and height set to
    /// `AvailableSpace::MinContent`.
    pub fn min_size() -> (r: Size<AvailableSpace>)
        ensures
            r == (Size {
                width: AvailableSpace::MinContent,
                height: AvailableSpace::MinContent,
            }),
    {
        Size { width: AvailableSpace::MinContent, height: AvailableSpace::MinContent }
    }

    /// `r` is this space with a definite amount multiplied by `scale_factor`.
    pub open spec fn is_in_device_pixels<A: Arithmetic>(
        self,
        arith: &A,
        scale_factor: Scalar,
        r: AvailableSpace,
    ) -> bool {
        match self {
            AvailableSpace::Definite(pixels) => {
                &&& r is Definite
                &&& is_product(arith, pixels.0, scale_factor, r->Definite_0.0)
            },
            AvailableSpace::MinContent => r is MinContent,
            AvailableSpace::MaxContent => r is MaxContent,
        }
    }

    /// This space in device pixels.
    pub fn to_device_pixels<A: Arithmetic>(self, arith: &A, scale_factor: Scalar) -> (r:
        AvailableSpace)
        ensures
            self.is_in_device_pixels(arith, scale_factor, r),
    {
        match self {
            AvailableSpace::Definite(pixels) => AvailableSpace::Definite(
                Pixels(arith.product(pixels.0, scale_factor)),
            ),
            AvailableSpace::MinContent => AvailableSpace::MinContent,
            AvailableSpace::MaxContent => AvailableSpace::MaxContent,
        }
    }

    /// `r` is this space with a definite amount divided by `scale_factor`.
    pub open spec fn is_in_logical_pixels<A: Arithmetic>(
        self,
        arith: &A,
        scale_factor: Scalar,
        r: AvailableSpace,
    ) -> bool {
        match self {
            AvailableSpace::Definite(pixels) => {
                &&& r is Definite
                &&& is_quotient(arith, pixels.0, scale_factor, r->Definite_0.0)
            },
            AvailableSpace::MinContent => r is MinContent,
            AvailableSpace::MaxContent => r is MaxContent,
        }
    }

    /// This space, given in device pixels, in logical pixels.
    pub fn to_logical_pixels<A: Arithmetic>(self, arith: &A, scale_factor: Scalar) -> (r:
        AvailableSpace)
        ensures
            self.is_in_logical_pixels(arith, scale_factor, r),
    {
        match self {
            AvailableSpace::Definite(pixels) => AvailableSpace::Definite(
                Pixels(arith.quotient(pixels.0, scale_factor)),
            ),
            AvailableSpace::MinContent => AvailableSpace::MinContent,
            AvailableSpace::MaxContent => AvailableSpace::MaxContent,
        }
    }
}

/// `r` is a space on both axes with definite amounts in device pixels.
pub open spec fn is_size_in_device_pixels<A: Arithmetic>(
    arith: &A,
    space: Size<AvailableSpace>,
    scale_factor: Scalar,
    r: Size<AvailableSpace>,
) -> bool {
    &&& space.width.is_in_device_pixels(arith, scale_factor, r.width)
    &&& space.height.is_in_device_pixels(arith, scale_factor, r.height)
}

impl From<Pixels> for AvailableSpace {
    fn from(pixels: Pixels) -> (r: Self) {
        AvailableSpace::Definite(pixels)
    }
}

impl vstd::std_specs::convert::FromSpecImpl<Pixels> for AvailableSpace {
    open spec fn obeys_from_spec() -> bool {
        true
    }

    open spec fn from_spec(pixels: Pixels) -> Self {
        AvailableSpace::Definite(pixels)
    }
}

impl From<Size<Pixels>> for Size<AvailableSpace> {
    fn from(size: Size<Pixels>) -> (r: Self) {
        Size {
            width: AvailableSpace::Definite(size.width),
            height: AvailableSpace::Definite(size.height),
        }
    }
}

impl vstd::std_specs::convert::FromSpecImpl<Size<Pixels>> for Size<AvailableSpace> {
    open spec fn obeys_from_spec() -> bool {
        true
    }

    open spec fn from_spec(size: Size<Pixels>) -> Self {
        Size {
            width: AvailableSpace::Definite(size.width),
            height: AvailableSpace::Definite(size.height),
        }
    }
}

} // verus!
