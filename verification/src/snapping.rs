//! Where boxes land on the grid of device pixels.
//!
//! Painting at fractional device pixels is blurry, so the edges of a box are
//! rounded after layout, in absolute coordinates: one coordinate has one answer,
//! whichever box asks. Measured sizes are rounded up before layout instead.

use vstd::prelude::*;

use crate::geometry::{Bounds, Point, Size};
use crate::number::{
    is_device_ceiling, is_difference, is_non_negative, is_quotient, is_rounded, is_sum, Arithmetic,
    Pixels, Scalar,
};

verus! {

/// `r` is the point `a` moved by `b`.
pub open spec fn is_point_sum<A: Arithmetic>(
    arith: &A,
    a: Point<Scalar>,
    b: Point<Scalar>,
    r: Point<Scalar>,
) -> bool {
    &&& is_sum(arith, a.x, b.x, r.x)
    &&& is_sum(arith, a.y, b.y, r.y)
}

/// The point `a` moved by `b`.
pub fn point_sum<A: Arithmetic>(arith: &A, a: Point<Scalar>, b: Point<Scalar>) -> (r: Point<Scalar>)
    ensures
        is_point_sum(arith, a, b, r),
{
    Point { x: arith.sum(a.x, b.x), y: arith.sum(a.y, b.y) }
}

/// `r` is the corner opposite to `origin` in a box of this size.
pub open spec fn is_far_corner<A: Arithmetic>(
    arith: &A,
    origin: Point<Scalar>,
    size: Size<Scalar>,
    r: Point<Scalar>,
) -> bool {
    &&& is_sum(arith, origin.x, size.width, r.x)
    &&& is_sum(arith, origin.y, size.height, r.y)
}

/// `r` is the point `a` with both coordinates rounded.
pub open spec fn is_rounded_point<A: Arithmetic>(
    arith: &A,
    a: Point<Scalar>,
    r: Point<Scalar>,
) -> bool {
    &&& is_rounded(arith, a.x, r.x)
    &&& is_rounded(arith, a.y, r.y)
}

/// The point `a` with both coordinates rounded.
fn rounded_point<A: Arithmetic>(arith: &A, a: Point<Scalar>) -> (r: Point<Scalar>)
    ensures
        is_rounded_point(arith, a, r),
{
    Point { x: arith.round_half_toward_zero(a.x), y: arith.round_half_toward_zero(a.y) }
}

/// `r` is the rectangle between two corners.
pub open spec fn is_between_corners<A: Arithmetic>(
    arith: &A,
    near: Point<Scalar>,
    far: Point<Scalar>,
    r: Bounds<Scalar>,
) -> bool {
    &&& r.origin == near
    &&& is_difference(arith, far.x, near.x, r.size.width)
    &&& is_difference(arith, far.y, near.y, r.size.height)
}

/// `r` is the rectangle `device`, given in device pixels, in logical pixels.
pub open spec fn is_logical_bounds<A: Arithmetic>(
    arith: &A,
    device: Bounds<Scalar>,
    scale_factor: Scalar,
    r: Bounds<Pixels>,
) -> bool {
    &&& is_quotient(arith, device.origin.x, scale_factor, r.origin.x.0)
    &&& is_quotient(arith, device.origin.y, scale_factor, r.origin.y.0)
    &&& is_quotient(arith, device.size.width, scale_factor, r.size.width.0)
    &&& is_quotient(arith, device.size.height, scale_factor, r.size.height.0)
}

/// The steps in which the box at `origin` with this size snaps to `device`: `far`
/// is its far corner, both corners are rounded, and the rectangle between them
/// is taken.
pub open spec fn snaps_through<A: Arithmetic>(
    arith: &A,
    origin: Point<Scalar>,
    size: Size<Scalar>,
    far: Point<Scalar>,
    snapped_near: Point<Scalar>,
    snapped_far: Point<Scalar>,
    device: Bounds<Scalar>,
) -> bool {
    &&& is_far_corner(arith, origin, size, far)
    &&& is_rounded_point(arith, origin, snapped_near)
    &&& is_rounded_point(arith, far, snapped_far)
    &&& is_between_corners(arith, snapped_near, snapped_far, device)
}

/// The box at `origin` with this size snaps to `device`.
pub open spec fn snaps_to<A: Arithmetic>(
    arith: &A,
    origin: Point<Scalar>,
    size: Size<Scalar>,
    device: Bounds<Scalar>,
) -> bool {
    exists|far: Point<Scalar>, snapped_near: Point<Scalar>, snapped_far: Point<Scalar>|
        #[trigger] snaps_through(arith, origin, size, far, snapped_near, snapped_far, device)
}

/// `r` is where the box at `origin` with this size, in unrounded device pixels,
/// is painted, in logical pixels.
pub open spec fn is_painted_at<A: Arithmetic>(
    arith: &A,
    origin: Point<Scalar>,
    size: Size<Scalar>,
    scale_factor: Scalar,
    r: Bounds<Pixels>,
) -> bool {
    exists|device: Bounds<Scalar>|
        {
            &&& #[trigger] snaps_to(arith, origin, size, device)
            &&& is_logical_bounds(arith, device, scale_factor, r)
        }
}

/// Where the box at `origin` with this size is painted.
pub fn snapped_bounds<A: Arithmetic>(
    arith: &A,
    origin: Point<Scalar>,
    size: Size<Scalar>,
    scale_factor: Scalar,
) -> (r: Bounds<Pixels>)
    ensures
        is_painted_at(arith, origin, size, scale_factor, r),
{
    let far = Point { x: arith.sum(origin.x, size.width), y: arith.sum(origin.y, size.height) };
    let snapped_near = rounded_point(arith, origin);
    let snapped_far = rounded_point(arith, far);
    let device = Bounds {
        origin: snapped_near,
        size: Size {
            width: arith.difference(snapped_far.x, snapped_near.x),
            height: arith.difference(snapped_far.y, snapped_near.y),
        },
    };
    assert(snaps_through(arith, origin, size, far, snapped_near, snapped_far, device));
    assert(snaps_to(arith, origin, size, device));
    Bounds {
        origin: Point {
            x: Pixels(arith.quotient(device.origin.x, scale_factor)),
            y: Pixels(arith.quotient(device.origin.y, scale_factor)),
        },
        size: Size {
            width: Pixels(arith.quotient(device.size.width, scale_factor)),
            height: Pixels(arith.quotient(device.size.height, scale_factor)),
        },
    }
}

/// `r` is the measured length `d`, or zero where it is negative, rounded up to
/// whole device pixels.
pub open spec fn is_snapped_measure<A: Arithmetic>(
    arith: &A,
    d: Pixels,
    scale_factor: Scalar,
    r: Scalar,
) -> bool {
    exists|length: Scalar|
        {
            &&& #[trigger] is_non_negative(arith, d.0, length)
            &&& is_device_ceiling(arith, length, scale_factor, r)
        }
}

/// Both extents of `r` are those of `size`, rounded up to whole device pixels.
pub open spec fn is_snapped_measured_size<A: Arithmetic>(
    arith: &A,
    size: Size<Pixels>,
    scale_factor: Scalar,
    r: Size<Scalar>,
) -> bool {
    &&& is_snapped_measure(arith, size.width, scale_factor, r.width)
    &&& is_snapped_measure(arith, size.height, scale_factor, r.height)
}

/// A measured length in whole device pixels.
fn snapped_measure<A: Arithmetic>(arith: &A, d: Pixels, scale_factor: Scalar) -> (r: Scalar)
    ensures
        is_snapped_measure(arith, d, scale_factor, r),
{
    let length = arith.non_negative(d.0);
    assert(is_non_negative(arith, d.0, length));
    arith.ceil_to_device_pixel(length, scale_factor)
}

/// A measured size in whole device pixels.
pub fn snap_measured_size_to_device_pixels<A: Arithmetic>(
    arith: &A,
    size: Size<Pixels>,
    scale_factor: Scalar,
) -> (r: Size<Scalar>)
    ensures
        is_snapped_measured_size(arith, size, scale_factor, r),
{
    Size {
        width: snapped_measure(arith, size.width, scale_factor),
        height: snapped_measure(arith, size.height, scale_factor),
    }
}

/// The operations that place boxes give one result each.
pub open spec fn is_deterministic<A: Arithmetic>(arith: &A) -> bool {
    &&& forall|a: Scalar, b: Scalar, r: Scalar, s: Scalar|
        #[trigger] is_sum(arith, a, b, r) && #[trigger] is_sum(arith, a, b, s) ==> r == s
    &&& forall|a: Scalar, b: Scalar, r: Scalar, s: Scalar|
        #[trigger] is_difference(arith, a, b, r) && #[trigger] is_difference(arith, a, b, s) ==> r
            == s
    &&& forall|a: Scalar, b: Scalar, r: Scalar, s: Scalar|
        #[trigger] is_quotient(arith, a, b, r) && #[trigger] is_quotient(arith, a, b, s) ==> r == s
    &&& forall|a: Scalar, r: Scalar, s: Scalar|
        #[trigger] is_rounded(arith, a, r) && #[trigger] is_rounded(arith, a, s) ==> r == s
}

/// A box is painted at one place.
pub proof fn lemma_painted_at_one_place<A: Arithmetic>(
    arith: &A,
    origin: Point<Scalar>,
    size: Size<Scalar>,
    scale_factor: Scalar,
    r: Bounds<Pixels>,
    s: Bounds<Pixels>,
)
    requires
        is_deterministic(arith),
        is_painted_at(arith, origin, size, scale_factor, r),
        is_painted_at(arith, origin, size, scale_factor, s),
    ensures
        r == s,
{
    let d = choose|d: Bounds<Scalar>|
        #[trigger] snaps_to(arith, origin, size, d) && is_logical_bounds(
            arith,
            d,
            scale_factor,
            r,
        );
    let e = choose|e: Bounds<Scalar>|
        #[trigger] snaps_to(arith, origin, size, e) && is_logical_bounds(
            arith,
            e,
            scale_factor,
            s,
        );
    let (f, n, g) = choose|f: Point<Scalar>, n: Point<Scalar>, g: Point<Scalar>|
        #[trigger] snaps_through(arith, origin, size, f, n, g, d);
    let (f2, n2, g2) = choose|f: Point<Scalar>, n: Point<Scalar>, g: Point<Scalar>|
        #[trigger] snaps_through(arith, origin, size, f, n, g, e);
    assert(f == f2);
    assert(n == n2);
    assert(g == g2);
    assert(d == e);
}

/// Edge closure: two raw edges at the same absolute position, whichever boxes
/// they belong to and whichever sides they are, snap to the same column or row
/// of device pixels.
pub proof fn lemma_coincident_edges_close<A: Arithmetic>(
    arith: &A,
    origin: Point<Scalar>,
    size: Size<Scalar>,
    far: Point<Scalar>,
    snapped_near: Point<Scalar>,
    snapped_far: Point<Scalar>,
    device: Bounds<Scalar>,
    other_origin: Point<Scalar>,
    other_size: Size<Scalar>,
    other_far: Point<Scalar>,
    other_snapped_near: Point<Scalar>,
    other_snapped_far: Point<Scalar>,
    other_device: Bounds<Scalar>,
)
    requires
        is_deterministic(arith),
        snaps_through(arith, origin, size, far, snapped_near, snapped_far, device),
        snaps_through(
            arith,
            other_origin,
            other_size,
            other_far,
            other_snapped_near,
            other_snapped_far,
            other_device,
        ),
    ensures
        origin.x == other_origin.x ==> snapped_near.x == other_snapped_near.x,
        origin.y == other_origin.y ==> snapped_near.y == other_snapped_near.y,
        far.x == other_far.x ==> snapped_far.x == other_snapped_far.x,
        far.y == other_far.y ==> snapped_far.y == other_snapped_far.y,
        far.x == other_origin.x ==> snapped_far.x == other_snapped_near.x,
        far.y == other_origin.y ==> snapped_far.y == other_snapped_near.y,
{
}

/// Boxes whose near edges are at the same absolute position are painted with
/// their near edges at the same position.
pub proof fn lemma_painted_origins_agree<A: Arithmetic>(
    arith: &A,
    origin: Point<Scalar>,
    size: Size<Scalar>,
    painted: Bounds<Pixels>,
    other_origin: Point<Scalar>,
    other_size: Size<Scalar>,
    other_painted: Bounds<Pixels>,
    scale_factor: Scalar,
)
    requires
        is_deterministic(arith),
        is_painted_at(arith, origin, size, scale_factor, painted),
        is_painted_at(arith, other_origin, other_size, scale_factor, other_painted),
    ensures
        origin.x == other_origin.x ==> painted.origin.x == other_painted.origin.x,
        origin.y == other_origin.y ==> painted.origin.y == other_painted.origin.y,
{
    let d = choose|d: Bounds<Scalar>|
        #[trigger] snaps_to(arith, origin, size, d) && is_logical_bounds(
            arith,
            d,
            scale_factor,
            painted,
        );
    let e = choose|e: Bounds<Scalar>|
        #[trigger] snaps_to(arith, other_origin, other_size, e) && is_logical_bounds(
            arith,
            e,
            scale_factor,
            other_painted,
        );
    let (f, n, g) = choose|f: Point<Scalar>, n: Point<Scalar>, g: Point<Scalar>|
        #[trigger] snaps_through(arith, origin, size, f, n, g, d);
    let (f2, n2, g2) = choose|f: Point<Scalar>, n: Point<Scalar>, g: Point<Scalar>|
        #[trigger] snaps_through(arith, other_origin, other_size, f, n, g, e);
    lemma_coincident_edges_close(
        arith,
        origin,
        size,
        f,
        n,
        g,
        d,
        other_origin,
        other_size,
        f2,
        n2,
        g2,
        e,
    );
}

/// `value` reads whole numbers off scalars, and `arith` is exact on them as long
/// as results are at most `limit` in magnitude.
pub open spec fn is_exact_on_whole_numbers<A: Arithmetic>(
    arith: &A,
    value: spec_fn(Scalar) -> Option<int>,
    limit: int,
) -> bool {
    &&& forall|a: Scalar, b: Scalar, r: Scalar|
        #[trigger] is_sum(arith, a, b, r) && value(a) is Some && value(b) is Some && -limit
            <= value(a)->0 + value(b)->0 <= limit ==> value(r) == Some(value(a)->0 + value(b)->0)
    &&& forall|a: Scalar, b: Scalar, r: Scalar|
        #[trigger] is_difference(arith, a, b, r) && value(a) is Some && value(b) is Some && -limit
            <= value(a)->0 - value(b)->0 <= limit ==> value(r) == Some(value(a)->0 - value(b)->0)
    &&& forall|a: Scalar, r: Scalar| #[trigger]
        is_rounded(arith, a, r) && value(a) is Some ==> value(r) == value(a)
}

/// `from` and `to` are whole numbers that are at most `limit` apart.
pub open spec fn is_whole_span(
    value: spec_fn(Scalar) -> Option<int>,
    limit: int,
    from: Scalar,
    to: Scalar,
) -> bool {
    &&& value(from) is Some
    &&& value(to) is Some
    &&& -limit <= value(to)->0 - value(from)->0 <= limit
}

/// Translation stability: a box whose origin and size are whole numbers of
/// device pixels keeps exactly that size when it snaps, wherever it is.
pub proof fn lemma_whole_boxes_keep_their_size<A: Arithmetic>(
    arith: &A,
    value: spec_fn(Scalar) -> Option<int>,
    limit: int,
    origin: Point<Scalar>,
    size: Size<Scalar>,
    device: Bounds<Scalar>,
)
    requires
        is_exact_on_whole_numbers(arith, value, limit),
        snaps_to(arith, origin, size, device),
        value(origin.x) is Some,
        value(origin.y) is Some,
        value(size.width) is Some,
        value(size.height) is Some,
        -limit <= value(origin.x)->0 + value(size.width)->0 <= limit,
        -limit <= value(origin.y)->0 + value(size.height)->0 <= limit,
        -limit <= value(size.width)->0 <= limit,
        -limit <= value(size.height)->0 <= limit,
    ensures
        value(device.origin.x) == value(origin.x),
        value(device.origin.y) == value(origin.y),
        value(device.size.width) == value(size.width),
        value(device.size.height) == value(size.height),
{
    let (far, near, snapped_far) = choose|f: Point<Scalar>, n: Point<Scalar>, g: Point<Scalar>|
        #[trigger] snaps_through(arith, origin, size, f, n, g, device);
    assert(is_sum(arith, origin.x, size.width, far.x));
    assert(is_sum(arith, origin.y, size.height, far.y));
    assert(is_rounded(arith, origin.x, near.x) && is_rounded(arith, origin.y, near.y));
    assert(is_rounded(arith, far.x, snapped_far.x) && is_rounded(arith, far.y, snapped_far.y));
    assert(is_difference(arith, snapped_far.x, near.x, device.size.width));
    assert(is_difference(arith, snapped_far.y, near.y, device.size.height));
}

/// Edge closure of far edges: a box that snaps ends at the whole number of device
/// pixels that its raw far edge rounds to. Boxes whose raw far edges coincide
/// therefore end together, and a box ends where another begins if their raw
/// edges meet.
pub proof fn lemma_far_edges_land_on_their_rounding<A: Arithmetic>(
    arith: &A,
    value: spec_fn(Scalar) -> Option<int>,
    limit: int,
    origin: Point<Scalar>,
    size: Size<Scalar>,
    far: Point<Scalar>,
    device: Bounds<Scalar>,
    edge: Point<Scalar>,
)
    requires
        is_deterministic(arith),
        is_exact_on_whole_numbers(arith, value, limit),
        snaps_to(arith, origin, size, device),
        is_far_corner(arith, origin, size, far),
        is_rounded_point(arith, far, edge),
    ensures
        is_whole_span(value, limit, device.origin.x, edge.x) ==> value(device.size.width) == Some(
            value(edge.x)->0 - value(device.origin.x)->0,
        ),
        is_whole_span(value, limit, device.origin.y, edge.y) ==> value(device.size.height) == Some(
            value(edge.y)->0 - value(device.origin.y)->0,
        ),
{
    let (f, near, snapped_far) = choose|f: Point<Scalar>, n: Point<Scalar>, g: Point<Scalar>|
        #[trigger] snaps_through(arith, origin, size, f, n, g, device);
    assert(is_sum(arith, origin.x, size.width, f.x) && is_sum(arith, origin.x, size.width, far.x));
    assert(is_sum(arith, origin.y, size.height, f.y) && is_sum(arith, origin.y, size.height, far.y));
    assert(f == far);
    assert(is_rounded(arith, far.x, snapped_far.x) && is_rounded(arith, far.x, edge.x));
    assert(is_rounded(arith, far.y, snapped_far.y) && is_rounded(arith, far.y, edge.y));
    assert(is_difference(arith, snapped_far.x, near.x, device.size.width));
    assert(is_difference(arith, snapped_far.y, near.y, device.size.height));
}

} // verus!
