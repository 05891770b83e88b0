//! What scaling, snapping and measuring mean as numbers.

use vstd::prelude::*;
use vstd::std_specs::convert::FromSpec;

use crate::geometry::{Bounds, Point, Size};
use crate::number::{is_quotient, Arithmetic, Pixels, Scalar};
use crate::reading::{
    is_faithful, is_integer, is_least_whole_above, is_nearest_whole, is_whole,
    lemma_division_undone, lemma_product_of_sum, lemma_whole_is_nearest_to_itself, Reading,
};
use crate::run::{
    are_leaf_metrics, is_logical_dimension, is_measure_input, LeafMetrics, MeasureInput,
    MeasuredLayout,
};
use crate::snapping::{
    is_deterministic, is_logical_bounds, is_painted_at, is_point_sum, is_snapped_measure,
    is_snapped_measured_size, snaps_through, snaps_to,
};
use crate::space::{is_size_in_device_pixels, AvailableSpace};

verus! {

/// A definite space in device pixels is the amount in logical pixels times the
/// scale factor, whatever the scale factor; other spaces are not scaled.
pub proof fn lemma_space_grows_with_scale<A: Arithmetic>(
    arith: &A,
    q: Reading,
    space: AvailableSpace,
    scale_factor: Scalar,
    r: AvailableSpace,
)
    requires
        is_faithful(arith, q),
        space.is_in_device_pixels(arith, scale_factor, r),
    ensures
        space is MinContent <==> r is MinContent,
        space is MaxContent <==> r is MaxContent,
        space matches AvailableSpace::Definite(a) ==> (r matches AvailableSpace::Definite(b) && (
        q.has(a.0) && q.has(scale_factor) && (q.fits)(q.of(a.0) * q.of(scale_factor)) ==> q.reads(
            b.0,
            q.of(a.0) * q.of(scale_factor),
        ))),
        space is Definite ==> call_ensures(
            A::product,
            (arith, space->Definite_0.0, scale_factor),
            r->Definite_0.0,
        ),
{
}

/// A definite space in logical pixels, times the scale factor, is the amount in
/// device pixels, whatever the scale factor; other spaces are not scaled.
pub proof fn lemma_space_shrinks_with_scale<A: Arithmetic>(
    arith: &A,
    q: Reading,
    space: AvailableSpace,
    scale_factor: Scalar,
    r: AvailableSpace,
)
    requires
        is_faithful(arith, q),
        space.is_in_logical_pixels(arith, scale_factor, r),
    ensures
        space is MinContent <==> r is MinContent,
        space is MaxContent <==> r is MaxContent,
        space matches AvailableSpace::Definite(a) ==> (r matches AvailableSpace::Definite(b) && (
        q.has(a.0) && q.has(scale_factor) && q.of(scale_factor) != 0 as real && (q.fits)(
            q.of(a.0) / q.of(scale_factor),
        ) ==> q.has(b.0) && q.of(b.0) * q.of(scale_factor) == q.of(a.0))),
        space is Definite ==> call_ensures(
            A::quotient,
            (arith, space->Definite_0.0, scale_factor),
            r->Definite_0.0,
        ),
{
    if let AvailableSpace::Definite(a) = space {
        if q.of(scale_factor) != 0 as real {
            lemma_division_undone(q.of(a.0), q.of(scale_factor));
        }
    }
}

/// A space that is brought into device pixels and back is the space it was.
pub proof fn lemma_space_round_trip<A: Arithmetic>(
    arith: &A,
    q: Reading,
    space: AvailableSpace,
    scale_factor: Scalar,
    device: AvailableSpace,
    logical: AvailableSpace,
)
    requires
        is_faithful(arith, q),
        space.is_in_device_pixels(arith, scale_factor, device),
        device.is_in_logical_pixels(arith, scale_factor, logical),
        q.has(scale_factor),
        q.of(scale_factor) != 0 as real,
        space matches AvailableSpace::Definite(a) ==> q.has(a.0) && (q.fits)(q.of(a.0)) && (
        q.fits)(q.of(a.0) * q.of(scale_factor)),
    ensures
        space is MinContent <==> logical is MinContent,
        space is MaxContent <==> logical is MaxContent,
        space matches AvailableSpace::Definite(a) ==> (logical matches AvailableSpace::Definite(b)
            && q.reads(b.0, q.of(a.0))),
{
    lemma_space_grows_with_scale(arith, q, space, scale_factor, device);
    if let AvailableSpace::Definite(a) = space {
        lemma_division_undone(q.of(a.0), q.of(scale_factor));
    }
}

/// At twice the scale factor a definite space is twice as many device pixels.
pub proof fn lemma_space_doubles_with_scale<A: Arithmetic>(
    arith: &A,
    q: Reading,
    amount: Pixels,
    scale_factor: Scalar,
    r: AvailableSpace,
    double: Scalar,
    doubled: AvailableSpace,
)
    requires
        is_faithful(arith, q),
        AvailableSpace::Definite(amount).is_in_device_pixels(arith, scale_factor, r),
        AvailableSpace::Definite(amount).is_in_device_pixels(arith, double, doubled),
        q.has(amount.0),
        q.has(scale_factor),
        q.reads(double, 2 as real * q.of(scale_factor)),
        (q.fits)(q.of(amount.0) * q.of(scale_factor)),
        (q.fits)(q.of(amount.0) * q.of(double)),
    ensures
        r is Definite,
        doubled is Definite,
        q.has(r->Definite_0.0),
        q.reads(doubled->Definite_0.0, 2 as real * q.of(r->Definite_0.0)),
{
    let (a, s) = (q.of(amount.0), q.of(scale_factor));
    assert(a * (2 as real * s) == 2 as real * (a * s)) by (nonlinear_arith);
}

/// Layout runs in device pixels on both axes and at every scale factor.
pub proof fn lemma_layout_runs_in_device_pixels<A: Arithmetic>(
    arith: &A,
    q: Reading,
    space: Size<AvailableSpace>,
    scale_factor: Scalar,
    r: Size<AvailableSpace>,
)
    requires
        is_faithful(arith, q),
        is_size_in_device_pixels(arith, space, scale_factor, r),
    ensures
        grows_to(q, space.width, scale_factor, r.width),
        grows_to(q, space.height, scale_factor, r.height),
        is_size_in_device_pixels(arith, exchanged_size(space), scale_factor, exchanged_size(r)),
{
    lemma_space_grows_with_scale(arith, q, space.width, scale_factor, r.width);
    lemma_space_grows_with_scale(arith, q, space.height, scale_factor, r.height);
}

/// A definite space is as many device pixels as logical ones times the scale
/// factor; other spaces stay what they are.
pub open spec fn grows_to(
    q: Reading,
    space: AvailableSpace,
    scale: Scalar,
    r: AvailableSpace,
) -> bool {
    &&& space is MinContent <==> r is MinContent
    &&& space is MaxContent <==> r is MaxContent
    &&& space is Definite && q.has(space->Definite_0.0) && q.has(scale) && (q.fits)(
        q.of(space->Definite_0.0) * q.of(scale),
    ) ==> r is Definite && q.reads(r->Definite_0.0, q.of(space->Definite_0.0) * q.of(scale))
}

/// A number of pixels taken as a space is that definite number of pixels.
pub proof fn lemma_pixels_are_definite_space(pixels: Pixels, size: Size<Pixels>)
    ensures
        <AvailableSpace as FromSpec<Pixels>>::from_spec(pixels) is Definite,
        <AvailableSpace as FromSpec<Pixels>>::from_spec(pixels)->Definite_0 == pixels,
        <Size<AvailableSpace> as FromSpec<Size<Pixels>>>::from_spec(size).width
            == AvailableSpace::Definite(size.width),
        <Size<AvailableSpace> as FromSpec<Size<Pixels>>>::from_spec(size).height
            == AvailableSpace::Definite(size.height),
{
}

/// Moving a point adds the coordinates.
pub proof fn lemma_points_add_up<A: Arithmetic>(
    arith: &A,
    q: Reading,
    a: Point<Scalar>,
    b: Point<Scalar>,
    r: Point<Scalar>,
)
    requires
        is_faithful(arith, q),
        is_point_sum(arith, a, b, r),
    ensures
        q.has(a.x) && q.has(b.x) && (q.fits)(q.of(a.x) + q.of(b.x)) ==> q.reads(
            r.x,
            q.of(a.x) + q.of(b.x),
        ),
        q.has(a.y) && q.has(b.y) && (q.fits)(q.of(a.y) + q.of(b.y)) ==> q.reads(
            r.y,
            q.of(a.y) + q.of(b.y),
        ),
{
}

/// Along one axis, scalars stand for all numbers that painting a box takes: its
/// far edge, the extent between its rounded edges, and both in logical pixels.
pub open spec fn paints_exactly(q: Reading, near: real, extent: real, scale: real) -> bool {
    &&& scale != 0 as real
    &&& (q.fits)(near + extent)
    &&& forall|n: real, m: real|
        #[trigger] is_nearest_whole(near, n) && #[trigger] is_nearest_whole(near + extent, m) ==> {
            &&& (q.fits)(m - n)
            &&& (q.fits)(n / scale)
            &&& (q.fits)((m - n) / scale)
        }
}

/// Along one axis, what is painted starts at the device pixel that is nearest to
/// the near edge, and ends at the one that is nearest to the far edge: both are
/// found by multiplying with the scale factor.
pub open spec fn is_painted_along(
    q: Reading,
    near: real,
    extent: real,
    scale: real,
    painted_near: Pixels,
    painted_extent: Pixels,
) -> bool {
    let (from, length) = (q.of(painted_near.0), q.of(painted_extent.0));
    &&& q.has(painted_near.0)
    &&& q.has(painted_extent.0)
    &&& is_nearest_whole(near, from * scale)
    &&& is_nearest_whole(near + extent, (from + length) * scale)
}

/// Where a box is painted leads back to the grid of device pixels, at every scale
/// factor and along each axis: times the scale factor, its near and far edges are
/// the integers that are nearest to the edges of the box.
pub proof fn lemma_painted_edges_are_nearest<A: Arithmetic>(
    arith: &A,
    q: Reading,
    origin: Point<Scalar>,
    size: Size<Scalar>,
    scale_factor: Scalar,
    r: Bounds<Pixels>,
)
    requires
        is_faithful(arith, q),
        is_painted_at(arith, origin, size, scale_factor, r),
    ensures
        q.has(origin.x) && q.has(size.width) && q.has(scale_factor) && paints_exactly(
            q,
            q.of(origin.x),
            q.of(size.width),
            q.of(scale_factor),
        ) ==> is_painted_along(
            q,
            q.of(origin.x),
            q.of(size.width),
            q.of(scale_factor),
            r.origin.x,
            r.size.width,
        ),
        q.has(origin.y) && q.has(size.height) && q.has(scale_factor) && paints_exactly(
            q,
            q.of(origin.y),
            q.of(size.height),
            q.of(scale_factor),
        ) ==> is_painted_along(
            q,
            q.of(origin.y),
            q.of(size.height),
            q.of(scale_factor),
            r.origin.y,
            r.size.height,
        ),
{
    let d = choose|d: Bounds<Scalar>|
        #[trigger] snaps_to(arith, origin, size, d) && is_logical_bounds(
            arith,
            d,
            scale_factor,
            r,
        );
    let (f, n, g) = choose|f: Point<Scalar>, n: Point<Scalar>, g: Point<Scalar>|
        #[trigger] snaps_through(arith, origin, size, f, n, g, d);
    let s = q.of(scale_factor);
    if q.has(origin.x) && q.has(size.width) && q.has(scale_factor) && paints_exactly(
        q,
        q.of(origin.x),
        q.of(size.width),
        s,
    ) {
        assert(q.reads(f.x, q.of(origin.x) + q.of(size.width)));
        assert(is_nearest_whole(q.of(origin.x), q.of(n.x)));
        assert(is_nearest_whole(q.of(origin.x) + q.of(size.width), q.of(g.x)));
        assert(q.reads(d.size.width, q.of(g.x) - q.of(n.x)));
        lemma_division_undone(q.of(n.x), s);
        lemma_division_undone(q.of(g.x) - q.of(n.x), s);
        lemma_product_of_sum(q.of(r.origin.x.0), q.of(r.size.width.0), s);
    }
    if q.has(origin.y) && q.has(size.height) && q.has(scale_factor) && paints_exactly(
        q,
        q.of(origin.y),
        q.of(size.height),
        s,
    ) {
        assert(q.reads(f.y, q.of(origin.y) + q.of(size.height)));
        assert(is_nearest_whole(q.of(origin.y), q.of(n.y)));
        assert(is_nearest_whole(q.of(origin.y) + q.of(size.height), q.of(g.y)));
        assert(q.reads(d.size.height, q.of(g.y) - q.of(n.y)));
        lemma_division_undone(q.of(n.y), s);
        lemma_division_undone(q.of(g.y) - q.of(n.y), s);
        lemma_product_of_sum(q.of(r.origin.y.0), q.of(r.size.height.0), s);
    }
}

/// A box of whole device pixels is painted as many logical pixels wide and high
/// as its extents divided by the scale factor, and starts at its origin divided
/// by the scale factor.
pub proof fn lemma_whole_boxes_are_painted_to_scale<A: Arithmetic>(
    arith: &A,
    q: Reading,
    origin: Point<Scalar>,
    size: Size<Scalar>,
    scale_factor: Scalar,
    r: Bounds<Pixels>,
)
    requires
        is_faithful(arith, q),
        is_painted_at(arith, origin, size, scale_factor, r),
        q.has(origin.x) && q.has(origin.y) && q.has(size.width) && q.has(size.height),
        q.has(scale_factor),
        paints_exactly(q, q.of(origin.x), q.of(size.width), q.of(scale_factor)),
        paints_exactly(q, q.of(origin.y), q.of(size.height), q.of(scale_factor)),
        is_whole(q.of(origin.x)),
        is_whole(q.of(origin.y)),
        is_whole(q.of(origin.x) + q.of(size.width)),
        is_whole(q.of(origin.y) + q.of(size.height)),
    ensures
        q.of(r.origin.x.0) * q.of(scale_factor) == q.of(origin.x),
        q.of(r.origin.y.0) * q.of(scale_factor) == q.of(origin.y),
        q.of(r.size.width.0) * q.of(scale_factor) == q.of(size.width),
        q.of(r.size.height.0) * q.of(scale_factor) == q.of(size.height),
{
    lemma_painted_edges_are_nearest(arith, q, origin, size, scale_factor, r);
    let s = q.of(scale_factor);
    let (x, w) = (q.of(r.origin.x.0), q.of(r.size.width.0));
    let (y, h) = (q.of(r.origin.y.0), q.of(r.size.height.0));
    lemma_whole_is_nearest_to_itself(q.of(origin.x), x * s);
    lemma_whole_is_nearest_to_itself(q.of(origin.y), y * s);
    lemma_whole_is_nearest_to_itself(q.of(origin.x) + q.of(size.width), (x + w) * s);
    lemma_whole_is_nearest_to_itself(q.of(origin.y) + q.of(size.height), (y + h) * s);
    lemma_product_of_sum(x, w, s);
    lemma_product_of_sum(y, h, s);
}

/// The scale factor plays no part in where a box snaps: one rectangle of device
/// pixels, divided by the scale factors, is what is painted at each of them.
pub proof fn lemma_one_rectangle_at_every_scale<A: Arithmetic>(
    arith: &A,
    origin: Point<Scalar>,
    size: Size<Scalar>,
    scale_factor: Scalar,
    r: Bounds<Pixels>,
    other_scale_factor: Scalar,
    other: Bounds<Pixels>,
)
    requires
        is_deterministic(arith),
        is_painted_at(arith, origin, size, scale_factor, r),
        is_painted_at(arith, origin, size, other_scale_factor, other),
    ensures
        exists|d: Bounds<Scalar>|
            {
                &&& #[trigger] snaps_to(arith, origin, size, d)
                &&& call_ensures(A::quotient, (arith, d.origin.x, scale_factor), r.origin.x.0)
                &&& call_ensures(A::quotient, (arith, d.origin.y, scale_factor), r.origin.y.0)
                &&& call_ensures(A::quotient, (arith, d.size.width, scale_factor), r.size.width.0)
                &&& call_ensures(A::quotient, (arith, d.size.height, scale_factor), r.size.height.0)
                &&& call_ensures(
                    A::quotient,
                    (arith, d.origin.x, other_scale_factor),
                    other.origin.x.0,
                )
                &&& call_ensures(
                    A::quotient,
                    (arith, d.origin.y, other_scale_factor),
                    other.origin.y.0,
                )
                &&& call_ensures(
                    A::quotient,
                    (arith, d.size.width, other_scale_factor),
                    other.size.width.0,
                )
                &&& call_ensures(
                    A::quotient,
                    (arith, d.size.height, other_scale_factor),
                    other.size.height.0,
                )
            },
{
    let d = choose|d: Bounds<Scalar>|
        #[trigger] snaps_to(arith, origin, size, d) && is_logical_bounds(
            arith,
            d,
            scale_factor,
            r,
        );
    let e = choose|e: Bounds<Scalar>|
        #[trigger] snaps_to(arith, origin, size, e) && is_logical_bounds(
            arith,
            e,
            other_scale_factor,
            other,
        );
    let (f, n, g) = choose|f: Point<Scalar>, n: Point<Scalar>, g: Point<Scalar>|
        #[trigger] snaps_through(arith, origin, size, f, n, g, d);
    let (f2, n2, g2) = choose|f: Point<Scalar>, n: Point<Scalar>, g: Point<Scalar>|
        #[trigger] snaps_through(arith, origin, size, f, n, g, e);
    assert(f == f2);
    assert(n == n2);
    assert(g == g2);
    assert(d == e);
}

/// The point with its coordinates exchanged.
pub open spec fn exchanged_point<T>(a: Point<T>) -> Point<T> {
    Point { x: a.y, y: a.x }
}

/// The size with its extents exchanged.
pub open spec fn exchanged_size<T>(a: Size<T>) -> Size<T> {
    Size { width: a.height, height: a.width }
}

/// Both axes are snapped alike: a box with its axes exchanged is painted with its
/// axes exchanged.
pub proof fn lemma_painting_treats_axes_alike<A: Arithmetic>(
    arith: &A,
    origin: Point<Scalar>,
    size: Size<Scalar>,
    scale_factor: Scalar,
    r: Bounds<Pixels>,
)
    requires
        is_painted_at(arith, origin, size, scale_factor, r),
    ensures
        is_painted_at(
            arith,
            exchanged_point(origin),
            exchanged_size(size),
            scale_factor,
            Bounds { origin: exchanged_point(r.origin), size: exchanged_size(r.size) },
        ),
{
    let d = choose|d: Bounds<Scalar>|
        #[trigger] snaps_to(arith, origin, size, d) && is_logical_bounds(
            arith,
            d,
            scale_factor,
            r,
        );
    let (f, n, g) = choose|f: Point<Scalar>, n: Point<Scalar>, g: Point<Scalar>|
        #[trigger] snaps_through(arith, origin, size, f, n, g, d);
    let e = Bounds { origin: exchanged_point(d.origin), size: exchanged_size(d.size) };
    assert(snaps_through(
        arith,
        exchanged_point(origin),
        exchanged_size(size),
        exchanged_point(f),
        exchanged_point(n),
        exchanged_point(g),
        e,
    ));
    assert(snaps_to(arith, exchanged_point(origin), exchanged_size(size), e));
}

/// A measured length in device pixels is the least integer that holds it; a
/// negative one takes no space.
pub open spec fn holds_measure(q: Reading, d: Pixels, scale: Scalar, r: Scalar) -> bool {
    let a = q.of(d.0);
    let s = q.of(scale);
    &&& q.has(d.0) && q.has(scale) && a > 0 as real && (q.fits)(a * s) ==> q.has(r)
        && is_least_whole_above(a * s, q.of(r))
    &&& q.has(d.0) && q.has(scale) && a <= 0 as real && (q.fits)(0 as real) ==> q.reads(
        r,
        0 as real,
    )
}

/// Both extents of a measured size are the least integers of device pixels that
/// hold them.
pub proof fn lemma_measured_sizes_hold_their_content<A: Arithmetic>(
    arith: &A,
    q: Reading,
    size: Size<Pixels>,
    scale_factor: Scalar,
    r: Size<Scalar>,
)
    requires
        is_faithful(arith, q),
        is_snapped_measured_size(arith, size, scale_factor, r),
    ensures
        holds_measure(q, size.width, scale_factor, r.width),
        holds_measure(q, size.height, scale_factor, r.height),
{
    lemma_measure_holds(arith, q, size.width, scale_factor, r.width);
    lemma_measure_holds(arith, q, size.height, scale_factor, r.height);
}

proof fn lemma_measure_holds<A: Arithmetic>(
    arith: &A,
    q: Reading,
    d: Pixels,
    scale_factor: Scalar,
    r: Scalar,
)
    requires
        is_faithful(arith, q),
        is_snapped_measure(arith, d, scale_factor, r),
    ensures
        holds_measure(q, d, scale_factor, r),
{
    let length = choose|length: Scalar|
        call_ensures(A::non_negative, (arith, d.0), length) && call_ensures(
            A::ceil_to_device_pixel,
            (arith, length, scale_factor),
            r,
        );
    assert(call_ensures(A::non_negative, (arith, d.0), length));
    assert(call_ensures(A::ceil_to_device_pixel, (arith, length, scale_factor), r));
    if q.has(d.0) && q.has(scale_factor) && q.of(d.0) <= 0 as real && (q.fits)(0 as real) {
        let s = q.of(scale_factor);
        assert(0 as real * s == 0 as real) by (nonlinear_arith);
        assert(is_least_whole_above(0 as real, q.of(r)));
        lemma_least_whole_above_zero(q.of(r));
    }
}

proof fn lemma_least_whole_above_zero(r: real)
    requires
        is_least_whole_above(0 as real, r),
    ensures
        r == 0 as real,
{
    let n = choose|n: int| #[trigger] is_integer(n, r);
    assert(n == 0);
}

/// What the layout algorithms learn of a leaf: the least integers of device pixels
/// that hold its size, and the integer that is nearest to its baseline, with a
/// baseline exactly where one was measured.
pub proof fn lemma_leaf_metrics_hold_the_measurement<A: Arithmetic>(
    arith: &A,
    q: Reading,
    measured: MeasuredLayout,
    scale_factor: Scalar,
    r: LeafMetrics,
)
    requires
        is_faithful(arith, q),
        are_leaf_metrics(arith, measured, scale_factor, r),
    ensures
        holds_measure(q, measured.size.width, scale_factor, r.size.width),
        holds_measure(q, measured.size.height, scale_factor, r.size.height),
        measured.first_baseline is None ==> r.first_baseline is None,
        measured.first_baseline matches Some(a) ==> (r.first_baseline matches Some(b) && (q.has(a.0)
            && q.has(scale_factor) && (q.fits)(q.of(a.0) * q.of(scale_factor)) ==> q.has(b)
            && is_nearest_whole(q.of(a.0) * q.of(scale_factor), q.of(b)))),
{
    lemma_measured_sizes_hold_their_content(arith, q, measured.size, scale_factor, r.size);
}

/// Width and height of a leaf are rounded alike, and the baseline has no part in
/// it.
pub proof fn lemma_leaf_metrics_treat_axes_alike<A: Arithmetic>(
    arith: &A,
    measured: MeasuredLayout,
    scale_factor: Scalar,
    r: LeafMetrics,
)
    requires
        are_leaf_metrics(arith, measured, scale_factor, r),
    ensures
        are_leaf_metrics(
            arith,
            MeasuredLayout { size: exchanged_size(measured.size), ..measured },
            scale_factor,
            LeafMetrics { size: exchanged_size(r.size), ..r },
        ),
{
}

/// An extent that is fixed stays fixed when a leaf is measured, and times the
/// scale factor it is the extent that the layout algorithms fixed.
pub open spec fn asks_for_dimension(
    q: Reading,
    known: Option<Scalar>,
    scale: Scalar,
    r: Option<Pixels>,
) -> bool {
    &&& known is Some <==> r is Some
    &&& known is Some && q.has(known->0) && q.has(scale) && q.of(scale) != 0 as real && (q.fits)(
        q.of(known->0) / q.of(scale),
    ) ==> q.has((r->0).0) && q.of((r->0).0) * q.of(scale) == q.of(known->0)
}

/// A space that is definite stays definite when a leaf is measured, and times the
/// scale factor it is the space that the layout algorithms gave.
pub open spec fn asks_for_space(
    q: Reading,
    space: AvailableSpace,
    scale: Scalar,
    r: AvailableSpace,
) -> bool {
    &&& space is MinContent <==> r is MinContent
    &&& space is MaxContent <==> r is MaxContent
    &&& space is Definite && q.has(space->Definite_0.0) && q.has(scale) && q.of(scale)
        != 0 as real && (q.fits)(q.of(space->Definite_0.0) / q.of(scale)) ==> r is Definite
        && q.has(r->Definite_0.0) && q.of(r->Definite_0.0) * q.of(scale) == q.of(
        space->Definite_0.0,
    )
}

/// A measurement is asked in logical pixels, on both axes and at every scale
/// factor.
pub proof fn lemma_measurements_are_asked_in_logical_pixels<A: Arithmetic>(
    arith: &A,
    q: Reading,
    known: Size<Option<Scalar>>,
    space: Size<AvailableSpace>,
    scale_factor: Scalar,
    r: MeasureInput,
)
    requires
        is_faithful(arith, q),
        is_measure_input(arith, known, space, scale_factor, r),
    ensures
        asks_for_dimension(q, known.width, scale_factor, r.known_dimensions.width),
        asks_for_dimension(q, known.height, scale_factor, r.known_dimensions.height),
        asks_for_space(q, space.width, scale_factor, r.available_space.width),
        asks_for_space(q, space.height, scale_factor, r.available_space.height),
        known.width matches Some(a) ==> call_ensures(
            A::quotient,
            (arith, a, scale_factor),
            (r.known_dimensions.width->0).0,
        ),
        known.height matches Some(a) ==> call_ensures(
            A::quotient,
            (arith, a, scale_factor),
            (r.known_dimensions.height->0).0,
        ),
{
    lemma_dimension_is_asked(arith, q, known.width, scale_factor, r.known_dimensions.width);
    lemma_dimension_is_asked(arith, q, known.height, scale_factor, r.known_dimensions.height);
    lemma_space_shrinks_with_scale(arith, q, space.width, scale_factor, r.available_space.width);
    lemma_space_shrinks_with_scale(arith, q, space.height, scale_factor, r.available_space.height);
}

proof fn lemma_dimension_is_asked<A: Arithmetic>(
    arith: &A,
    q: Reading,
    known: Option<Scalar>,
    scale_factor: Scalar,
    r: Option<Pixels>,
)
    requires
        is_faithful(arith, q),
        is_logical_dimension(arith, known, scale_factor, r),
    ensures
        asks_for_dimension(q, known, scale_factor, r),
{
    if known is Some && q.of(scale_factor) != 0 as real {
        lemma_division_undone(q.of(known->0), q.of(scale_factor));
    }
}

/// Both axes are asked for alike: with width and height exchanged, what the
/// measurement is handed is exchanged.
pub proof fn lemma_measuring_treats_axes_alike<A: Arithmetic>(
    arith: &A,
    known: Size<Option<Scalar>>,
    space: Size<AvailableSpace>,
    scale_factor: Scalar,
    r: MeasureInput,
)
    requires
        is_measure_input(arith, known, space, scale_factor, r),
    ensures
        is_measure_input(
            arith,
            exchanged_size(known),
            exchanged_size(space),
            scale_factor,
            MeasureInput {
                known_dimensions: exchanged_size(r.known_dimensions),
                available_space: exchanged_size(r.available_space),
            },
        ),
{
}

/// A definite extent is asked for in the same way whether it is fixed or merely
/// available.
pub proof fn lemma_known_and_available_are_asked_alike<A: Arithmetic>(
    arith: &A,
    amount: Scalar,
    scale_factor: Scalar,
    known: Option<Pixels>,
    space: AvailableSpace,
)
    requires
        is_deterministic(arith),
        is_logical_dimension(arith, Some(amount), scale_factor, known),
        AvailableSpace::Definite(Pixels(amount)).is_in_logical_pixels(arith, scale_factor, space),
    ensures
        known is Some,
        space == AvailableSpace::Definite(known->0),
{
    assert(call_ensures(A::quotient, (arith, amount, scale_factor), (known->0).0));
    assert(call_ensures(A::quotient, (arith, amount, scale_factor), space->Definite_0.0));
    assert(is_quotient(arith, amount, scale_factor, (known->0).0));
    assert(is_quotient(arith, amount, scale_factor, space->Definite_0.0));
}

} // verus!
