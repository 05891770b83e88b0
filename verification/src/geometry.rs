//! Points, sizes, edges and rectangles.

use vstd::prelude::*;

verus! {

/// A position in the plane.
#[derive(Clone, Copy, Debug, PartialEq, Eq)]
pub struct Point<T> {
    /// The horizontal coordinate.
    pub x: T,
    /// The vertical coordinate.
    pub y: T,
}

/// A width and a height.
#[derive(Clone, Copy, Debug, PartialEq, Eq)]
pub struct Size<T> {
    /// The horizontal extent.
    pub width: T,
    /// The vertical extent.
    pub height: T,
}

/// One value for each side of a box.
#[derive(Clone, Copy, Debug, PartialEq, Eq)]
pub struct Edges<T> {
    /// The value of the top side.
    pub top: T,
    /// The value of the right side.
    pub right: T,
    /// The value of the bottom side.
    pub bottom: T,
    /// The value of the left side.
    pub left: T,
}

/// A rectangle.
#[derive(Clone, Copy, Debug, PartialEq, Eq)]
pub struct Bounds<T> {
    /// The corner that is nearest to the origin of the coordinates.
    pub origin: Point<T>,
    /// The extent of the rectangle.
    pub size: Size<T>,
}

} // verus!
