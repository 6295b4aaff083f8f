//! Positions and rectangles in pixel coordinates.

use vstd::prelude::*;

verus! {

/// A pair of coordinates.
#[derive(Clone, Copy, Debug, PartialEq, Eq, Structural)]
pub struct Vec2<T> {
    pub x: T,
    pub y: T,
}

impl<T> Vec2<T> {
    /// The pair `(x, y)`.
    pub fn new(x: T, y: T) -> (v: Vec2<T>)
        ensures
            v == (Vec2 { x, y }),
    {
        Vec2 { x, y }
    }
}

/// A rectangle given by its top-left corner and its size.
#[derive(Clone, Copy, Debug, PartialEq, Eq, Structural)]
pub struct Rectangle<T> {
    pub x: T,
    pub y: T,
    pub width: T,
    pub height: T,
}

impl<T> Rectangle<T> {
    /// The rectangle with top-left corner `(x, y)` and the given size.
    pub fn new(x: T, y: T, width: T, height: T) -> (r: Rectangle<T>)
        ensures
            r == (Rectangle { x, y, width, height }),
    {
        Rectangle { x, y, width, height }
    }
}

} // verus!
