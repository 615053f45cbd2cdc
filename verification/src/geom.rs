//! Basic geometric value types: points, sizes, lengths and per-side records.
//!
//! All lengths are signed integers in raw layout units; conversion from and
//! to display units is the surrounding engine's business.

use vstd::prelude::*;

verus! {

/// A point in 2D, relative to some origin.
#[derive(Clone, Copy, Debug, PartialEq, Eq, Hash)]
pub struct Point {
    /// The horizontal offset.
    pub x: i64,
    /// The vertical offset.
    pub y: i64,
}

impl Point {
    /// Create a point from its two offsets.
    pub fn new(x: i64, y: i64) -> (p: Point)
        ensures
            p.x == x,
            p.y == y,
    {
        Point { x, y }
    }
}

/// A 2D extent. Produced bounding boxes are non-negative whenever the
/// geometry they come from is; a `Size` built from a negative point keeps
/// the sign, and callers must treat it as an extent only when it is
/// non-negative.
#[derive(Clone, Copy, Debug, PartialEq, Eq, Hash)]
pub struct Size {
    /// The horizontal extent.
    pub width: i64,
    /// The vertical extent.
    pub height: i64,
}

impl Size {
    /// Create a size from its two extents.
    pub fn new(width: i64, height: i64) -> (s: Size)
        ensures
            s.width == width,
            s.height == height,
    {
        Size { width, height }
    }
}

/// A length made of an absolute part and a part relative to a reference
/// length (a side of the page), the latter in per-mille of the reference.
/// The layout engine resolves the relative part later.
#[derive(Clone, Copy, Debug, PartialEq, Eq, Hash)]
pub struct Linear {
    /// The absolute component, in raw layout units.
    pub abs: i64,
    /// The relative component, in per-mille of the reference length.
    pub rel: i64,
}

impl Linear {
    /// A purely absolute length, with no relative component.
    pub fn absolute(abs: i64) -> (l: Linear)
        ensures
            l.abs == abs,
            l.rel == 0,
    {
        Linear { abs, rel: 0 }
    }
}

/// Four independently settable values, one per side of a rectangle.
#[derive(Clone, Copy, Debug, PartialEq, Eq, Hash)]
pub struct Sides<T> {
    /// The value of the left side.
    pub left: T,
    /// The value of the top side.
    pub top: T,
    /// The value of the right side.
    pub right: T,
    /// The value of the bottom side.
    pub bottom: T,
}

impl<T: Copy> Sides<T> {
    /// The record with the same value on all four sides.
    pub fn uniform(value: T) -> (s: Sides<T>)
        ensures
            s.left == value,
            s.top == value,
            s.right == value,
            s.bottom == value,
    {
        Sides { left: value, top: value, right: value, bottom: value }
    }
}

} // verus!
