//! The shape model: a geometry variant with optional fill and stroke, and
//! its axis-aligned bounding box.

use vstd::prelude::*;

use crate::geom::{Point, Size};

verus! {

/// A solid fill color, as 8-bit RGBA channels.
#[derive(Clone, Copy, Debug, PartialEq, Eq, Hash)]
pub struct Paint {
    /// The red channel.
    pub r: u8,
    /// The green channel.
    pub g: u8,
    /// The blue channel.
    pub b: u8,
    /// The alpha channel.
    pub a: u8,
}

/// A border stroke: its paint and its thickness in raw layout units.
#[derive(Clone, Copy, Debug, PartialEq, Eq, Hash)]
pub struct Stroke {
    /// The stroke's paint.
    pub paint: Paint,
    /// The stroke's thickness.
    pub thickness: i64,
}

/// A bezier path, abstracted to the one datum the shape model reads: its
/// axis-aligned extent, computed by the engine's own curve routines when
/// the path is built. The extent of a well-formed path is non-negative.
#[derive(Clone, Copy, Debug, PartialEq, Eq, Hash)]
pub struct Path {
    /// The path's axis-aligned extent.
    pub size: Size,
}

impl Path {
    /// The path's own bounding box.
    pub fn bounds(&self) -> (s: Size)
        ensures
            s == self.size,
    {
        self.size
    }
}

/// A geometric shape with optional fill and stroke. Nothing forces fill and
/// stroke to be mutually exclusive: the convenience constructors set exactly
/// one, but both or neither may be set explicitly.
#[derive(Clone, Copy, Debug, PartialEq, Eq, Hash)]
pub struct Shape {
    /// The shape's geometry.
    pub geometry: Geometry,
    /// The shape's background fill.
    pub fill: Option<Paint>,
    /// The shape's border stroke.
    pub stroke: Option<Stroke>,
}

/// A shape's geometry.
#[derive(Clone, Copy, Debug, PartialEq, Eq, Hash)]
pub enum Geometry {
    /// A line to a point (relative to its position).
    Line(Point),
    /// A rectangle with its origin in the topleft corner.
    Rect(Size),
    /// A bezier path.
    Path(Path),
}

impl Geometry {
    /// The bounding box each geometry variant denotes: a line's is spanned
    /// by its endpoint, a rectangle's is its own size, a path's is the
    /// extent its curve routines computed.
    pub open spec fn spec_bounds(self) -> Size {
        match self {
            Geometry::Line(point) => Size { width: point.x, height: point.y },
            Geometry::Rect(size) => size,
            Geometry::Path(path) => path.size,
        }
    }

    /// Fill the geometry without a stroke.
    pub fn filled(self, fill: Paint) -> (shape: Shape)
        ensures
            shape.geometry == self,
            shape.fill == Some(fill),
            shape.stroke is None,
    {
        Shape { geometry: self, fill: Some(fill), stroke: None }
    }

    /// Stroke the geometry without a fill.
    pub fn stroked(self, stroke: Stroke) -> (shape: Shape)
        ensures
            shape.geometry == self,
            shape.fill is None,
            shape.stroke == Some(stroke),
    {
        Shape { geometry: self, fill: None, stroke: Some(stroke) }
    }

    /// Calculate the geometry's axis-aligned bounding box.
    pub fn bounds(&self) -> (s: Size)
        ensures
            s == self.spec_bounds(),
    {
        match self {
            Geometry::Line(point) => Size::new(point.x, point.y),
            Geometry::Rect(size) => *size,
            Geometry::Path(path) => path.bounds(),
        }
    }
}

/// Law: the bounds of a line to a non-negative point are exactly that
/// point's components, read as an extent.
pub proof fn lemma_line_bounds(x: i64, y: i64)
    requires
        0 <= x,
        0 <= y,
    ensures
        Geometry::Line(Point { x, y }).spec_bounds() == (Size { width: x, height: y }),
{
}

/// Law: a rectangle's bounds are its own size.
pub proof fn lemma_rect_bounds(size: Size)
    ensures
        Geometry::Rect(size).spec_bounds() == size,
{
}

} // verus!
