//! Evaluation of keyframed vector animations in fixed-point arithmetic.
//!
//! A composition is a tree of layers and shapes whose properties are either
//! fixed or driven by keyframes. The library evaluates such a tree at a frame
//! and produces the drawing commands of that frame. Every number is a binary
//! fixed-point value with sixteen fractional bits: stored values are 32 bits
//! wide, computed values 64 bits wide.

use vstd::prelude::*;
use crate::geometry::PathEl;
use crate::geometry::Point;
use crate::geometry::Size;
use crate::geometry::Vec2;
use crate::scalar::narrow;
use crate::scalar::narrow_spec;

pub mod geometry;
pub mod paint;
pub mod runtime;
pub mod scalar;

pub use crate::runtime::model;
pub use crate::runtime::Asset;
pub use crate::runtime::Command;
pub use crate::runtime::Composition;
pub use crate::runtime::Renderer;

verus! {

/// A stored displacement or pair of factors.
pub type VecF32 = PointF32;

/// A stored position: two 16.16 coordinates.
#[derive(Clone, Copy, Debug, Default, PartialEq, Eq, Structural)]
pub struct PointF32 {
    pub x: i32,
    pub y: i32,
}

/// A stored size: two 16.16 extents.
#[derive(Clone, Copy, Debug, Default, PartialEq, Eq, Structural)]
pub struct SizeF32 {
    pub width: i32,
    pub height: i32,
}

/// A stored path element.
#[derive(Clone, Copy, Debug, PartialEq, Eq, Structural)]
pub enum PathEl32 {
    /// Moves to the point without drawing, starting a new subpath.
    MoveTo(PointF32),
    /// Draws a line from the current location to the point.
    LineTo(PointF32),
    /// Draws a quadratic Bézier curve through the two points.
    QuadTo(PointF32, PointF32),
    /// Draws a cubic Bézier curve through the three points.
    CurveTo(PointF32, PointF32, PointF32),
    /// Closes the subpath.
    ClosePath,
}

impl PointF32 {
    pub fn new(x: i32, y: i32) -> (r: PointF32)
        ensures
            r == (PointF32 { x, y }),
    {
        PointF32 { x, y }
    }

    /// The same position, 64 bits wide.
    pub open spec fn to_point_spec(self) -> Point {
        Point { x: self.x as i64, y: self.y as i64 }
    }

    /// The same displacement, 64 bits wide.
    pub open spec fn to_vec2_spec(self) -> Vec2 {
        Vec2 { x: self.x as i64, y: self.y as i64 }
    }

    /// The position nearest to `p` that 32 bits can hold.
    pub open spec fn from_point_spec(p: Point) -> PointF32 {
        PointF32 { x: narrow_spec(p.x as int) as i32, y: narrow_spec(p.y as int) as i32 }
    }

    pub fn to_point(&self) -> (r: Point)
        ensures
            r == self.to_point_spec(),
    {
        Point { x: self.x as i64, y: self.y as i64 }
    }

    pub fn to_vec2(&self) -> (r: Vec2)
        ensures
            r == self.to_vec2_spec(),
    {
        Vec2 { x: self.x as i64, y: self.y as i64 }
    }

    /// Narrows a computed position, saturating each coordinate.
    pub fn from_point(p: &Point) -> (r: PointF32)
        ensures
            r == PointF32::from_point_spec(*p),
    {
        PointF32 { x: narrow(p.x), y: narrow(p.y) }
    }
}

impl SizeF32 {
    pub fn new(width: i32, height: i32) -> (r: SizeF32)
        ensures
            r == (SizeF32 { width, height }),
    {
        SizeF32 { width, height }
    }

    /// The same size, 64 bits wide.
    pub open spec fn to_size_spec(self) -> Size {
        Size { width: self.width as i64, height: self.height as i64 }
    }

    pub fn to_size(&self) -> (r: Size)
        ensures
            r == self.to_size_spec(),
    {
        Size { width: self.width as i64, height: self.height as i64 }
    }
}

impl PathEl32 {
    /// The same element, 64 bits wide.
    pub open spec fn to_path_el_spec(self) -> PathEl {
        match self {
            PathEl32::MoveTo(p) => PathEl::MoveTo(p.to_point_spec()),
            PathEl32::LineTo(p) => PathEl::LineTo(p.to_point_spec()),
            PathEl32::QuadTo(p1, p2) => PathEl::QuadTo(p1.to_point_spec(), p2.to_point_spec()),
            PathEl32::CurveTo(p1, p2, p3) => PathEl::CurveTo(
                p1.to_point_spec(),
                p2.to_point_spec(),
                p3.to_point_spec(),
            ),
            PathEl32::ClosePath => PathEl::ClosePath,
        }
    }

    /// The element nearest to `el` that 32 bits can hold.
    pub open spec fn from_f64_spec(el: PathEl) -> PathEl32 {
        match el {
            PathEl::MoveTo(p) => PathEl32::MoveTo(PointF32::from_point_spec(p)),
            PathEl::LineTo(p) => PathEl32::LineTo(PointF32::from_point_spec(p)),
            PathEl::QuadTo(p1, p2) => PathEl32::QuadTo(
                PointF32::from_point_spec(p1),
                PointF32::from_point_spec(p2),
            ),
            PathEl::CurveTo(p1, p2, p3) => PathEl32::CurveTo(
                PointF32::from_point_spec(p1),
                PointF32::from_point_spec(p2),
                PointF32::from_point_spec(p3),
            ),
            PathEl::ClosePath => PathEl32::ClosePath,
        }
    }

    /// Widens a stored element to a computed one.
    pub fn to_path_el(&self) -> (r: PathEl)
        ensures
            r == self.to_path_el_spec(),
    {
        match self {
            PathEl32::MoveTo(p) => PathEl::MoveTo(p.to_point()),
            PathEl32::LineTo(p) => PathEl::LineTo(p.to_point()),
            PathEl32::QuadTo(p1, p2) => PathEl::QuadTo(p1.to_point(), p2.to_point()),
            PathEl32::CurveTo(p1, p2, p3) => PathEl::CurveTo(
                p1.to_point(),
                p2.to_point(),
                p3.to_point(),
            ),
            PathEl32::ClosePath => PathEl::ClosePath,
        }
    }

    /// Narrows a computed element to a stored one, saturating each
    /// coordinate.
    pub fn from_f64(path_el: &PathEl) -> (r: PathEl32)
        ensures
            r == PathEl32::from_f64_spec(*path_el),
    {
        match path_el {
            PathEl::MoveTo(p) => PathEl32::MoveTo(PointF32::from_point(p)),
            PathEl::LineTo(p) => PathEl32::LineTo(PointF32::from_point(p)),
            PathEl::QuadTo(p1, p2) => PathEl32::QuadTo(
                PointF32::from_point(p1),
                PointF32::from_point(p2),
            ),
            PathEl::CurveTo(p1, p2, p3) => PathEl32::CurveTo(
                PointF32::from_point(p1),
                PointF32::from_point(p2),
                PointF32::from_point(p3),
            ),
            PathEl::ClosePath => PathEl32::ClosePath,
        }
    }
}

/// Widening a stored element and narrowing it again gives the element back.
pub proof fn lemma_path_el_round_trip(el: PathEl32)
    ensures
        PathEl32::from_f64_spec(el.to_path_el_spec()) == el,
{
}

} // verus!
