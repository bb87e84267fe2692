//! Computed geometry: points, paths, closed shapes and affine maps, all in
//! 48.16 fixed point.

use vstd::prelude::*;
use crate::scalar::ONE;

verus! {

/// `kurbo::Join`: how two segments of a stroke are connected. The library
/// holds such a value and hands it on; it claims nothing of what is inside.
#[verifier::external_type_specification]
#[verifier::external_body]
pub struct ExJoin(kurbo::Join);

/// `kurbo::Cap`: how the ends of a stroke are drawn. The library holds such
/// a value and hands it on; it claims nothing of what is inside.
#[verifier::external_type_specification]
#[verifier::external_body]
pub struct ExCap(kurbo::Cap);

/// A position in the plane.
#[derive(Clone, Copy, Debug, PartialEq, Eq, Structural)]
pub struct Point {
    pub x: i64,
    pub y: i64,
}

/// A displacement in the plane, or a pair of factors.
#[derive(Clone, Copy, Debug, PartialEq, Eq, Structural)]
pub struct Vec2 {
    pub x: i64,
    pub y: i64,
}

/// A width and a height.
#[derive(Clone, Copy, Debug, PartialEq, Eq, Structural)]
pub struct Size {
    pub width: i64,
    pub height: i64,
}

/// One element of a path.
#[derive(Clone, Copy, Debug, PartialEq, Eq, Structural)]
pub enum PathEl {
    /// Moves to the point without drawing, starting a new subpath.
    MoveTo(Point),
    /// Draws a line from the current location to the point.
    LineTo(Point),
    /// Draws a quadratic Bézier curve through the two points.
    QuadTo(Point, Point),
    /// Draws a cubic Bézier curve through the three points.
    CurveTo(Point, Point, Point),
    /// Closes the subpath.
    ClosePath,
}

/// An ellipse with axes along the coordinate axes.
#[derive(Clone, Copy, Debug, PartialEq, Eq, Structural)]
pub struct Ellipse {
    pub center: Point,
    pub radii: Vec2,
}

/// A rectangle with rounded corners.
#[derive(Clone, Copy, Debug, PartialEq, Eq, Structural)]
pub struct RoundedRect {
    pub x0: i64,
    pub y0: i64,
    pub x1: i64,
    pub y1: i64,
    pub radius: i64,
}

/// One item of the outline that a draw operation paints: a path element, or
/// a closed shape that the consumer turns into path elements.
#[derive(Clone, Copy, Debug, PartialEq, Eq, Structural)]
pub enum PathItem {
    Element(PathEl),
    Ellipse(Ellipse),
    RoundedRect(RoundedRect),
}

/// An elementary affine map.
#[derive(Clone, Copy, Debug, PartialEq, Eq, Structural)]
pub enum Factor {
    /// Moves every point by `(x, y)`.
    Translate { x: i64, y: i64 },
    /// Turns the plane about the origin by an angle in degrees.
    Rotate { degrees: i64 },
    /// Shears the plane along the horizontal axis by the tangent of an angle
    /// in degrees.
    Skew { degrees: i64 },
    /// Scales the axes by the factors `x` and `y`.
    Scale { x: i64, y: i64 },
    /// Scales the axes by the factors `x` and `y`, each raised to the power
    /// `exponent`.
    ScalePow { x: i64, y: i64, exponent: i64 },
}

/// An affine map, held as the product of its elementary factors: the map
/// applies the last factor first.
#[derive(Clone, Debug, PartialEq, Eq)]
pub struct Affine {
    pub factors: Vec<Factor>,
}

impl Point {
    pub fn new(x: i64, y: i64) -> (r: Point)
        ensures
            r == (Point { x, y }),
    {
        Point { x, y }
    }
}

impl Vec2 {
    pub fn new(x: i64, y: i64) -> (r: Vec2)
        ensures
            r == (Vec2 { x, y }),
    {
        Vec2 { x, y }
    }
}

impl Size {
    pub fn new(width: i64, height: i64) -> (r: Size)
        ensures
            r == (Size { width, height }),
    {
        Size { width, height }
    }
}

impl Factor {
    /// Where the factor takes the point `p`, for the factors and points of
    /// which this can be said without trigonometry: a translation takes every
    /// point along, the unit scale leaves every point in place, and every
    /// linear factor leaves the origin in place.
    pub open spec fn image(self, p: (int, int)) -> Option<(int, int)> {
        match self {
            Factor::Translate { x, y } => Some((p.0 + x, p.1 + y)),
            Factor::Rotate { degrees } => if degrees == 0 || p == (0int, 0int) {
                Some(p)
            } else {
                None
            },
            Factor::Skew { degrees } => if degrees == 0 || p == (0int, 0int) {
                Some(p)
            } else {
                None
            },
            Factor::Scale { x, y } => if (x == ONE && y == ONE) || p == (0int, 0int) {
                Some(p)
            } else {
                None
            },
            Factor::ScalePow { x, y, exponent } => if exponent == 0 || (x == ONE && y == ONE) || p
                == (0int, 0int) {
                Some(p)
            } else {
                None
            },
        }
    }
}

/// Where the product of `factors` takes the point `p`, as far as
/// `Factor::image` can say.
pub open spec fn image_of(factors: Seq<Factor>, p: (int, int)) -> Option<(int, int)>
    decreases factors.len(),
{
    if factors.len() == 0 {
        Some(p)
    } else {
        match factors.last().image(p) {
            Some(q) => image_of(factors.drop_last(), q),
            None => None,
        }
    }
}

impl View for Affine {
    type V = Seq<Factor>;

    open spec fn view(&self) -> Seq<Factor> {
        self.factors@
    }
}

impl Affine {
    /// The map that leaves every point in place.
    pub fn identity() -> (r: Affine)
        ensures
            r@ == Seq::<Factor>::empty(),
    {
        Affine { factors: Vec::new() }
    }

    /// The map made of one factor.
    pub fn from_factor(factor: Factor) -> (r: Affine)
        ensures
            r@ == seq![factor],
    {
        let mut factors: Vec<Factor> = Vec::new();
        factors.push(factor);
        Affine { factors }
    }

    /// The product of `self` and `other`: the map that applies `other` first
    /// and `self` to the result.
    pub fn compose(&self, other: &Affine) -> (r: Affine)
        ensures
            r@ == self@ + other@,
    {
        let mut factors: Vec<Factor> = Vec::new();
        let mut i: usize = 0;
        while i < self.factors.len()
            invariant
                i <= self.factors.len(),
                factors@ == self.factors@.take(i as int),
            decreases self.factors.len() - i,
        {
            factors.push(self.factors[i]);
            proof {
                assert(self.factors@.take(i + 1) =~= self.factors@.take(i as int).push(
                    self.factors@[i as int],
                ));
            }
            i += 1;
        }
        proof {
            assert(self.factors@.take(self.factors.len() as int) =~= self.factors@);
        }
        let mut j: usize = 0;
        while j < other.factors.len()
            invariant
                j <= other.factors.len(),
                factors@ == self.factors@ + other.factors@.take(j as int),
            decreases other.factors.len() - j,
        {
            factors.push(other.factors[j]);
            proof {
                assert(other.factors@.take(j + 1) =~= other.factors@.take(j as int).push(
                    other.factors@[j as int],
                ));
                assert(self.factors@ + other.factors@.take(j + 1) =~= (self.factors@
                    + other.factors@.take(j as int)).push(other.factors@[j as int]));
            }
            j += 1;
        }
        proof {
            assert(other.factors@.take(other.factors.len() as int) =~= other.factors@);
        }
        Affine { factors }
    }

    /// A copy of the map.
    pub fn duplicate(&self) -> (r: Affine)
        ensures
            r@ == self@,
    {
        let factors = self.factors.clone();
        assert(factors@ =~= self.factors@);
        Affine { factors }
    }
}

/// A copy of an outline.
pub fn duplicate_path(path: &Vec<PathItem>) -> (r: Vec<PathItem>)
    ensures
        r@ == path@,
{
    let r = path.clone();
    assert(r@ =~= path@);
    r
}

} // verus!
