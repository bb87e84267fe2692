//! Conversion of spline control points to path elements.
//!
//! The control points of a spline come in triples, one triple for each
//! vertex: the vertex itself, then the tangent that arrives at it and the
//! tangent that leaves it, both relative to the vertex.

use vstd::prelude::*;
use crate::geometry::PathEl;
use crate::geometry::PathItem;
use crate::geometry::Point;
use crate::runtime::model::value::tween_at;
use crate::runtime::model::value::tween_i32;
use crate::PointF32;

verus! {

/// Control point `k` at weight `t` between the rows `from` and `to`.
pub open spec fn point_between(from: Seq<PointF32>, to: Seq<PointF32>, k: int, t: int) -> Point {
    Point {
        x: tween_i32(from[k].x, to[k].x, t) as i64,
        y: tween_i32(from[k].y, to[k].y, t) as i64,
    }
}

/// The path element from vertex `a` to vertex `b`: a line where the tangent
/// that leaves `a` and the tangent that arrives at `b` are both zero, a cubic
/// curve through the two tangent points otherwise.
pub open spec fn segment_between(
    from: Seq<PointF32>,
    to: Seq<PointF32>,
    t: int,
    a: int,
    b: int,
) -> PathEl {
    let p0 = point_between(from, to, 3 * a, t);
    let p1 = point_between(from, to, 3 * b, t);
    let leaving = point_between(from, to, 3 * a + 2, t);
    let arriving = point_between(from, to, 3 * b + 1, t);
    let c0 = Point { x: (leaving.x + p0.x) as i64, y: (leaving.y + p0.y) as i64 };
    let c1 = Point { x: (arriving.x + p1.x) as i64, y: (arriving.y + p1.y) as i64 };
    if c0 == p0 && c1 == p1 {
        PathEl::LineTo(p1)
    } else {
        PathEl::CurveTo(c0, c1, p1)
    }
}

/// The number of control points that both rows hold.
pub open spec fn common_len(from: Seq<PointF32>, to: Seq<PointF32>) -> int {
    if from.len() <= to.len() {
        from.len() as int
    } else {
        to.len() as int
    }
}

/// The segments from each vertex to the next, for the first `n` vertices.
pub open spec fn open_segments(from: Seq<PointF32>, to: Seq<PointF32>, t: int, n: int) -> Seq<
    PathItem,
> {
    Seq::new(
        if n >= 1 {
            (n - 1) as nat
        } else {
            0
        },
        |i: int| PathItem::Element(segment_between(from, to, t, i, i + 1)),
    )
}

/// The path through the control points at weight `t` between the rows `from`
/// and `to`: empty without control points; otherwise a move to the first
/// vertex, a segment from each vertex to the next and, where the spline is
/// closed and has a vertex, a segment from the last vertex to the first and
/// the closing element.
pub open spec fn spline_path(from: Seq<PointF32>, to: Seq<PointF32>, t: int, is_closed: bool) -> Seq<
    PathItem,
> {
    let len = common_len(from, to);
    let n = len / 3;
    if len == 0 {
        Seq::empty()
    } else {
        seq![PathItem::Element(PathEl::MoveTo(point_between(from, to, 0, t)))] + open_segments(
            from,
            to,
            t,
            n,
        ) + if is_closed && n != 0 {
            seq![
                PathItem::Element(segment_between(from, to, t, n - 1, 0)),
                PathItem::Element(PathEl::ClosePath),
            ]
        } else {
            Seq::empty()
        }
    }
}

/// Interpolates control point `k`.
fn point_at(from: &[PointF32], to: &[PointF32], k: usize, t: i64) -> (r: Point)
    requires
        k < from@.len(),
        k < to@.len(),
    ensures
        r == point_between(from@, to@, k as int, t as int),
        i32::MIN <= r.x <= i32::MAX,
        i32::MIN <= r.y <= i32::MAX,
{
    Point { x: tween_at(from[k].x, to[k].x, t) as i64, y: tween_at(from[k].y, to[k].y, t) as i64 }
}

/// Builds the path element from vertex `a` to vertex `b`.
fn segment(from: &[PointF32], to: &[PointF32], t: i64, a: usize, b: usize) -> (r: PathEl)
    requires
        3 * a + 2 < from@.len() <= usize::MAX,
        3 * a + 2 < to@.len(),
        3 * b + 2 < from@.len(),
        3 * b + 2 < to@.len(),
    ensures
        r == segment_between(from@, to@, t as int, a as int, b as int),
{
    let p0 = point_at(from, to, 3 * a, t);
    let p1 = point_at(from, to, 3 * b, t);
    let leaving = point_at(from, to, 3 * a + 2, t);
    let arriving = point_at(from, to, 3 * b + 1, t);
    let c0 = Point { x: leaving.x + p0.x, y: leaving.y + p0.y };
    let c1 = Point { x: arriving.x + p1.x, y: arriving.y + p1.y };
    if c0 == p0 && c1 == p1 {
        PathEl::LineTo(p1)
    } else {
        PathEl::CurveTo(c0, c1, p1)
    }
}

/// Appends to `path` the path through the control points at weight `t`
/// between the rows `from` and `to`. Returns false where there is no control
/// point.
pub fn to_path(
    from: &[PointF32],
    to: &[PointF32],
    t: i64,
    is_closed: bool,
    path: &mut Vec<PathItem>,
) -> (r: bool)
    ensures
        r == (common_len(from@, to@) != 0),
        final(path)@ == old(path)@ + spline_path(from@, to@, t as int, is_closed),
{
    let len: usize = if from.len() <= to.len() {
        from.len()
    } else {
        to.len()
    };
    if len == 0 {
        assert(path@ =~= old(path)@ + spline_path(from@, to@, t as int, is_closed));
        return false;
    }
    path.push(PathItem::Element(PathEl::MoveTo(point_at(from, to, 0, t))));
    let n: usize = len / 3;
    let ghost start = old(path)@.push(
        PathItem::Element(PathEl::MoveTo(point_between(from@, to@, 0, t as int))),
    );
    let mut i: usize = 1;
    while i < n
        invariant
            1 <= i,
            i <= n || i == 1,
            n == len / 3,
            len == common_len(from@, to@),
            from@.len() <= usize::MAX,
            path@.len() == start.len() + i - 1,
            path@.take(start.len() as int) == start,
            forall|k: int|
                start.len() <= k < path@.len() ==> #[trigger] path@[k] == PathItem::Element(
                    segment_between(from@, to@, t as int, k - start.len(), k - start.len() + 1),
                ),
        decreases n - i,
    {
        let ghost before = path@;
        path.push(PathItem::Element(segment(from, to, t, i - 1, i)));
        proof {
            assert(path@.take(start.len() as int) =~= before.take(start.len() as int));
        }
        i += 1;
    }
    let ghost middle = path@;
    assert(middle.len() == start.len() + open_segments(from@, to@, t as int, n as int).len());
    if is_closed && n != 0 {
        path.push(PathItem::Element(segment(from, to, t, n - 1, 0)));
        path.push(PathItem::Element(PathEl::ClosePath));
    }
    proof {
        let segments = open_segments(from@, to@, t as int, n as int);
        assert(middle =~= start + segments) by {
            assert(middle.len() == start.len() + segments.len());
            assert forall|k: int| 0 <= k < middle.len() implies middle[k] == (start + segments)[k] by {
                if k < start.len() {
                    assert(middle.take(start.len() as int)[k] == start[k]);
                }
            }
        }
        assert(start =~= old(path)@ + seq![
            PathItem::Element(PathEl::MoveTo(point_between(from@, to@, 0, t as int))),
        ]);
        assert(path@ =~= old(path)@ + spline_path(from@, to@, t as int, is_closed));
    }
    true
}

} // verus!
