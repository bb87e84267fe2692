//! Representations of animated values.

use vstd::prelude::*;
use crate::geometry::Affine;
use crate::geometry::Ellipse as EllipseShape;
use crate::geometry::Factor;
use crate::geometry::image_of;
use crate::geometry::PathItem;
use crate::geometry::RoundedRect;
use crate::geometry::Vec2;
use crate::paint::Color;
use crate::paint::ColorStop;
use crate::runtime::model::fixed;
use crate::runtime::model::fixed::BrushView;
use crate::runtime::model::fixed::GradientKind;
use crate::runtime::model::fixed::GradientView;
use crate::runtime::model::fixed::percent;
use crate::runtime::model::fixed::percent_spec;
use crate::runtime::model::spline::spline_path;
use crate::runtime::model::spline::to_path;
use crate::runtime::model::value::Time;
use crate::runtime::model::value::Value;
use crate::runtime::model::value::duplicate_rows;
use crate::runtime::model::value::duplicate_values;
use crate::runtime::model::value::eased_weight;
use crate::runtime::model::value::rows_same;
use crate::runtime::model::value::sample_spec;
use crate::runtime::model::value::tween_at;
use crate::runtime::model::value::tween_i32;
use crate::runtime::model::easing::lemma_apply_ends;
use crate::scalar::ONE;
use crate::scalar::clamp;
use crate::scalar::floor_div;
use crate::scalar::round_count;
use crate::scalar::round_count_spec;
use crate::scalar::sqrt;
use crate::scalar::sqrt_spec;
use crate::PointF32;
use crate::SizeF32;
use crate::VecF32;

verus! {

/// The greatest skew, in degrees, that a transform applies.
pub const SKEW_LIMIT: i64 = 85 * ONE;

/// Animated translation: one keyframed point, or one keyframed value for
/// each axis.
#[derive(Clone, Debug)]
pub enum Position {
    Value(Value<PointF32>),
    SplitValues(Value<i32>, Value<i32>),
}

/// Animated affine transformation.
#[derive(Clone, Debug)]
pub struct Transform {
    /// Anchor point.
    pub anchor: Value<PointF32>,
    /// Translation.
    pub position: Position,
    /// Rotation angle.
    pub rotation: Value<i32>,
    /// Scale factor.
    pub scale: Value<VecF32>,
    /// Skew factor.
    pub skew: Value<i32>,
    /// Skew angle.
    pub skew_angle: Value<i32>,
}

/// The factors of a skew by `skew` degrees along the axis at `skew_angle`
/// degrees: none when the skew is zero; otherwise a rotation by the negative
/// of the angle, a shear by the skew limited to the skew limit, and a
/// rotation by the angle.
pub open spec fn skew_factors(skew: i32, skew_angle: i32) -> Seq<Factor> {
    if skew != 0 {
        seq![
            Factor::Rotate { degrees: (-skew_angle) as i64 },
            Factor::Skew { degrees: clamp(skew as int, -SKEW_LIMIT, SKEW_LIMIT as int) as i64 },
            Factor::Rotate { degrees: skew_angle as i64 },
        ]
    } else {
        Seq::empty()
    }
}

/// The factors of a transform with the given properties: a translation by
/// the position, a rotation, the skew, a scale by the hundredth of the scale,
/// and a translation by the negative of the anchor.
pub open spec fn transform_factors(
    anchor: PointF32,
    position: PointF32,
    rotation: i32,
    scale: VecF32,
    skew: i32,
    skew_angle: i32,
) -> Seq<Factor> {
    seq![
        Factor::Translate { x: position.x as i64, y: position.y as i64 },
        Factor::Rotate { degrees: rotation as i64 },
    ] + skew_factors(skew, skew_angle) + seq![
        Factor::Scale {
            x: percent_spec(scale.x as int) as i64,
            y: percent_spec(scale.y as int) as i64,
        },
        Factor::Translate { x: (-anchor.x) as i64, y: (-anchor.y) as i64 },
    ]
}

impl Position {
    /// Whether the position is fixed.
    pub open spec fn is_fixed_spec(self) -> bool {
        match self {
            Position::Value(value) => value.is_fixed_spec(),
            Position::SplitValues(x, y) => x.is_fixed_spec() && y.is_fixed_spec(),
        }
    }

    /// The position at `frame`.
    pub open spec fn at(self, frame: int) -> PointF32 {
        match self {
            Position::Value(value) => value.at(frame),
            Position::SplitValues(x, y) => PointF32 { x: x.at(frame), y: y.at(frame) },
        }
    }

    /// Returns true if the position is fixed.
    pub fn is_fixed(&self) -> (r: bool)
        ensures
            r == self.is_fixed_spec(),
    {
        match self {
            Position::Value(value) => value.is_fixed(),
            Position::SplitValues(x, y) => x.is_fixed() && y.is_fixed(),
        }
    }

    /// Evaluates the position at the specified frame.
    pub fn evaluate(&self, frame: i64) -> (r: PointF32)
        ensures
            r == self.at(frame as int),
    {
        match self {
            Position::Value(value) => value.evaluate(frame),
            Position::SplitValues(x, y) => PointF32::new(x.evaluate(frame), y.evaluate(frame)),
        }
    }
}

impl Transform {
    /// Whether every property of the transform is fixed.
    pub open spec fn is_fixed_spec(self) -> bool {
        &&& self.anchor.is_fixed_spec()
        &&& self.position.is_fixed_spec()
        &&& self.rotation.is_fixed_spec()
        &&& self.scale.is_fixed_spec()
        &&& self.skew.is_fixed_spec()
        &&& self.skew_angle.is_fixed_spec()
    }

    /// The factors of the transform at `frame`.
    pub open spec fn at(self, frame: int) -> Seq<Factor> {
        transform_factors(
            self.anchor.at(frame),
            self.position.at(frame),
            self.rotation.at(frame),
            self.scale.at(frame),
            self.skew.at(frame),
            self.skew_angle.at(frame),
        )
    }

    /// Returns true if the transform is fixed.
    pub fn is_fixed(&self) -> (r: bool)
        ensures
            r == self.is_fixed_spec(),
    {
        self.anchor.is_fixed() && self.position.is_fixed() && self.rotation.is_fixed()
            && self.scale.is_fixed() && self.skew.is_fixed() && self.skew_angle.is_fixed()
    }

    /// Evaluates the transform at the specified frame.
    pub fn evaluate(&self, frame: i64) -> (r: Affine)
        ensures
            r@ == self.at(frame as int),
    {
        let anchor = self.anchor.evaluate(frame);
        let position = self.position.evaluate(frame);
        let rotation = self.rotation.evaluate(frame);
        let scale = self.scale.evaluate(frame);
        let skew = self.skew.evaluate(frame);
        let skew_angle = self.skew_angle.evaluate(frame);
        let mut factors: Vec<Factor> = Vec::new();
        factors.push(Factor::Translate { x: position.x as i64, y: position.y as i64 });
        factors.push(Factor::Rotate { degrees: rotation as i64 });
        if skew != 0 {
            let skew: i64 = if (skew as i64) < -SKEW_LIMIT {
                -SKEW_LIMIT
            } else if skew as i64 > SKEW_LIMIT {
                SKEW_LIMIT
            } else {
                skew as i64
            };
            factors.push(Factor::Rotate { degrees: -(skew_angle as i64) });
            factors.push(Factor::Skew { degrees: skew });
            factors.push(Factor::Rotate { degrees: skew_angle as i64 });
        }
        factors.push(Factor::Scale { x: percent(scale.x as i64), y: percent(scale.y as i64) });
        factors.push(Factor::Translate { x: -(anchor.x as i64), y: -(anchor.y as i64) });
        proof {
            assert(factors@ =~= self.at(frame as int));
        }
        Affine { factors }
    }

    /// Converts the animated value to its model representation: the value
    /// itself when fixed, the animation otherwise.
    pub fn into_model(self) -> (r: super::Transform)
        ensures
            self.is_fixed_spec() ==> r is Fixed && r->Fixed_0@ == self.at(0),
            !self.is_fixed_spec() ==> r == super::Transform::Animated(self),
            forall|frame: int| r.at(frame) == self.at(frame),
    {
        if self.is_fixed() {
            let value = self.evaluate(0);
            proof {
                assert forall|frame: int| #[trigger] self.at(frame) == self.at(0) by {
                    lemma_fixed_transform_is_constant(self, frame, 0);
                }
            }
            super::Transform::Fixed(value)
        } else {
            super::Transform::Animated(self)
        }
    }
}

/// A transform whose properties are all fixed is the same at every frame.
pub proof fn lemma_fixed_transform_is_constant(transform: Transform, frame0: int, frame1: int)
    requires
        transform.is_fixed_spec(),
    ensures
        transform.at(frame0) == transform.at(frame1),
{
}

/// Animated ellipse.
#[derive(Clone, Debug)]
pub struct Ellipse {
    /// True if the ellipse should be drawn in CCW order.
    pub is_ccw: bool,
    /// Position of the ellipse.
    pub position: Value<PointF32>,
    /// Size of the ellipse.
    pub size: Value<SizeF32>,
}

impl Ellipse {
    /// Whether every property of the ellipse is fixed.
    pub open spec fn is_fixed_spec(self) -> bool {
        self.position.is_fixed_spec() && self.size.is_fixed_spec()
    }

    /// The ellipse at `frame`: centred at the position, with half the size
    /// as radii.
    pub open spec fn at(self, frame: int) -> EllipseShape {
        let position = self.position.at(frame);
        let size = self.size.at(frame);
        EllipseShape {
            center: position.to_point_spec(),
            radii: Vec2 { x: (size.width / 2) as i64, y: (size.height / 2) as i64 },
        }
    }

    /// Returns true if the ellipse is fixed.
    pub fn is_fixed(&self) -> (r: bool)
        ensures
            r == self.is_fixed_spec(),
    {
        self.position.is_fixed() && self.size.is_fixed()
    }

    /// Evaluates the ellipse at the specified frame.
    pub fn evaluate(&self, frame: i64) -> (r: EllipseShape)
        ensures
            r == self.at(frame as int),
    {
        let position = self.position.evaluate(frame).to_point();
        let size = self.size.evaluate(frame).to_size();
        let radii = Vec2 {
            x: floor_div(size.width as i128, 2) as i64,
            y: floor_div(size.height as i128, 2) as i64,
        };
        EllipseShape { center: position, radii }
    }
}

/// Animated rounded rectangle.
#[derive(Clone, Debug)]
pub struct Rect {
    /// True if the rect should be drawn in CCW order.
    pub is_ccw: bool,
    /// Position of the rectangle.
    pub position: Value<PointF32>,
    /// Size of the rectangle.
    pub size: Value<SizeF32>,
    /// Radius of the rectangle corners.
    pub corner_radius: Value<i32>,
}

impl Rect {
    /// Whether every property of the rectangle is fixed.
    pub open spec fn is_fixed_spec(self) -> bool {
        self.position.is_fixed_spec() && self.size.is_fixed_spec()
            && self.corner_radius.is_fixed_spec()
    }

    /// The rectangle at `frame`: centred at the position, so that its first
    /// corner lies half the size before the position and its second corner
    /// the whole size after the first.
    pub open spec fn at(self, frame: int) -> RoundedRect {
        let position = self.position.at(frame);
        let size = self.size.at(frame);
        let x0 = position.x - size.width / 2;
        let y0 = position.y - size.height / 2;
        RoundedRect {
            x0: x0 as i64,
            y0: y0 as i64,
            x1: (x0 + size.width) as i64,
            y1: (y0 + size.height) as i64,
            radius: self.corner_radius.at(frame) as i64,
        }
    }

    /// Returns true if the rectangle is fixed.
    pub fn is_fixed(&self) -> (r: bool)
        ensures
            r == self.is_fixed_spec(),
    {
        self.position.is_fixed() && self.size.is_fixed() && self.corner_radius.is_fixed()
    }

    /// Evaluates the rectangle at the specified frame.
    pub fn evaluate(&self, frame: i64) -> (r: RoundedRect)
        ensures
            r == self.at(frame as int),
    {
        let position = self.position.evaluate(frame);
        let size = self.size.evaluate(frame);
        let x0: i64 = position.x as i64 - floor_div(size.width as i128, 2) as i64;
        let y0: i64 = position.y as i64 - floor_div(size.height as i128, 2) as i64;
        let radius = self.corner_radius.evaluate(frame);
        RoundedRect {
            x0,
            y0,
            x1: x0 + size.width as i64,
            y1: y0 + size.height as i64,
            radius: radius as i64,
        }
    }
}

/// Animated star or polygon.
#[derive(Clone, Debug)]
pub struct Star {
    pub is_polygon: bool,
    pub direction: i64,
    pub position: Value<PointF32>,
    pub inner_radius: Value<i32>,
    pub inner_roundness: Value<i32>,
    pub outer_radius: Value<i32>,
    pub outer_roundness: Value<i32>,
    pub rotation: Value<i32>,
    pub points: Value<i32>,
}

/// Animated cubic spline.
#[derive(Clone, Debug)]
pub struct Spline {
    /// True if the spline is closed.
    pub is_closed: bool,
    /// Collection of times.
    pub times: Vec<Time>,
    /// Collection of splines.
    pub values: Vec<Vec<PointF32>>,
}

impl Spline {
    /// Whether the spline can be sampled at `frame`: there is a keyframe,
    /// and the keyframes around the frame hold points.
    pub open spec fn is_sampled(self, frame: int) -> bool {
        &&& self.times@.len() > 0
        &&& sample_spec(self.times@, frame).ix0 < self.values@.len()
        &&& sample_spec(self.times@, frame).ix1 < self.values@.len()
    }

    /// The path of the spline at `frame`: the points of the keyframes around
    /// the frame, interpolated at the eased weight of the sample, or at
    /// weight zero under a hold, as a path. Empty where the spline cannot be
    /// sampled.
    pub open spec fn at(self, frame: int) -> Seq<PathItem> {
        if self.is_sampled(frame) {
            let s = sample_spec(self.times@, frame);
            spline_path(
                self.values@[s.ix0 as int]@,
                self.values@[s.ix1 as int]@,
                eased_weight(s),
                self.is_closed,
            )
        } else {
            Seq::empty()
        }
    }

    /// Evaluates the spline at the given frame and emits the elements
    /// to the specified path. Returns false, and emits nothing, where the
    /// spline cannot be sampled.
    pub fn evaluate(&self, frame: i64, path: &mut Vec<PathItem>) -> (r: bool)
        ensures
            r == self.is_sampled(frame as int),
            final(path)@ == old(path)@ + self.at(frame as int),
    {
        let sample = match Time::frames_and_weight(self.times.as_slice(), frame) {
            Some(sample) => sample,
            None => {
                assert(path@ =~= old(path)@ + self.at(frame as int));
                return false;
            },
        };
        if sample.ix0 >= self.values.len() || sample.ix1 >= self.values.len() {
            assert(path@ =~= old(path)@ + self.at(frame as int));
            return false;
        }
        proof {
            // Under a hold the weight is zero, which every easing keeps.
            lemma_apply_ends(sample.easing);
        }
        let weight: i64 = if sample.hold {
            0
        } else {
            sample.easing.apply(sample.weight)
        };
        to_path(
            self.values[sample.ix0].as_slice(),
            self.values[sample.ix1].as_slice(),
            weight,
            self.is_closed,
            path,
        );
        true
    }
}

/// Animated repeater effect.
#[derive(Clone, Debug)]
pub struct Repeater {
    /// Number of times elements should be repeated.
    pub copies: Value<i32>,
    /// Offset applied to each element.
    pub offset: Value<i32>,
    /// Anchor point.
    pub anchor_point: Value<PointF32>,
    /// Translation.
    pub position: Value<PointF32>,
    /// Rotation in degrees.
    pub rotation: Value<i32>,
    /// Scale.
    pub scale: Value<VecF32>,
    /// Opacity of the first element.
    pub start_opacity: Value<i32>,
    /// Opacity of the last element.
    pub end_opacity: Value<i32>,
}

impl Repeater {
    /// Whether every property of the repeater is fixed.
    pub open spec fn is_fixed_spec(self) -> bool {
        &&& self.copies.is_fixed_spec()
        &&& self.offset.is_fixed_spec()
        &&& self.anchor_point.is_fixed_spec()
        &&& self.position.is_fixed_spec()
        &&& self.rotation.is_fixed_spec()
        &&& self.scale.is_fixed_spec()
        &&& self.start_opacity.is_fixed_spec()
        &&& self.end_opacity.is_fixed_spec()
    }

    /// The repeater at `frame`: every property sampled, the number of copies
    /// rounded to a whole number.
    pub open spec fn at(self, frame: int) -> fixed::Repeater {
        fixed::Repeater {
            copies: round_count_spec(self.copies.at(frame) as int) as usize,
            offset: self.offset.at(frame) as i64,
            anchor_point: self.anchor_point.at(frame).to_point_spec(),
            position: self.position.at(frame).to_point_spec(),
            rotation: self.rotation.at(frame) as i64,
            scale: self.scale.at(frame).to_vec2_spec(),
            start_opacity: self.start_opacity.at(frame) as i64,
            end_opacity: self.end_opacity.at(frame) as i64,
        }
    }

    /// Returns true if the repeater contains no animated properties.
    pub fn is_fixed(&self) -> (r: bool)
        ensures
            r == self.is_fixed_spec(),
    {
        self.copies.is_fixed() && self.offset.is_fixed() && self.anchor_point.is_fixed()
            && self.position.is_fixed() && self.rotation.is_fixed() && self.scale.is_fixed()
            && self.start_opacity.is_fixed() && self.end_opacity.is_fixed()
    }

    /// Evaluates the repeater at the specified frame.
    pub fn evaluate(&self, frame: i64) -> (r: fixed::Repeater)
        ensures
            r == self.at(frame as int),
    {
        let copies = round_count(self.copies.evaluate(frame));
        let offset = self.offset.evaluate(frame) as i64;
        let anchor_point = self.anchor_point.evaluate(frame).to_point();
        let position = self.position.evaluate(frame).to_point();
        let rotation = self.rotation.evaluate(frame) as i64;
        let scale = self.scale.evaluate(frame).to_vec2();
        let start_opacity = self.start_opacity.evaluate(frame) as i64;
        let end_opacity = self.end_opacity.evaluate(frame) as i64;
        fixed::Repeater {
            copies,
            offset,
            anchor_point,
            position,
            rotation,
            scale,
            start_opacity,
            end_opacity,
        }
    }

    /// Converts the animated value to its model representation: the value
    /// itself when fixed, the animation otherwise.
    pub fn into_model(self) -> (r: super::Repeater)
        ensures
            self.is_fixed_spec() ==> r == super::Repeater::Fixed(self.at(0)),
            !self.is_fixed_spec() ==> r == super::Repeater::Animated(self),
            forall|frame: int| r.at(frame) == self.at(frame),
    {
        if self.is_fixed() {
            super::Repeater::Fixed(self.evaluate(0))
        } else {
            super::Repeater::Animated(self)
        }
    }
}

/// Animated stroke properties.
#[derive(Debug)]
pub struct Stroke {
    /// Width of the stroke.
    pub width: Value<i32>,
    /// Join style.
    pub join: kurbo::Join,
    /// Limit for miter joins.
    pub miter_limit: Option<i64>,
    /// Cap style.
    pub cap: kurbo::Cap,
}

impl Clone for Stroke {
    fn clone(&self) -> Self {
        Stroke {
            width: self.width.clone(),
            join: self.join,
            miter_limit: self.miter_limit,
            cap: self.cap,
        }
    }
}

impl Stroke {
    /// Whether the width of the stroke is fixed.
    pub open spec fn is_fixed_spec(self) -> bool {
        self.width.is_fixed_spec()
    }

    /// The stroke at `frame`: the width sampled, the join, the cap and the
    /// miter limit as they are.
    pub open spec fn at(self, frame: int) -> fixed::Stroke {
        fixed::Stroke {
            width: self.width.at(frame) as i64,
            join: self.join,
            miter_limit: self.miter_limit,
            cap: self.cap,
        }
    }

    /// Returns true if the stroke is fixed.
    pub fn is_fixed(&self) -> (r: bool)
        ensures
            r == self.is_fixed_spec(),
    {
        self.width.is_fixed()
    }

    /// Evaluates the stroke at the specified frame.
    pub fn evaluate(&self, frame: i64) -> (r: fixed::Stroke)
        ensures
            r == self.at(frame as int),
    {
        let width = self.width.evaluate(frame);
        fixed::Stroke {
            width: width as i64,
            join: self.join,
            miter_limit: self.miter_limit,
            cap: self.cap,
        }
    }

    /// Converts the animated value to its model representation: the value
    /// itself when fixed, the animation otherwise.
    pub fn into_model(self) -> (r: super::Stroke)
        ensures
            self.is_fixed_spec() ==> r == super::Stroke::Fixed(self.at(0)),
            !self.is_fixed_spec() ==> r == super::Stroke::Animated(self),
            forall|frame: int| r.at(frame) == self.at(frame),
    {
        if self.is_fixed() {
            super::Stroke::Fixed(self.evaluate(0))
        } else {
            super::Stroke::Animated(self)
        }
    }
}

/// The distance between two stored points, rounded down.
pub open spec fn distance_spec(a: PointF32, b: PointF32) -> int {
    sqrt_spec((b.x - a.x) * (b.x - a.x) + (b.y - a.y) * (b.y - a.y))
}

/// Returns the distance between two stored points.
pub fn distance(a: &PointF32, b: &PointF32) -> (r: i64)
    ensures
        r == distance_spec(*a, *b),
{
    let dx: i64 = b.x as i64 - a.x as i64;
    let dy: i64 = b.y as i64 - a.y as i64;
    assert(0 <= dx * dx <= 0x1_0000_0000_0000_0000 && 0 <= dy * dy <= 0x1_0000_0000_0000_0000)
        by (nonlinear_arith)
        requires
            -0x1_0000_0000 <= dx <= 0x1_0000_0000,
            -0x1_0000_0000 <= dy <= 0x1_0000_0000,
    ;
    let n: u128 = ((dx as i128) * (dx as i128) + (dy as i128) * (dy as i128)) as u128;
    let r = sqrt(n);
    assert(r < 0x2_0000_0000) by (nonlinear_arith)
        requires
            r * r <= n,
            n <= 0x2_0000_0000_0000_0000,
            r >= 0,
    ;
    r as i64
}

/// Animated linear or radial gradient.
#[derive(Clone, Debug)]
pub struct Gradient {
    /// True if the gradient is radial.
    pub is_radial: bool,
    /// Starting point.
    pub start_point: Value<PointF32>,
    /// Ending point.
    pub end_point: Value<PointF32>,
    /// Stop offsets and color values.
    pub stops: super::ColorStops,
}

impl Gradient {
    /// Whether every property of the gradient is fixed.
    pub open spec fn is_fixed_spec(self) -> bool {
        self.start_point.is_fixed_spec() && self.end_point.is_fixed_spec()
            && self.stops.is_fixed_spec()
    }

    /// The line or circle of the gradient at `frame`: a radial gradient is
    /// centred at the start point and reaches as far as the end point.
    pub open spec fn kind_at(self, frame: int) -> GradientKind {
        let start = self.start_point.at(frame);
        let end = self.end_point.at(frame);
        if self.is_radial {
            GradientKind::Radial {
                center: start.to_point_spec(),
                radius: distance_spec(start, end) as i64,
            }
        } else {
            GradientKind::Linear { start: start.to_point_spec(), end: end.to_point_spec() }
        }
    }

    /// The gradient brush at `frame`.
    pub open spec fn at(self, frame: int) -> BrushView {
        BrushView::Gradient(GradientView { kind: self.kind_at(frame), stops: self.stops.at(frame) })
    }

    /// Returns true if the value contains no animated properties.
    pub fn is_fixed(&self) -> (r: bool)
        ensures
            r == self.is_fixed_spec(),
    {
        self.start_point.is_fixed() && self.end_point.is_fixed() && self.stops.is_fixed()
    }

    /// Evaluates the animated value at the given frame.
    pub fn evaluate(&self, frame: i64) -> (r: fixed::Brush)
        ensures
            r@ == self.at(frame as int),
    {
        let start = self.start_point.evaluate(frame);
        let end = self.end_point.evaluate(frame);
        let stops = self.stops.evaluate(frame);
        if self.is_radial {
            let radius = distance(&start, &end);
            fixed::Brush::Gradient(
                fixed::Gradient {
                    kind: GradientKind::Radial { center: start.to_point(), radius },
                    stops,
                },
            )
        } else {
            fixed::Brush::Gradient(
                fixed::Gradient {
                    kind: GradientKind::Linear { start: start.to_point(), end: end.to_point() },
                    stops,
                },
            )
        }
    }
}

/// Animated colour stops: at each keyframe a row of `count` stops, each stop
/// five values long (offset, red, green, blue, alpha).
#[derive(Clone, Debug)]
pub struct ColorStops {
    pub frames: Vec<Time>,
    pub values: Vec<Vec<i32>>,
    pub count: usize,
}

/// Stop `i` between the rows `v0` and `v1`, each of its five values
/// interpolated at `weight`.
pub open spec fn stop_between(v0: Seq<i32>, v1: Seq<i32>, i: int, weight: int) -> ColorStop {
    let j = 5 * i;
    ColorStop {
        offset: tween_i32(v0[j], v1[j], weight),
        color: Color {
            r: tween_i32(v0[j + 1], v1[j + 1], weight),
            g: tween_i32(v0[j + 2], v1[j + 2], weight),
            b: tween_i32(v0[j + 3], v1[j + 3], weight),
            a: tween_i32(v0[j + 4], v1[j + 4], weight),
        },
    }
}

impl ColorStops {
    /// Whether the stops can be sampled at `frame`: there is a keyframe, the
    /// keyframes around the frame hold rows, and both rows hold `count`
    /// stops.
    pub open spec fn is_sampled(self, frame: int) -> bool {
        &&& self.frames@.len() > 0
        &&& sample_spec(self.frames@, frame).ix0 < self.values@.len()
        &&& sample_spec(self.frames@, frame).ix1 < self.values@.len()
        &&& 5 * self.count <= self.values@[sample_spec(self.frames@, frame).ix0 as int]@.len()
        &&& 5 * self.count <= self.values@[sample_spec(self.frames@, frame).ix1 as int]@.len()
    }

    /// The stops at `frame`: each stop interpolated between the rows of the
    /// keyframes around the frame, at the eased weight of the sample, or at
    /// weight zero under a hold. Empty where the stops cannot be sampled.
    pub open spec fn at(self, frame: int) -> Seq<ColorStop> {
        if self.is_sampled(frame) {
            let s = sample_spec(self.frames@, frame);
            Seq::new(
                self.count as nat,
                |i: int|
                    stop_between(
                        self.values@[s.ix0 as int]@,
                        self.values@[s.ix1 as int]@,
                        i,
                        eased_weight(s),
                    ),
            )
        } else {
            Seq::empty()
        }
    }

    /// Evaluates the stops at the specified frame.
    pub fn evaluate(&self, frame: i64) -> (r: fixed::ColorStops)
        ensures
            r@ == self.at(frame as int),
    {
        match self.evaluate_inner(frame) {
            Some(stops) => stops,
            None => Vec::new(),
        }
    }

    /// Evaluates the stops at the specified frame; `None` where they cannot
    /// be sampled.
    pub fn evaluate_inner(&self, frame: i64) -> (r: Option<fixed::ColorStops>)
        ensures
            r is Some <==> self.is_sampled(frame as int),
            r matches Some(stops) ==> stops@ == self.at(frame as int),
    {
        let s = match Time::frames_and_weight(self.frames.as_slice(), frame) {
            Some(s) => s,
            None => {
                return None;
            },
        };
        if s.ix0 >= self.values.len() || s.ix1 >= self.values.len() {
            return None;
        }
        let v0 = &self.values[s.ix0];
        let v1 = &self.values[s.ix1];
        if self.count > v0.len() / 5 || self.count > v1.len() / 5 {
            return None;
        }
        proof {
            // Under a hold the weight is zero, which every easing keeps.
            lemma_apply_ends(s.easing);
        }
        let w: i64 = if s.hold {
            0
        } else {
            s.easing.apply(s.weight)
        };
        let mut stops: Vec<ColorStop> = Vec::new();
        let mut i: usize = 0;
        while i < self.count
            invariant
                i <= self.count,
                5 * self.count <= v0@.len() <= usize::MAX,
                5 * self.count <= v1@.len() <= usize::MAX,
                stops@.len() == i,
                forall|k: int| 0 <= k < i ==> stops@[k] == stop_between(v0@, v1@, k, w as int),
            decreases self.count - i,
        {
            let j: usize = i * 5;
            let stop = ColorStop {
                offset: tween_at(v0[j], v1[j], w),
                color: Color {
                    r: tween_at(v0[j + 1], v1[j + 1], w),
                    g: tween_at(v0[j + 2], v1[j + 2], w),
                    b: tween_at(v0[j + 3], v1[j + 3], w),
                    a: tween_at(v0[j + 4], v1[j + 4], w),
                },
            };
            stops.push(stop);
            i += 1;
        }
        proof {
            assert(stops@ =~= self.at(frame as int));
        }
        Some(stops)
    }
}

/// Animated brush.
#[derive(Clone, Debug)]
pub enum Brush {
    /// Solid color.
    Solid(Value<Color>),
    /// Gradient color.
    Gradient(Gradient),
}

impl Brush {
    /// Whether every property of the brush is fixed.
    pub open spec fn is_fixed_spec(self) -> bool {
        match self {
            Brush::Solid(value) => value.is_fixed_spec(),
            Brush::Gradient(value) => value.is_fixed_spec(),
        }
    }

    /// The brush at `frame`: a solid colour with its alpha channel
    /// multiplied by `alpha`, or the gradient as it is.
    pub open spec fn at(self, alpha: int, frame: int) -> BrushView {
        match self {
            Brush::Solid(value) => BrushView::Solid(value.at(frame).with_alpha_factor_spec(alpha)),
            Brush::Gradient(value) => value.at(frame),
        }
    }

    /// Returns true if the value contains no animated properties.
    pub fn is_fixed(&self) -> (r: bool)
        ensures
            r == self.is_fixed_spec(),
    {
        match self {
            Brush::Solid(value) => value.is_fixed(),
            Brush::Gradient(value) => value.is_fixed(),
        }
    }

    /// Evaluates the animation at the specified time.
    pub fn evaluate(&self, alpha: i64, frame: i64) -> (r: fixed::Brush)
        ensures
            r@ == self.at(alpha as int, frame as int),
    {
        match self {
            Brush::Solid(value) => fixed::Brush::Solid(
                value.evaluate(frame).with_alpha_factor(alpha),
            ),
            Brush::Gradient(value) => value.evaluate(frame),
        }
    }

    /// Converts the animated value to its model representation: the value
    /// itself, at full alpha, when fixed, the animation otherwise.
    pub fn into_model(self) -> (r: super::Brush)
        ensures
            self.is_fixed_spec() ==> r is Fixed && r->Fixed_0@ == self.at(ONE as int, 0),
            !self.is_fixed_spec() ==> r == super::Brush::Animated(self),
    {
        if self.is_fixed() {
            super::Brush::Fixed(self.evaluate(ONE, 0))
        } else {
            super::Brush::Animated(self)
        }
    }
}

/// An ellipse whose properties are all fixed is the same at every frame.
pub proof fn lemma_fixed_ellipse_is_constant(ellipse: Ellipse, frame0: int, frame1: int)
    requires
        ellipse.is_fixed_spec(),
    ensures
        ellipse.at(frame0) == ellipse.at(frame1),
{
}

/// A rectangle whose properties are all fixed is the same at every frame.
pub proof fn lemma_fixed_rect_is_constant(rect: Rect, frame0: int, frame1: int)
    requires
        rect.is_fixed_spec(),
    ensures
        rect.at(frame0) == rect.at(frame1),
{
}

/// A repeater whose properties are all fixed is the same at every frame.
pub proof fn lemma_fixed_repeater_is_constant(repeater: Repeater, frame0: int, frame1: int)
    requires
        repeater.is_fixed_spec(),
    ensures
        repeater.at(frame0) == repeater.at(frame1),
{
}

/// A stroke whose width is fixed is the same at every frame.
pub proof fn lemma_fixed_stroke_is_constant(stroke: Stroke, frame0: int, frame1: int)
    requires
        stroke.is_fixed_spec(),
    ensures
        stroke.at(frame0) == stroke.at(frame1),
{
}

/// A gradient whose properties are all fixed is the same at every frame.
pub proof fn lemma_fixed_gradient_is_constant(gradient: Gradient, frame0: int, frame1: int)
    requires
        gradient.is_fixed_spec(),
    ensures
        gradient.at(frame0) == gradient.at(frame1),
{
}

/// A brush whose properties are all fixed is, at one opacity, the same at
/// every frame.
pub proof fn lemma_fixed_brush_is_constant(brush: Brush, alpha: int, frame0: int, frame1: int)
    requires
        brush.is_fixed_spec(),
    ensures
        brush.at(alpha, frame0) == brush.at(alpha, frame1),
{
    match brush {
        Brush::Solid(_) => {},
        Brush::Gradient(gradient) => {
            lemma_fixed_gradient_is_constant(gradient, frame0, frame1);
        },
    }
}

/// A transform without rotation and skew and with a scale of one hundred
/// percent is the translation by the position after the translation by the
/// negative of the anchor: it takes every point `q` to `q - anchor +
/// position`.
pub proof fn lemma_transform_translates(anchor: PointF32, position: PointF32, q: (int, int))
    ensures
        image_of(
            transform_factors(
                anchor,
                position,
                0,
                VecF32 { x: (100 * ONE) as i32, y: (100 * ONE) as i32 },
                0,
                0,
            ),
            q,
        ) == Some((q.0 - anchor.x + position.x, q.1 - anchor.y + position.y)),
        image_of(
            transform_factors(
                anchor,
                position,
                0,
                VecF32 { x: (100 * ONE) as i32, y: (100 * ONE) as i32 },
                0,
                0,
            ),
            q,
        ) == image_of(
            seq![
                Factor::Translate { x: position.x as i64, y: position.y as i64 },
                Factor::Translate { x: (-anchor.x) as i64, y: (-anchor.y) as i64 },
            ],
            q,
        ),
{
    let scale = VecF32 { x: (100 * ONE) as i32, y: (100 * ONE) as i32 };
    let factors = transform_factors(anchor, position, 0, scale, 0, 0);
    let moved = (q.0 - anchor.x, q.1 - anchor.y);
    assert(percent_spec(scale.x as int) == ONE);
    assert(factors =~= seq![
        Factor::Translate { x: position.x as i64, y: position.y as i64 },
        Factor::Rotate { degrees: 0 },
        Factor::Scale { x: ONE, y: ONE },
        Factor::Translate { x: (-anchor.x) as i64, y: (-anchor.y) as i64 },
    ]);
    let f3 = factors.drop_last();
    let f2 = f3.drop_last();
    let f1 = f2.drop_last();
    assert(f1.drop_last() =~= Seq::<Factor>::empty());
    assert(image_of(f1.drop_last(), (moved.0 + position.x, moved.1 + position.y)) == Some(
        (moved.0 + position.x, moved.1 + position.y),
    ));
    assert(image_of(f1, moved) == Some((moved.0 + position.x, moved.1 + position.y)));
    assert(image_of(f2, moved) == image_of(f1, moved));
    assert(image_of(f3, moved) == image_of(f2, moved));
    assert(image_of(factors, q) == image_of(f3, moved));
    let pair = seq![
        Factor::Translate { x: position.x as i64, y: position.y as i64 },
        Factor::Translate { x: (-anchor.x) as i64, y: (-anchor.y) as i64 },
    ];
    assert(pair.drop_last() =~= f1);
    assert(image_of(pair, q) == image_of(f1, moved));
}

/// Every transform takes its anchor to its position, whatever its rotation,
/// scale and skew.
pub proof fn lemma_transform_pivots_about_anchor(
    anchor: PointF32,
    position: PointF32,
    rotation: i32,
    scale: VecF32,
    skew: i32,
    skew_angle: i32,
)
    ensures
        image_of(
            transform_factors(anchor, position, rotation, scale, skew, skew_angle),
            (anchor.x as int, anchor.y as int),
        ) == Some((position.x as int, position.y as int)),
{
    let factors = transform_factors(anchor, position, rotation, scale, skew, skew_angle);
    let head = seq![
        Factor::Translate { x: position.x as i64, y: position.y as i64 },
        Factor::Rotate { degrees: rotation as i64 },
    ];
    let origin = (0int, 0int);
    let target = (position.x as int, position.y as int);
    assert(image_of(head, origin) == Some(target)) by {
        assert(head.drop_last() =~= seq![
            Factor::Translate { x: position.x as i64, y: position.y as i64 },
        ]);
        assert(head.drop_last().drop_last() =~= Seq::<Factor>::empty());
        assert(image_of(head.drop_last().drop_last(), target) == Some(target));
        assert(image_of(head.drop_last(), origin) == Some(target));
    }
    let with_skew = head + skew_factors(skew, skew_angle);
    assert(image_of(with_skew, origin) == Some(target)) by {
        if skew != 0 {
            let s2 = with_skew.drop_last();
            let s1 = s2.drop_last();
            assert(s1.drop_last() =~= head);
            assert(image_of(s1, origin) == image_of(head, origin));
            assert(image_of(s2, origin) == image_of(s1, origin));
            assert(image_of(with_skew, origin) == image_of(s2, origin));
        } else {
            assert(with_skew =~= head);
        }
    }
    let scaled = factors.drop_last();
    assert(scaled.drop_last() =~= with_skew);
    assert(image_of(scaled, origin) == image_of(with_skew, origin));
    assert(image_of(factors, (anchor.x as int, anchor.y as int)) == image_of(scaled, origin));
}

impl Transform {
    /// A transform takes its anchor at a frame to its position at that
    /// frame.
    pub proof fn lemma_anchor_maps_to_position(self, frame: int)
        ensures
            image_of(
                self.at(frame),
                (self.anchor.at(frame).x as int, self.anchor.at(frame).y as int),
            ) == Some((self.position.at(frame).x as int, self.position.at(frame).y as int)),
    {
        lemma_transform_pivots_about_anchor(
            self.anchor.at(frame),
            self.position.at(frame),
            self.rotation.at(frame),
            self.scale.at(frame),
            self.skew.at(frame),
            self.skew_angle.at(frame),
        );
    }
}

impl Position {
    /// Whether `self` and `other` hold the same values in the same form.
    pub open spec fn same_as(self, other: Self) -> bool {
        match (self, other) {
            (Position::Value(a), Position::Value(b)) => a.same_as(b),
            (Position::SplitValues(ax, ay), Position::SplitValues(bx, by)) => ax.same_as(bx)
                && ay.same_as(by),
            _ => false,
        }
    }

    /// A copy of the position.
    pub fn duplicate(&self) -> (r: Self)
        ensures
            r.same_as(*self),
    {
        match self {
            Position::Value(value) => Position::Value(value.duplicate()),
            Position::SplitValues(x, y) => Position::SplitValues(x.duplicate(), y.duplicate()),
        }
    }
}

impl Transform {
    /// Whether every property of `self` is the same as that of `other`.
    pub open spec fn same_as(self, other: Self) -> bool {
        &&& self.anchor.same_as(other.anchor)
        &&& self.position.same_as(other.position)
        &&& self.rotation.same_as(other.rotation)
        &&& self.scale.same_as(other.scale)
        &&& self.skew.same_as(other.skew)
        &&& self.skew_angle.same_as(other.skew_angle)
    }

    /// A copy of the transform.
    pub fn duplicate(&self) -> (r: Self)
        ensures
            r.same_as(*self),
    {
        Transform {
            anchor: self.anchor.duplicate(),
            position: self.position.duplicate(),
            rotation: self.rotation.duplicate(),
            scale: self.scale.duplicate(),
            skew: self.skew.duplicate(),
            skew_angle: self.skew_angle.duplicate(),
        }
    }
}

impl Ellipse {
    /// Whether every property of `self` is the same as that of `other`.
    pub open spec fn same_as(self, other: Self) -> bool {
        &&& self.is_ccw == other.is_ccw
        &&& self.position.same_as(other.position)
        &&& self.size.same_as(other.size)
    }

    /// A copy of the ellipse.
    pub fn duplicate(&self) -> (r: Self)
        ensures
            r.same_as(*self),
    {
        Ellipse {
            is_ccw: self.is_ccw,
            position: self.position.duplicate(),
            size: self.size.duplicate(),
        }
    }
}

impl Rect {
    /// Whether every property of `self` is the same as that of `other`.
    pub open spec fn same_as(self, other: Self) -> bool {
        &&& self.is_ccw == other.is_ccw
        &&& self.position.same_as(other.position)
        &&& self.size.same_as(other.size)
        &&& self.corner_radius.same_as(other.corner_radius)
    }

    /// A copy of the rectangle.
    pub fn duplicate(&self) -> (r: Self)
        ensures
            r.same_as(*self),
    {
        Rect {
            is_ccw: self.is_ccw,
            position: self.position.duplicate(),
            size: self.size.duplicate(),
            corner_radius: self.corner_radius.duplicate(),
        }
    }
}

impl Spline {
    /// Whether `self` and `other` hold the same keyframes: the same times
    /// and, keyframe by keyframe, the same points.
    pub open spec fn same_as(self, other: Self) -> bool {
        &&& self.is_closed == other.is_closed
        &&& self.times@ == other.times@
        &&& rows_same(self.values@, other.values@)
    }

    /// A copy of the spline.
    pub fn duplicate(&self) -> (r: Self)
        ensures
            r.same_as(*self),
    {
        Spline {
            is_closed: self.is_closed,
            times: duplicate_values(&self.times),
            values: duplicate_rows(&self.values),
        }
    }
}

impl Repeater {
    /// Whether every property of `self` is the same as that of `other`.
    pub open spec fn same_as(self, other: Self) -> bool {
        &&& self.copies.same_as(other.copies)
        &&& self.offset.same_as(other.offset)
        &&& self.anchor_point.same_as(other.anchor_point)
        &&& self.position.same_as(other.position)
        &&& self.rotation.same_as(other.rotation)
        &&& self.scale.same_as(other.scale)
        &&& self.start_opacity.same_as(other.start_opacity)
        &&& self.end_opacity.same_as(other.end_opacity)
    }

    /// A copy of the repeater.
    pub fn duplicate(&self) -> (r: Self)
        ensures
            r.same_as(*self),
    {
        Repeater {
            copies: self.copies.duplicate(),
            offset: self.offset.duplicate(),
            anchor_point: self.anchor_point.duplicate(),
            position: self.position.duplicate(),
            rotation: self.rotation.duplicate(),
            scale: self.scale.duplicate(),
            start_opacity: self.start_opacity.duplicate(),
            end_opacity: self.end_opacity.duplicate(),
        }
    }
}

impl Stroke {
    /// Whether every property of `self` is the same as that of `other`.
    pub open spec fn same_as(self, other: Self) -> bool {
        &&& self.width.same_as(other.width)
        &&& self.join == other.join
        &&& self.miter_limit == other.miter_limit
        &&& self.cap == other.cap
    }

    /// A copy of the stroke.
    pub fn duplicate(&self) -> (r: Self)
        ensures
            r.same_as(*self),
    {
        Stroke {
            width: self.width.duplicate(),
            join: self.join,
            miter_limit: self.miter_limit,
            cap: self.cap,
        }
    }
}

impl ColorStops {
    /// Whether `self` and `other` hold the same keyframes: the same times,
    /// the same number of stops and, keyframe by keyframe, the same row.
    pub open spec fn same_as(self, other: Self) -> bool {
        &&& self.frames@ == other.frames@
        &&& rows_same(self.values@, other.values@)
        &&& self.count == other.count
    }

    /// A copy of the stops.
    pub fn duplicate(&self) -> (r: Self)
        ensures
            r.same_as(*self),
    {
        ColorStops {
            frames: duplicate_values(&self.frames),
            values: duplicate_rows(&self.values),
            count: self.count,
        }
    }
}

impl Gradient {
    /// Whether every property of `self` is the same as that of `other`.
    pub open spec fn same_as(self, other: Self) -> bool {
        &&& self.is_radial == other.is_radial
        &&& self.start_point.same_as(other.start_point)
        &&& self.end_point.same_as(other.end_point)
        &&& self.stops.same_as(other.stops)
    }

    /// A copy of the gradient.
    pub fn duplicate(&self) -> (r: Self)
        ensures
            r.same_as(*self),
    {
        Gradient {
            is_radial: self.is_radial,
            start_point: self.start_point.duplicate(),
            end_point: self.end_point.duplicate(),
            stops: self.stops.duplicate(),
        }
    }
}

impl Brush {
    /// Whether `self` and `other` are the same colour or the same gradient.
    pub open spec fn same_as(self, other: Self) -> bool {
        match (self, other) {
            (Brush::Solid(a), Brush::Solid(b)) => a.same_as(b),
            (Brush::Gradient(a), Brush::Gradient(b)) => a.same_as(b),
            _ => false,
        }
    }

    /// A copy of the brush.
    pub fn duplicate(&self) -> (r: Self)
        ensures
            r.same_as(*self),
    {
        match self {
            Brush::Solid(value) => Brush::Solid(value.duplicate()),
            Brush::Gradient(value) => Brush::Gradient(value.duplicate()),
        }
    }
}

} // verus!
