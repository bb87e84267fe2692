//! Evaluated values: what the properties of a composition are at one frame.

use vstd::prelude::*;
use crate::geometry::Affine;
use crate::geometry::Factor;
use crate::geometry::Point;
use crate::geometry::Vec2;
use crate::paint::Color;
use crate::paint::ColorStop;
use crate::scalar::ONE;
use crate::scalar::clamp;
use crate::scalar::floor_div;
use crate::scalar::lerp_spec;
use crate::scalar::product;
use crate::scalar::product_spec;
use crate::scalar::saturate;
use crate::scalar::saturate_spec;

verus! {

/// Evaluated affine transformation.
pub type Transform = Affine;

/// Evaluated colour stops.
pub type ColorStops = Vec<ColorStop>;

/// Evaluated stroke properties.
#[derive(Clone, Copy, Debug, PartialEq)]
pub struct Stroke {
    /// Width of the stroke.
    pub width: i64,
    /// Join style.
    pub join: kurbo::Join,
    /// Limit for miter joins.
    pub miter_limit: Option<i64>,
    /// Cap style.
    pub cap: kurbo::Cap,
}

/// Evaluated repeater effect.
#[derive(Clone, Copy, Debug, PartialEq, Eq, Structural)]
pub struct Repeater {
    /// Number of times elements should be repeated.
    pub copies: usize,
    /// Offset applied to each element.
    pub offset: i64,
    /// Anchor point.
    pub anchor_point: Point,
    /// Translation.
    pub position: Point,
    /// Rotation in degrees.
    pub rotation: i64,
    /// Scale, in percent.
    pub scale: Vec2,
    /// Opacity of the first element.
    pub start_opacity: i64,
    /// Opacity of the last element.
    pub end_opacity: i64,
}

/// The line or the circle along which a gradient runs.
#[derive(Clone, Copy, Debug, PartialEq, Eq, Structural)]
pub enum GradientKind {
    /// From `start` to `end`.
    Linear { start: Point, end: Point },
    /// From `center` outwards to the distance `radius`.
    Radial { center: Point, radius: i64 },
}

/// Evaluated gradient.
#[derive(Clone, Debug, PartialEq, Eq)]
pub struct Gradient {
    pub kind: GradientKind,
    pub stops: Vec<ColorStop>,
}

/// Evaluated brush.
#[derive(Clone, Debug, PartialEq, Eq)]
pub enum Brush {
    /// Solid colour.
    Solid(Color),
    /// Gradient.
    Gradient(Gradient),
}

/// What a gradient holds.
pub struct GradientView {
    pub kind: GradientKind,
    pub stops: Seq<ColorStop>,
}

/// What a brush holds.
pub enum BrushView {
    Solid(Color),
    Gradient(GradientView),
}

impl View for Gradient {
    type V = GradientView;

    open spec fn view(&self) -> GradientView {
        GradientView { kind: self.kind, stops: self.stops@ }
    }
}

impl View for Brush {
    type V = BrushView;

    open spec fn view(&self) -> BrushView {
        match self {
            Brush::Solid(color) => BrushView::Solid(*color),
            Brush::Gradient(gradient) => BrushView::Gradient(gradient@),
        }
    }
}

/// `x` divided by one hundred, rounded down: a percentage as a factor.
pub open spec fn percent_spec(x: int) -> int {
    x / 100
}

/// Divides a percentage by one hundred.
pub fn percent(x: i64) -> (r: i64)
    ensures
        r == percent_spec(x as int),
{
    floor_div(x as i128, 100) as i64
}

/// The negative of `x`, saturated.
pub open spec fn negate_spec(x: int) -> int {
    saturate_spec(-x)
}

/// Negates a value.
pub fn negate(x: i64) -> (r: i64)
    ensures
        r == negate_spec(x as int),
{
    saturate(-(x as i128))
}

/// The stops with the alpha channel of every colour multiplied by `alpha`.
pub open spec fn stops_with_alpha(stops: Seq<ColorStop>, alpha: int) -> Seq<ColorStop> {
    Seq::new(stops.len(), |i: int| stops[i].with_alpha_factor_spec(alpha))
}

impl BrushView {
    /// The brush with the alpha channel of every colour multiplied by
    /// `alpha`.
    pub open spec fn with_alpha(self, alpha: int) -> BrushView {
        match self {
            BrushView::Solid(color) => BrushView::Solid(color.with_alpha_factor_spec(alpha)),
            BrushView::Gradient(gradient) => BrushView::Gradient(
                GradientView {
                    kind: gradient.kind,
                    stops: stops_with_alpha(gradient.stops, alpha),
                },
            ),
        }
    }
}

/// Multiplies the alpha channel of every colour of a brush by `alpha`.
pub fn brush_with_alpha(brush: &Brush, alpha: i64) -> (r: Brush)
    ensures
        r@ == brush@.with_alpha(alpha as int),
{
    match brush {
        Brush::Solid(color) => Brush::Solid(color.with_alpha_factor(alpha)),
        Brush::Gradient(gradient) => {
            let mut stops: Vec<ColorStop> = Vec::new();
            let mut i: usize = 0;
            while i < gradient.stops.len()
                invariant
                    i <= gradient.stops.len(),
                    stops@.len() == i,
                    forall|j: int|
                        0 <= j < i ==> stops@[j] == gradient.stops@[j].with_alpha_factor_spec(
                            alpha as int,
                        ),
                decreases gradient.stops.len() - i,
            {
                stops.push(gradient.stops[i].with_alpha_factor(alpha));
                i += 1;
            }
            proof {
                assert(stops@ =~= stops_with_alpha(gradient.stops@, alpha as int));
            }
            Brush::Gradient(Gradient { kind: gradient.kind, stops })
        },
    }
}

impl Repeater {
    /// The position of copy `index` along the repeater: the offset plus the
    /// index.
    pub open spec fn copy_time_spec(self, index: int) -> int {
        saturate_spec(self.offset + index * ONE)
    }

    /// The transform of copy `index`, with `t` the position of the copy:
    /// a translation by the anchor point and `t` times the position, a
    /// rotation by `t` times the rotation, a scale by the scale raised to
    /// the power `t`, and a translation by the negative of the anchor point.
    pub open spec fn transform_spec(self, index: int) -> Seq<Factor> {
        let t = self.copy_time_spec(index);
        seq![
            Factor::Translate {
                x: saturate_spec(self.anchor_point.x + product_spec(self.position.x as int, t)) as i64,
                y: saturate_spec(self.anchor_point.y + product_spec(self.position.y as int, t)) as i64,
            },
            Factor::Rotate { degrees: product_spec(self.rotation as int, t) as i64 },
            Factor::ScalePow {
                x: percent_spec(self.scale.x as int) as i64,
                y: percent_spec(self.scale.y as int) as i64,
                exponent: t as i64,
            },
            Factor::Translate {
                x: negate_spec(self.anchor_point.x as int) as i64,
                y: negate_spec(self.anchor_point.y as int) as i64,
            },
        ]
    }

    /// How far copy `index` lies along the copies, from zero for the first
    /// to one for the last.
    pub open spec fn copy_weight_spec(self, index: int) -> int {
        if self.copies <= 1 {
            0
        } else {
            clamp(index * ONE / (self.copies - 1), 0, ONE as int)
        }
    }

    /// The opacity of copy `index`: the point on the line from the start
    /// opacity to the end opacity at the weight of the copy.
    pub open spec fn opacity_spec(self, index: int) -> int {
        lerp_spec(self.start_opacity as int, self.end_opacity as int, self.copy_weight_spec(index))
    }

    /// Returns the transform of the copy with the given index.
    pub fn transform(&self, index: usize) -> (r: Affine)
        ensures
            r@ == self.transform_spec(index as int),
    {
        let t: i64 = saturate((self.offset as i128) + (index as i128) * 65536);
        let x: i64 = saturate((self.anchor_point.x as i128) + (product(self.position.x, t) as i128));
        let y: i64 = saturate((self.anchor_point.y as i128) + (product(self.position.y, t) as i128));
        let mut factors: Vec<Factor> = Vec::new();
        factors.push(Factor::Translate { x, y });
        factors.push(Factor::Rotate { degrees: product(self.rotation, t) });
        factors.push(
            Factor::ScalePow { x: percent(self.scale.x), y: percent(self.scale.y), exponent: t },
        );
        factors.push(
            Factor::Translate { x: negate(self.anchor_point.x), y: negate(self.anchor_point.y) },
        );
        proof {
            assert(factors@ =~= self.transform_spec(index as int));
        }
        Affine { factors }
    }

    /// Returns the opacity of the copy with the given index.
    pub fn opacity(&self, index: usize) -> (r: i64)
        ensures
            r == self.opacity_spec(index as int),
    {
        let w: i128 = if self.copies <= 1 {
            0
        } else {
            let q: i128 = floor_div((index as i128) * 65536, (self.copies - 1) as i128);
            if q > 65536 {
                65536
            } else {
                q
            }
        };
        let d: i128 = (self.end_opacity as i128) - (self.start_opacity as i128);
        assert(-0x1_0000_0000_0000_0000_0000 <= d * w <= 0x1_0000_0000_0000_0000_0000)
            by (nonlinear_arith)
            requires
                -0x1_0000_0000_0000_0000 <= d <= 0x1_0000_0000_0000_0000,
                0 <= w <= 0x1_0000,
        ;
        proof {
            crate::scalar::lemma_lerp_between(
                self.start_opacity as int,
                self.end_opacity as int,
                w as int,
            );
        }
        ((self.start_opacity as i128) + floor_div(d * w, 65536)) as i64
    }
}

/// The opacities of the copies of a repeater run from the start opacity, at
/// the first copy, to the end opacity, at the last of two or more copies.
pub proof fn lemma_copy_opacity_ends(repeater: Repeater)
    ensures
        repeater.opacity_spec(0) == repeater.start_opacity,
        repeater.copies >= 2 ==> repeater.opacity_spec(repeater.copies - 1) == repeater.end_opacity,
{
    let start = repeater.start_opacity as int;
    let end = repeater.end_opacity as int;
    crate::scalar::lemma_lerp_between(start, end, 0);
    crate::scalar::lemma_lerp_between(start, end, ONE as int);
    if repeater.copies >= 2 {
        let n = repeater.copies - 1;
        assert(n * ONE / n == ONE) by (nonlinear_arith)
            requires
                n > 0,
        ;
        assert(0 * ONE / n == 0) by (nonlinear_arith)
            requires
                n > 0,
        ;
    }
}

/// At the opacity one a brush keeps every colour as it is.
pub proof fn lemma_full_alpha_keeps_brush(brush: BrushView)
    ensures
        brush.with_alpha(ONE as int) == brush,
{
    assert forall|a: i32| crate::scalar::narrow_spec(product_spec(a as int, ONE as int)) == a by {
        assert(a * ONE / (ONE as int) == a) by (nonlinear_arith)
            requires
                ONE == 65536,
        ;
    }
    match brush {
        BrushView::Solid(color) => {
            assert(color.with_alpha_factor_spec(ONE as int) == color);
        },
        BrushView::Gradient(gradient) => {
            assert forall|i: int| 0 <= i < gradient.stops.len() implies stops_with_alpha(
                gradient.stops,
                ONE as int,
            )[i] == gradient.stops[i] by {
                assert(gradient.stops[i].color.with_alpha_factor_spec(ONE as int)
                    == gradient.stops[i].color);
            }
            assert(stops_with_alpha(gradient.stops, ONE as int) =~= gradient.stops);
        },
    }
}

/// A copy of a brush.
pub fn duplicate_brush(brush: &Brush) -> (r: Brush)
    ensures
        r@ == brush@,
{
    match brush {
        Brush::Solid(color) => Brush::Solid(*color),
        Brush::Gradient(gradient) => {
            let stops = gradient.stops.clone();
            assert(stops@ =~= gradient.stops@);
            Brush::Gradient(Gradient { kind: gradient.kind, stops })
        },
    }
}

} // verus!
