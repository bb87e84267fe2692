//! The scene graph: layers, shapes and the properties that describe them.

use vstd::prelude::*;
use crate::geometry::Affine;
use crate::geometry::Factor;
use crate::geometry::PathItem;
use crate::paint::ColorStop;
use crate::runtime::model::fixed::BrushView;
use crate::runtime::model::fixed::brush_with_alpha;
use crate::runtime::model::fixed::duplicate_brush;
use crate::runtime::model::value::duplicate_values;
use crate::PathEl32;

pub mod animated;
pub mod easing;
pub mod fixed;
pub mod spline;
pub mod value;

pub use crate::runtime::model::easing::Easing;
pub use crate::runtime::model::easing::EasingHandle;
pub use crate::runtime::model::value::Animated;
pub use crate::runtime::model::value::Sample;
pub use crate::runtime::model::value::Time;
pub use crate::runtime::model::value::Tween;
pub use crate::runtime::model::value::Value;

verus! {

/// Fixed or animated affine transformation.
#[derive(Clone, Debug)]
pub enum Transform {
    Fixed(fixed::Transform),
    Animated(animated::Transform),
}

/// Fixed or animated stroke properties.
#[derive(Clone, Debug)]
pub enum Stroke {
    Fixed(fixed::Stroke),
    Animated(animated::Stroke),
}

/// Fixed or animated repeater effect.
#[derive(Clone, Debug)]
pub enum Repeater {
    Fixed(fixed::Repeater),
    Animated(animated::Repeater),
}

/// Fixed or animated colour stops.
#[derive(Clone, Debug)]
pub enum ColorStops {
    Fixed(fixed::ColorStops),
    Animated(animated::ColorStops),
}

/// Fixed or animated brush.
#[derive(Clone, Debug)]
pub enum Brush {
    Fixed(fixed::Brush),
    Animated(animated::Brush),
}

impl Transform {
    /// Whether the transform is fixed.
    pub open spec fn is_fixed_spec(self) -> bool {
        self is Fixed
    }

    /// The factors of the transform at `frame`.
    pub open spec fn at(self, frame: int) -> Seq<Factor> {
        match self {
            Transform::Fixed(value) => value@,
            Transform::Animated(value) => value.at(frame),
        }
    }

    pub fn is_fixed(&self) -> (r: bool)
        ensures
            r == self.is_fixed_spec(),
    {
        matches!(self, Transform::Fixed(_))
    }

    pub fn evaluate(&self, frame: i64) -> (r: Affine)
        ensures
            r@ == self.at(frame as int),
    {
        match self {
            Transform::Fixed(value) => value.duplicate(),
            Transform::Animated(value) => value.evaluate(frame),
        }
    }
}

impl Stroke {
    /// Whether the stroke is fixed.
    pub open spec fn is_fixed_spec(self) -> bool {
        self is Fixed
    }

    /// The stroke at `frame`.
    pub open spec fn at(self, frame: int) -> fixed::Stroke {
        match self {
            Stroke::Fixed(value) => value,
            Stroke::Animated(value) => value.at(frame),
        }
    }

    pub fn is_fixed(&self) -> (r: bool)
        ensures
            r == self.is_fixed_spec(),
    {
        matches!(self, Stroke::Fixed(_))
    }

    pub fn evaluate(&self, frame: i64) -> (r: fixed::Stroke)
        ensures
            r == self.at(frame as int),
    {
        match self {
            Stroke::Fixed(value) => *value,
            Stroke::Animated(value) => value.evaluate(frame),
        }
    }
}

impl Repeater {
    /// Whether the repeater is fixed.
    pub open spec fn is_fixed_spec(self) -> bool {
        self is Fixed
    }

    /// The repeater at `frame`.
    pub open spec fn at(self, frame: int) -> fixed::Repeater {
        match self {
            Repeater::Fixed(value) => value,
            Repeater::Animated(value) => value.at(frame),
        }
    }

    pub fn is_fixed(&self) -> (r: bool)
        ensures
            r == self.is_fixed_spec(),
    {
        matches!(self, Repeater::Fixed(_))
    }

    pub fn evaluate(&self, frame: i64) -> (r: fixed::Repeater)
        ensures
            r == self.at(frame as int),
    {
        match self {
            Repeater::Fixed(value) => *value,
            Repeater::Animated(value) => value.evaluate(frame),
        }
    }
}

impl ColorStops {
    /// Whether the stops are fixed.
    pub open spec fn is_fixed_spec(self) -> bool {
        self is Fixed
    }

    /// The stops at `frame`.
    pub open spec fn at(self, frame: int) -> Seq<ColorStop> {
        match self {
            ColorStops::Fixed(value) => value@,
            ColorStops::Animated(value) => value.at(frame),
        }
    }

    pub fn is_fixed(&self) -> (r: bool)
        ensures
            r == self.is_fixed_spec(),
    {
        matches!(self, ColorStops::Fixed(_))
    }

    pub fn evaluate(&self, frame: i64) -> (r: fixed::ColorStops)
        ensures
            r@ == self.at(frame as int),
    {
        match self {
            ColorStops::Fixed(value) => {
                let stops = value.clone();
                assert(stops@ =~= value@);
                stops
            },
            ColorStops::Animated(value) => value.evaluate(frame),
        }
    }
}

impl Brush {
    /// Whether the brush is fixed.
    pub open spec fn is_fixed_spec(self) -> bool {
        self is Fixed
    }

    /// The brush at `frame`, as `animated::Brush::at` has it; a fixed brush
    /// has the alpha channel of every colour multiplied by `alpha`.
    pub open spec fn at(self, alpha: int, frame: int) -> BrushView {
        match self {
            Brush::Fixed(value) => value@.with_alpha(alpha),
            Brush::Animated(value) => value.at(alpha, frame),
        }
    }

    pub fn is_fixed(&self) -> (r: bool)
        ensures
            r == self.is_fixed_spec(),
    {
        matches!(self, Brush::Fixed(_))
    }

    pub fn evaluate(&self, alpha: i64, frame: i64) -> (r: fixed::Brush)
        ensures
            r@ == self.at(alpha as int, frame as int),
    {
        match self {
            Brush::Fixed(value) => brush_with_alpha(value, alpha),
            Brush::Animated(value) => value.evaluate(alpha, frame),
        }
    }
}

impl Default for Transform {
    fn default() -> (r: Self)
        ensures
            r is Fixed,
            r->Fixed_0@ == Seq::<Factor>::empty(),
    {
        Transform::Fixed(Affine::identity())
    }
}

/// The outline of a shape: a fixed path, or an animated rectangle, ellipse
/// or spline.
#[derive(Clone, Debug)]
pub enum Geometry {
    Fixed(Vec<PathEl32>),
    Rect(animated::Rect),
    Ellipse(animated::Ellipse),
    Spline(animated::Spline),
}

/// The stored path elements, widened, as items of an outline.
pub open spec fn fixed_path(elements: Seq<PathEl32>) -> Seq<PathItem> {
    Seq::new(elements.len(), |i: int| PathItem::Element(elements[i].to_path_el_spec()))
}

impl Geometry {
    /// Whether the outline is the same at every frame.
    pub open spec fn is_fixed_spec(self) -> bool {
        match self {
            Geometry::Fixed(_) => true,
            Geometry::Rect(value) => value.is_fixed_spec(),
            Geometry::Ellipse(value) => value.is_fixed_spec(),
            Geometry::Spline(_) => false,
        }
    }

    /// The outline at `frame`.
    pub open spec fn at(self, frame: int) -> Seq<PathItem> {
        match self {
            Geometry::Fixed(value) => fixed_path(value@),
            Geometry::Rect(value) => seq![PathItem::RoundedRect(value.at(frame))],
            Geometry::Ellipse(value) => seq![PathItem::Ellipse(value.at(frame))],
            Geometry::Spline(value) => value.at(frame),
        }
    }

    /// Evaluates the outline at the given frame and appends it to the
    /// specified path.
    pub fn evaluate(&self, frame: i64, path: &mut Vec<PathItem>)
        ensures
            final(path)@ == old(path)@ + self.at(frame as int),
    {
        match self {
            Geometry::Fixed(value) => {
                let mut i: usize = 0;
                while i < value.len()
                    invariant
                        i <= value.len(),
                        path@ == old(path)@ + fixed_path(value@).take(i as int),
                    decreases value.len() - i,
                {
                    path.push(PathItem::Element(value[i].to_path_el()));
                    proof {
                        assert(fixed_path(value@).take(i + 1) =~= fixed_path(value@).take(
                            i as int,
                        ).push(PathItem::Element(value@[i as int].to_path_el_spec())));
                        assert(old(path)@ + fixed_path(value@).take(i + 1) =~= (old(path)@
                            + fixed_path(value@).take(i as int)).push(
                            PathItem::Element(value@[i as int].to_path_el_spec()),
                        ));
                    }
                    i += 1;
                }
                proof {
                    assert(fixed_path(value@).take(value.len() as int) =~= fixed_path(value@));
                }
            },
            Geometry::Rect(value) => {
                path.push(PathItem::RoundedRect(value.evaluate(frame)));
                assert(path@ =~= old(path)@ + self.at(frame as int));
            },
            Geometry::Ellipse(value) => {
                path.push(PathItem::Ellipse(value.evaluate(frame)));
                assert(path@ =~= old(path)@ + self.at(frame as int));
            },
            Geometry::Spline(value) => {
                value.evaluate(frame, path);
            },
        }
    }
}

/// Fill or stroke of the outline gathered so far.
#[derive(Clone, Debug)]
pub struct Draw {
    /// Parameters for a stroked draw operation.
    pub stroke: Option<Stroke>,
    /// Brush for the draw operation.
    pub brush: Brush,
    /// Opacity of the draw operation.
    pub opacity: Value<i32>,
}

/// Elements of a shape layer.
#[derive(Debug)]
pub enum Shape {
    /// Group of shapes with an optional transform.
    Group(Vec<Shape>, Option<GroupTransform>),
    /// Geometry element.
    Geometry(Geometry),
    /// Fill or stroke element.
    Draw(Draw),
    /// Repeater element.
    Repeater(Repeater),
}

impl Shape {
    /// A copy of the shape and of every shape below it.
    fn duplicate(&self) -> (r: Shape)
        ensures
            r.same_as(*self),
        decreases self,
    {
        match self {
            Shape::Group(children, transform) => {
                let mut copies: Vec<Shape> = Vec::new();
                let mut i: usize = 0;
                while i < children.len()
                    invariant
                        i <= children.len(),
                        *self is Group,
                        self->Group_0 == *children,
                        copies@.len() == i,
                        forall|k: int| 0 <= k < i ==> (#[trigger] copies@[k]).same_as(children@[k]),
                    decreases children.len() - i,
                {
                    proof {
                        assert(decreases_to!(*self => self->Group_0@[i as int]));
                    }
                    copies.push(children[i].duplicate());
                    i += 1;
                }
                proof {
                    lemma_shapes_same(copies@, children@, 0);
                }
                let group = match transform {
                    Some(g) => Some(g.duplicate()),
                    None => None,
                };
                Shape::Group(copies, group)
            },
            Shape::Geometry(geometry) => Shape::Geometry(geometry.duplicate()),
            Shape::Draw(draw) => Shape::Draw(draw.duplicate()),
            Shape::Repeater(repeater) => Shape::Repeater(repeater.duplicate()),
        }
    }
}

impl Clone for Shape {
    fn clone(&self) -> Self {
        self.duplicate()
    }
}

/// Transform and opacity for a shape group.
#[derive(Clone, Debug)]
pub struct GroupTransform {
    pub transform: Transform,
    pub opacity: Value<i32>,
}

/// A range of frames: from `start`, up to and without `end`.
#[derive(Clone, Copy, Debug, Default, PartialEq, Eq, Structural)]
pub struct FrameRange {
    pub start: i64,
    pub end: i64,
}

impl FrameRange {
    /// Whether `frame` lies in the range.
    pub open spec fn contains_spec(self, frame: int) -> bool {
        self.start <= frame < self.end
    }

    /// Returns true if the frame lies in the range.
    pub fn contains(&self, frame: i64) -> (r: bool)
        ensures
            r == self.contains_spec(frame as int),
    {
        self.start <= frame && frame < self.end
    }
}

/// Layer in an animation.
#[derive(Debug)]
pub struct Layer {
    /// Name of the layer.
    pub name: String,
    /// Index of the transform parent layer.
    pub parent: Option<usize>,
    /// Transform for the entire layer.
    pub transform: Transform,
    /// Opacity for the entire layer.
    pub opacity: Value<i32>,
    /// Width of the layer.
    pub width: i64,
    /// Height of the layer.
    pub height: i64,
    /// Blend mode for the layer.
    pub blend_mode: Option<peniko::BlendMode>,
    /// Range of frames in which the layer is active.
    pub frames: FrameRange,
    /// Frame time stretch factor.
    pub stretch: i64,
    /// Starting frame for the layer (only applied to instances).
    pub start_frame: i64,
    /// List of masks applied to the content.
    pub masks: Vec<Mask>,
    /// True if the layer is used as a mask.
    pub is_mask: bool,
    /// Mask blend mode and layer.
    pub mask_layer: Option<(peniko::BlendMode, usize)>,
    /// Content of the layer.
    pub content: Content,
}

impl Clone for Layer {
    fn clone(&self) -> Self {
        Layer {
            name: self.name.clone(),
            parent: self.parent,
            transform: self.transform.clone(),
            opacity: self.opacity.clone(),
            width: self.width,
            height: self.height,
            blend_mode: self.blend_mode,
            frames: self.frames,
            stretch: self.stretch,
            start_frame: self.start_frame,
            masks: self.masks.clone(),
            is_mask: self.is_mask,
            mask_layer: self.mask_layer,
            content: self.content.clone(),
        }
    }
}

impl Default for Layer {
    /// An empty layer: no content, no masks, identity transform, and every
    /// number zero.
    fn default() -> (r: Self)
        ensures
            r.content is Empty,
            r.masks@.len() == 0,
            r.parent is None,
            r.mask_layer is None,
            r.blend_mode is None,
            !r.is_mask,
            r.transform.at(0) == Seq::<Factor>::empty(),
            r.opacity == Value::<i32>::Fixed(0),
            r.frames == (FrameRange { start: 0, end: 0 }),
    {
        Layer {
            name: String::new(),
            parent: None,
            transform: Transform::Fixed(Affine::identity()),
            opacity: Value::Fixed(0),
            width: 0,
            height: 0,
            blend_mode: None,
            frames: FrameRange { start: 0, end: 0 },
            stretch: 0,
            start_frame: 0,
            masks: Vec::new(),
            is_mask: false,
            mask_layer: None,
            content: Content::Empty,
        }
    }
}

/// Matte layer mode.
#[derive(Copy, Clone, PartialEq, Eq, Debug, Structural)]
pub enum Matte {
    Normal,
}

impl Default for Matte {
    fn default() -> (r: Self)
        ensures
            r == Matte::Normal,
    {
        Matte::Normal
    }
}

/// Mask for a layer.
#[derive(Debug)]
pub struct Mask {
    /// Blend mode for the mask.
    pub mode: peniko::BlendMode,
    /// Geometry that defines the shape of the mask.
    pub geometry: Geometry,
    /// Opacity of the mask.
    pub opacity: Value<i32>,
}

impl Clone for Mask {
    fn clone(&self) -> Self {
        Mask { mode: self.mode, geometry: self.geometry.clone(), opacity: self.opacity.clone() }
    }
}

/// Content of a layer.
#[derive(Clone, Debug)]
pub enum Content {
    /// Empty layer.
    Empty,
    /// Asset instance with the specified name and time remapping.
    Instance { name: String, time_remap: Option<Value<i32>> },
    /// Collection of shapes.
    Shape(Vec<Shape>),
}

impl Default for Content {
    fn default() -> (r: Self)
        ensures
            r is Empty,
    {
        Content::Empty
    }
}

impl Transform {
    /// Whether `self` and `other` are the same fixed transform, factor by
    /// factor, or the same animated transform.
    pub open spec fn same_as(self, other: Self) -> bool {
        match (self, other) {
            (Transform::Fixed(a), Transform::Fixed(b)) => a@ == b@,
            (Transform::Animated(a), Transform::Animated(b)) => a.same_as(b),
            _ => false,
        }
    }

    /// A copy of the transform.
    pub fn duplicate(&self) -> (r: Self)
        ensures
            r.same_as(*self),
    {
        match self {
            Transform::Fixed(value) => Transform::Fixed(value.duplicate()),
            Transform::Animated(value) => Transform::Animated(value.duplicate()),
        }
    }
}

impl Stroke {
    /// Whether `self` and `other` are the same fixed stroke or the same
    /// animated stroke.
    pub open spec fn same_as(self, other: Self) -> bool {
        match (self, other) {
            (Stroke::Fixed(a), Stroke::Fixed(b)) => a == b,
            (Stroke::Animated(a), Stroke::Animated(b)) => a.same_as(b),
            _ => false,
        }
    }

    /// A copy of the stroke.
    pub fn duplicate(&self) -> (r: Self)
        ensures
            r.same_as(*self),
    {
        match self {
            Stroke::Fixed(value) => Stroke::Fixed(*value),
            Stroke::Animated(value) => Stroke::Animated(value.duplicate()),
        }
    }
}

impl Repeater {
    /// Whether `self` and `other` are the same fixed repeater or the same
    /// animated repeater.
    pub open spec fn same_as(self, other: Self) -> bool {
        match (self, other) {
            (Repeater::Fixed(a), Repeater::Fixed(b)) => a == b,
            (Repeater::Animated(a), Repeater::Animated(b)) => a.same_as(b),
            _ => false,
        }
    }

    /// A copy of the repeater.
    pub fn duplicate(&self) -> (r: Self)
        ensures
            r.same_as(*self),
    {
        match self {
            Repeater::Fixed(value) => Repeater::Fixed(*value),
            Repeater::Animated(value) => Repeater::Animated(value.duplicate()),
        }
    }
}

impl ColorStops {
    /// Whether `self` and `other` are the same fixed stops, stop by stop, or
    /// the same animated stops.
    pub open spec fn same_as(self, other: Self) -> bool {
        match (self, other) {
            (ColorStops::Fixed(a), ColorStops::Fixed(b)) => a@ == b@,
            (ColorStops::Animated(a), ColorStops::Animated(b)) => a.same_as(b),
            _ => false,
        }
    }

    /// A copy of the stops.
    pub fn duplicate(&self) -> (r: Self)
        ensures
            r.same_as(*self),
    {
        match self {
            ColorStops::Fixed(value) => ColorStops::Fixed(duplicate_values(value)),
            ColorStops::Animated(value) => ColorStops::Animated(value.duplicate()),
        }
    }
}

impl Brush {
    /// Whether `self` and `other` are fixed brushes that hold the same, or
    /// the same animated brush.
    pub open spec fn same_as(self, other: Self) -> bool {
        match (self, other) {
            (Brush::Fixed(a), Brush::Fixed(b)) => a@ == b@,
            (Brush::Animated(a), Brush::Animated(b)) => a.same_as(b),
            _ => false,
        }
    }

    /// A copy of the brush.
    pub fn duplicate(&self) -> (r: Self)
        ensures
            r.same_as(*self),
    {
        match self {
            Brush::Fixed(value) => Brush::Fixed(duplicate_brush(value)),
            Brush::Animated(value) => Brush::Animated(value.duplicate()),
        }
    }
}

impl Geometry {
    /// Whether `self` and `other` are the same fixed path, element by
    /// element, or the same animated rectangle, ellipse or spline.
    pub open spec fn same_as(self, other: Self) -> bool {
        match (self, other) {
            (Geometry::Fixed(a), Geometry::Fixed(b)) => a@ == b@,
            (Geometry::Rect(a), Geometry::Rect(b)) => a.same_as(b),
            (Geometry::Ellipse(a), Geometry::Ellipse(b)) => a.same_as(b),
            (Geometry::Spline(a), Geometry::Spline(b)) => a.same_as(b),
            _ => false,
        }
    }

    /// A copy of the outline.
    pub fn duplicate(&self) -> (r: Self)
        ensures
            r.same_as(*self),
    {
        match self {
            Geometry::Fixed(value) => Geometry::Fixed(duplicate_values(value)),
            Geometry::Rect(value) => Geometry::Rect(value.duplicate()),
            Geometry::Ellipse(value) => Geometry::Ellipse(value.duplicate()),
            Geometry::Spline(value) => Geometry::Spline(value.duplicate()),
        }
    }
}

impl Draw {
    /// Whether `self` and `other` have the same stroke properties, or none,
    /// the same brush and the same opacity.
    pub open spec fn same_as(self, other: Self) -> bool {
        &&& match (self.stroke, other.stroke) {
            (Some(a), Some(b)) => a.same_as(b),
            (None, None) => true,
            _ => false,
        }
        &&& self.brush.same_as(other.brush)
        &&& self.opacity.same_as(other.opacity)
    }

    /// A copy of the draw element.
    pub fn duplicate(&self) -> (r: Self)
        ensures
            r.same_as(*self),
    {
        let stroke = match &self.stroke {
            Some(stroke) => Some(stroke.duplicate()),
            None => None,
        };
        Draw { stroke, brush: self.brush.duplicate(), opacity: self.opacity.duplicate() }
    }
}

impl GroupTransform {
    /// Whether `self` and `other` have the same transform and the same
    /// opacity.
    pub open spec fn same_as(self, other: Self) -> bool {
        self.transform.same_as(other.transform) && self.opacity.same_as(other.opacity)
    }

    /// A copy of the transform and opacity.
    pub fn duplicate(&self) -> (r: Self)
        ensures
            r.same_as(*self),
    {
        GroupTransform { transform: self.transform.duplicate(), opacity: self.opacity.duplicate() }
    }
}

/// Whether the shapes of `a` from index `from` on are the same as the shapes
/// of `b` at the same indices.
pub open spec fn shapes_same(a: Seq<Shape>, b: Seq<Shape>, from: int) -> bool
    decreases a, a.len() - from,
{
    if from < 0 || from >= a.len() {
        true
    } else {
        a[from].same_as(b[from]) && shapes_same(a, b, from + 1)
    }
}

impl Shape {
    /// Whether `self` and `other` are the same shape: elements of one kind
    /// that hold the same; for groups, as many children, each the same as
    /// the child at its index, and the same transform and opacity, or none.
    pub open spec fn same_as(self, other: Shape) -> bool
        decreases self, 0int,
    {
        match (self, other) {
            (Shape::Group(a, ga), Shape::Group(b, gb)) => {
                &&& a@.len() == b@.len()
                &&& shapes_same(a@, b@, 0)
                &&& match (ga, gb) {
                    (Some(x), Some(y)) => x.same_as(y),
                    (None, None) => true,
                    _ => false,
                }
            },
            (Shape::Geometry(a), Shape::Geometry(b)) => a.same_as(b),
            (Shape::Draw(a), Shape::Draw(b)) => a.same_as(b),
            (Shape::Repeater(a), Shape::Repeater(b)) => a.same_as(b),
            _ => false,
        }
    }
}

/// Shapes that are the same index by index are the same from every index
/// on.
pub proof fn lemma_shapes_same(a: Seq<Shape>, b: Seq<Shape>, from: int)
    requires
        forall|k: int| from <= k < a.len() && 0 <= k ==> (#[trigger] a[k]).same_as(b[k]),
    ensures
        shapes_same(a, b, from),
    decreases a.len() - from,
{
    if 0 <= from < a.len() {
        lemma_shapes_same(a, b, from + 1);
    }
}

} // verus!
