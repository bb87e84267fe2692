use velato::geometry::Affine;
use velato::geometry::Ellipse;
use velato::geometry::Factor;
use velato::geometry::PathEl;
use velato::geometry::PathItem;
use velato::geometry::Point;
use velato::geometry::RoundedRect;
use velato::geometry::Vec2;
use velato::model;
use velato::model::animated;
use velato::model::fixed;
use velato::model::Animated;
use velato::model::Content;
use velato::model::Draw;
use velato::model::FrameRange;
use velato::model::Geometry;
use velato::model::GroupTransform;
use velato::model::Layer;
use velato::model::Mask;
use velato::model::Shape;
use velato::model::Time;
use velato::model::Value;
use velato::paint::Color;
use velato::paint::ColorStop;
use velato::runtime::render::layer_transform_at;
use velato::runtime::render::local_frame_at;
use velato::runtime::render::render_layer;
use velato::runtime::render::render_shapes;
use velato::Asset;
use velato::Command;
use velato::Composition;
use velato::PathEl32;
use velato::PointF32;
use velato::Renderer;
use velato::SizeF32;

const U: i32 = 65536;
const F: i64 = 65536;

fn key(frame: i64) -> Time {
    Time { frame: frame * F, in_tangent: None, out_tangent: None, hold: false }
}

fn ramp(from: i32, to: i32) -> Value<i32> {
    Value::Animated(Animated { times: vec![key(0), key(10)], values: vec![from, to] })
}

fn red() -> Color {
    Color::rgba(U, 0, 0, U)
}

fn blue() -> Color {
    Color::rgba(0, 0, U, U)
}

fn solid(color: Color) -> model::Brush {
    model::Brush::Fixed(fixed::Brush::Solid(color))
}

fn fill(color: Color) -> Shape {
    Shape::Draw(Draw { stroke: None, brush: solid(color), opacity: Value::Fixed(U) })
}

fn line(x: i32) -> Shape {
    Shape::Geometry(Geometry::Fixed(vec![
        PathEl32::MoveTo(PointF32::new(0, 0)),
        PathEl32::LineTo(PointF32::new(x * U, 0)),
    ]))
}

fn line_items(x: i64) -> Vec<PathItem> {
    vec![
        PathItem::Element(PathEl::MoveTo(Point::new(0, 0))),
        PathItem::Element(PathEl::LineTo(Point::new(x * F, 0))),
    ]
}

fn shift(x: i64, y: i64) -> Affine {
    Affine::from_factor(Factor::Translate { x: x * F, y: y * F })
}

fn layer(content: Content) -> Layer {
    let mut layer = Layer::default();
    layer.frames = FrameRange { start: 0, end: 100 * F };
    layer.opacity = Value::Fixed(U);
    layer.stretch = F;
    layer.content = content;
    layer
}

fn composition(layers: Vec<Layer>) -> Composition {
    let mut composition = Composition::default();
    composition.frames = FrameRange { start: 0, end: 100 * F };
    composition.layers = layers;
    composition
}

fn render(composition: &Composition, frame: i64) -> Vec<Command> {
    Renderer::new().render(composition, frame, &Affine::identity(), F)
}

fn plain_fill(path: Vec<PathItem>, transform: Affine, color: Color) -> Command {
    Command::Fill { path, transform, brush: fixed::Brush::Solid(color) }
}

#[test]
fn empty_composition_draws_nothing() {
    assert_eq!(render(&Composition::default(), 0), vec![]);
    assert_eq!(render(&composition(vec![layer(Content::Empty)]), 0), vec![]);
    assert_eq!(render(&composition(vec![layer(Content::Shape(vec![]))]), 0), vec![]);
    assert_eq!(render(&composition(vec![Layer::default()]), 0), vec![]);
}

#[test]
fn default_layer_is_empty() {
    let layer = Layer::default();
    assert!(matches!(layer.content, Content::Empty));
    assert!(matches!(Content::default(), Content::Empty));
    assert!(layer.masks.is_empty());
    assert_eq!(layer.parent, None);
    assert_eq!(layer.mask_layer, None);
    assert_eq!(layer.blend_mode, None);
    assert!(!layer.is_mask);
    assert_eq!(layer.frames, FrameRange { start: 0, end: 0 });
    assert_eq!(layer.transform.evaluate(0), Affine::identity());
    assert_eq!(layer.opacity.evaluate(0), 0);
}

#[test]
fn shape_layer_fills_its_outline() {
    let c = composition(vec![layer(Content::Shape(vec![line(10), fill(red())]))]);
    assert_eq!(render(&c, 0), vec![plain_fill(line_items(10), Affine::identity(), red())]);
}

#[test]
fn draw_with_stroke_properties_strokes() {
    let style = fixed::Stroke {
        width: 2 * F,
        join: kurbo::Join::Miter,
        miter_limit: None,
        cap: kurbo::Cap::Round,
    };
    let draw = Shape::Draw(Draw {
        stroke: Some(model::Stroke::Fixed(style)),
        brush: solid(blue()),
        opacity: Value::Fixed(U),
    });
    let c = composition(vec![layer(Content::Shape(vec![line(10), draw]))]);
    assert_eq!(
        render(&c, 0),
        vec![Command::Stroke {
            path: line_items(10),
            transform: Affine::identity(),
            brush: fixed::Brush::Solid(blue()),
            style,
        }]
    );
}

#[test]
fn draw_keeps_the_outline_for_later_draws() {
    let shapes = vec![line(10), fill(red()), line(20), fill(blue())];
    let c = composition(vec![layer(Content::Shape(shapes))]);
    let mut both = line_items(10);
    both.extend(line_items(20));
    assert_eq!(
        render(&c, 0),
        vec![
            plain_fill(line_items(10), Affine::identity(), red()),
            plain_fill(both, Affine::identity(), blue()),
        ]
    );
}

#[test]
fn draw_before_any_geometry_paints_an_empty_outline() {
    let c = composition(vec![layer(Content::Shape(vec![fill(red()), line(10)]))]);
    assert_eq!(render(&c, 0), vec![plain_fill(vec![], Affine::identity(), red())]);
}

#[test]
fn group_has_an_outline_of_its_own() {
    let group = Shape::Group(vec![line(20), fill(blue())], None);
    let shapes = vec![line(10), group, fill(red())];
    let c = composition(vec![layer(Content::Shape(shapes))]);
    assert_eq!(
        render(&c, 0),
        vec![
            plain_fill(line_items(20), Affine::identity(), blue()),
            plain_fill(line_items(10), Affine::identity(), red()),
        ]
    );
}

#[test]
fn group_transform_and_opacity_nest() {
    let inner = Shape::Group(
        vec![line(30), fill(red())],
        Some(GroupTransform {
            transform: model::Transform::Fixed(shift(0, 2)),
            opacity: Value::Fixed(U / 2),
        }),
    );
    let outer = Shape::Group(
        vec![inner, line(20), fill(blue())],
        Some(GroupTransform {
            transform: model::Transform::Fixed(shift(1, 0)),
            opacity: Value::Fixed(U / 2),
        }),
    );
    let c = composition(vec![layer(Content::Shape(vec![outer, line(10), fill(red())]))]);
    assert_eq!(
        render(&c, 0),
        vec![
            plain_fill(line_items(30), shift(1, 0).compose(&shift(0, 2)), Color::rgba(U, 0, 0, U / 4)),
            plain_fill(line_items(20), shift(1, 0), Color::rgba(0, 0, U, U / 2)),
            plain_fill(line_items(10), Affine::identity(), red()),
        ]
    );
}

#[test]
fn draw_opacity_and_layer_opacity_multiply() {
    let draw = Shape::Draw(Draw { stroke: None, brush: solid(red()), opacity: Value::Fixed(U / 2) });
    let mut l = layer(Content::Shape(vec![line(10), draw]));
    l.opacity = Value::Fixed(U / 2);
    let c = composition(vec![l]);
    assert_eq!(
        Renderer::new().render(&c, 0, &Affine::identity(), F / 2),
        vec![plain_fill(line_items(10), Affine::identity(), Color::rgba(U, 0, 0, U / 8))]
    );
}

#[test]
fn animated_geometry_joins_the_outline() {
    let rect = Shape::Geometry(Geometry::Rect(animated::Rect {
        is_ccw: false,
        position: Value::Fixed(PointF32::new(10 * U, 20 * U)),
        size: Value::Fixed(SizeF32::new(6 * U, 4 * U)),
        corner_radius: ramp(0, 2 * U),
    }));
    let ellipse = Shape::Geometry(Geometry::Ellipse(animated::Ellipse {
        is_ccw: false,
        position: Value::Fixed(PointF32::new(0, 0)),
        size: Value::Fixed(SizeF32::new(6 * U, 4 * U)),
    }));
    let spline = Shape::Geometry(Geometry::Spline(animated::Spline {
        is_closed: false,
        times: vec![key(0)],
        values: vec![vec![PointF32::new(U, U)]],
    }));
    let c = composition(vec![layer(Content::Shape(vec![rect, ellipse, spline, fill(red())]))]);
    assert_eq!(
        render(&c, 5 * F),
        vec![plain_fill(
            vec![
                PathItem::RoundedRect(RoundedRect {
                    x0: 7 * F,
                    y0: 18 * F,
                    x1: 13 * F,
                    y1: 22 * F,
                    radius: F
                }),
                PathItem::Ellipse(Ellipse {
                    center: Point::new(0, 0),
                    radii: Vec2::new(3 * F, 2 * F)
                }),
                PathItem::Element(PathEl::MoveTo(Point::new(F, F))),
            ],
            Affine::identity(),
            red()
        )]
    );
}

fn repeater(copies: i32) -> Shape {
    Shape::Repeater(model::Repeater::Animated(animated::Repeater {
        copies: Value::Fixed(copies * U),
        offset: Value::Fixed(0),
        anchor_point: Value::Fixed(PointF32::new(0, 0)),
        position: Value::Fixed(PointF32::new(10 * U, 0)),
        rotation: Value::Fixed(0),
        scale: Value::Fixed(PointF32::new(100 * U, 100 * U)),
        start_opacity: Value::Fixed(U),
        end_opacity: Value::Fixed(0),
    }))
}

fn copy_transform(index: i64) -> Affine {
    Affine {
        factors: vec![
            Factor::Translate { x: 10 * index * F, y: 0 },
            Factor::Rotate { degrees: 0 },
            Factor::ScalePow { x: F, y: F, exponent: index * F },
            Factor::Translate { x: 0, y: 0 },
        ],
    }
}

#[test]
fn repeater_draws_the_shapes_after_it_once_for_each_copy() {
    let shapes = vec![line(10), repeater(3), line(20), fill(red())];
    let c = composition(vec![layer(Content::Shape(shapes))]);
    let mut both = line_items(10);
    both.extend(line_items(20));
    assert_eq!(
        Renderer::new().render(&c, 0, &shift(5, 5), F),
        vec![
            plain_fill(both.clone(), shift(5, 5).compose(&copy_transform(0)), red()),
            plain_fill(
                both.clone(),
                shift(5, 5).compose(&copy_transform(1)),
                Color::rgba(U, 0, 0, U / 2)
            ),
            plain_fill(both, shift(5, 5).compose(&copy_transform(2)), Color::rgba(U, 0, 0, 0)),
        ]
    );
}

#[test]
fn repeater_without_copies_draws_nothing() {
    let shapes = vec![line(10), fill(blue()), repeater(0), fill(red())];
    let c = composition(vec![layer(Content::Shape(shapes))]);
    assert_eq!(render(&c, 0), vec![plain_fill(line_items(10), Affine::identity(), blue())]);
}

#[test]
fn repeaters_nest() {
    let shapes = vec![repeater(2), repeater(2), line(10), fill(red())];
    let c = composition(vec![layer(Content::Shape(shapes))]);
    let transforms: Vec<Affine> = vec![(0, 0), (0, 1), (1, 0), (1, 1)]
        .into_iter()
        .map(|(a, b)| copy_transform(a).compose(&copy_transform(b)))
        .collect();
    let alphas = [U, 0, 0, 0];
    let commands = render(&c, 0);
    assert_eq!(commands.len(), 4);
    for i in 0..4 {
        assert_eq!(
            commands[i],
            plain_fill(line_items(10), transforms[i].clone(), Color::rgba(U, 0, 0, alphas[i]))
        );
    }
}

#[test]
fn repeater_inside_a_group_repeats_only_the_group() {
    let group = Shape::Group(vec![repeater(2), line(10), fill(red())], None);
    let c = composition(vec![layer(Content::Shape(vec![group, line(20), fill(blue())]))]);
    assert_eq!(
        render(&c, 0),
        vec![
            plain_fill(line_items(10), copy_transform(0), red()),
            plain_fill(line_items(10), copy_transform(1), Color::rgba(U, 0, 0, 0)),
            plain_fill(line_items(20), Affine::identity(), blue()),
        ]
    );
}

#[test]
fn render_shapes_starts_at_the_given_shape() {
    let shapes = vec![line(10), fill(blue()), line(20), fill(red())];
    let mut out = vec![Command::PopBlend];
    render_shapes(&shapes, 2, line_items(5), &shift(1, 1), F / 2, 0, &mut out);
    let mut both = line_items(5);
    both.extend(line_items(20));
    assert_eq!(
        out,
        vec![Command::PopBlend, plain_fill(both, shift(1, 1), Color::rgba(U, 0, 0, U / 2))]
    );
    render_shapes(&shapes, 4, vec![], &shift(1, 1), F, 0, &mut out);
    render_shapes(&shapes, usize::MAX, vec![], &shift(1, 1), F, 0, &mut out);
    assert_eq!(out.len(), 2);
}

#[test]
fn layers_are_drawn_in_order() {
    let c = composition(vec![
        layer(Content::Shape(vec![line(10), fill(red())])),
        layer(Content::Shape(vec![line(20), fill(blue())])),
    ]);
    assert_eq!(
        render(&c, 0),
        vec![
            plain_fill(line_items(10), Affine::identity(), red()),
            plain_fill(line_items(20), Affine::identity(), blue()),
        ]
    );
}

#[test]
fn layer_outside_its_frames_draws_nothing() {
    let mut first = layer(Content::Shape(vec![line(10), fill(red())]));
    first.frames = FrameRange { start: 10 * F, end: 20 * F };
    first.blend_mode = Some(peniko::BlendMode::default());
    let second = layer(Content::Shape(vec![line(20), fill(blue())]));
    let c = composition(vec![first, second]);
    let only_second = vec![plain_fill(line_items(20), Affine::identity(), blue())];
    assert_eq!(render(&c, 0), only_second);
    assert_eq!(render(&c, 10 * F - 1), only_second);
    assert_eq!(render(&c, 20 * F), only_second);
    assert_eq!(render(&c, 10 * F).len(), 4);
    assert_eq!(render(&c, 20 * F - 1).len(), 4);
    assert_eq!(render(&c, 100 * F), vec![]);
    assert_eq!(render(&c, -1), vec![]);
}

#[test]
fn layer_transform_follows_its_parents() {
    let mut child = layer(Content::Shape(vec![line(10), fill(red())]));
    child.transform = model::Transform::Fixed(shift(1, 0));
    child.parent = Some(2);
    let mut unrelated = layer(Content::Empty);
    unrelated.transform = model::Transform::Fixed(shift(9, 9));
    let mut parent = layer(Content::Empty);
    parent.transform = model::Transform::Fixed(shift(0, 2));
    parent.parent = Some(3);
    let mut grandparent = layer(Content::Empty);
    grandparent.transform = model::Transform::Fixed(shift(3, 3));
    grandparent.frames = FrameRange { start: 0, end: 0 };
    let layers = vec![child, unrelated, parent, grandparent];
    let expected = shift(7, 7).compose(&shift(3, 3)).compose(&shift(0, 2)).compose(&shift(1, 0));
    assert_eq!(layer_transform_at(&layers, 0, &shift(7, 7), 0), expected);
    assert_eq!(
        layer_transform_at(&layers, 2, &Affine::identity(), 0),
        shift(3, 3).compose(&shift(0, 2))
    );
    assert_eq!(layer_transform_at(&layers, 1, &Affine::identity(), 0), shift(9, 9));
    let c = composition(layers);
    assert_eq!(
        Renderer::new().render(&c, 0, &shift(7, 7), F),
        vec![plain_fill(line_items(10), expected, red())]
    );
}

#[test]
fn layer_transform_uses_the_frame() {
    let mut child = layer(Content::Empty);
    child.parent = Some(1);
    let mut parent = layer(Content::Empty);
    parent.transform = model::Transform::Animated(animated::Transform {
        anchor: Value::Fixed(PointF32::new(0, 0)),
        position: animated::Position::Value(Value::Fixed(PointF32::new(0, 0))),
        rotation: ramp(0, 90 * U),
        scale: Value::Fixed(PointF32::new(100 * U, 100 * U)),
        skew: Value::Fixed(0),
        skew_angle: Value::Fixed(0),
    });
    let layers = vec![child, parent];
    assert_eq!(
        layer_transform_at(&layers, 0, &Affine::identity(), 5 * F).factors[1],
        Factor::Rotate { degrees: 45 * F }
    );
}

#[test]
fn parent_cycle_ends_at_the_first_repeated_layer() {
    let mut a = layer(Content::Empty);
    a.transform = model::Transform::Fixed(shift(1, 0));
    a.parent = Some(1);
    let mut b = layer(Content::Empty);
    b.transform = model::Transform::Fixed(shift(0, 2));
    b.parent = Some(2);
    let mut c = layer(Content::Empty);
    c.transform = model::Transform::Fixed(shift(3, 3));
    c.parent = Some(0);
    let layers = vec![a, b, c];
    assert_eq!(
        layer_transform_at(&layers, 0, &Affine::identity(), 0),
        shift(3, 3).compose(&shift(0, 2)).compose(&shift(1, 0))
    );
    assert_eq!(
        layer_transform_at(&layers, 1, &Affine::identity(), 0),
        shift(1, 0).compose(&shift(3, 3)).compose(&shift(0, 2))
    );
}

#[test]
fn layer_that_is_its_own_parent() {
    let mut a = layer(Content::Empty);
    a.transform = model::Transform::Fixed(shift(1, 0));
    a.parent = Some(0);
    assert_eq!(layer_transform_at(&vec![a], 0, &Affine::identity(), 0), shift(1, 0));
}

#[test]
fn parent_that_is_no_layer_is_ignored() {
    let mut a = layer(Content::Empty);
    a.transform = model::Transform::Fixed(shift(1, 0));
    a.parent = Some(5);
    let mut b = layer(Content::Empty);
    b.parent = Some(usize::MAX);
    b.transform = model::Transform::Fixed(shift(2, 0));
    let layers = vec![a, b];
    assert_eq!(layer_transform_at(&layers, 0, &Affine::identity(), 0), shift(1, 0));
    assert_eq!(layer_transform_at(&layers, 1, &Affine::identity(), 0), shift(2, 0));
}

fn multiply() -> peniko::BlendMode {
    peniko::BlendMode::new(peniko::Mix::Multiply, peniko::Compose::SrcOver)
}

fn clip() -> peniko::BlendMode {
    peniko::BlendMode::new(peniko::Mix::Clip, peniko::Compose::SrcOver)
}

#[test]
fn blend_mode_wraps_the_layer() {
    let mut l = layer(Content::Shape(vec![line(10), fill(red())]));
    l.blend_mode = Some(multiply());
    let c = composition(vec![l]);
    assert_eq!(
        render(&c, 0),
        vec![
            Command::PushBlend { mode: multiply() },
            plain_fill(line_items(10), Affine::identity(), red()),
            Command::PopBlend,
        ]
    );
}

fn masks() -> Vec<Mask> {
    vec![
        Mask {
            mode: clip(),
            geometry: Geometry::Ellipse(animated::Ellipse {
                is_ccw: false,
                position: Value::Fixed(PointF32::new(0, 0)),
                size: Value::Fixed(SizeF32::new(6 * U, 4 * U)),
            }),
            opacity: Value::Fixed(U / 2),
        },
        Mask {
            mode: multiply(),
            geometry: Geometry::Fixed(vec![PathEl32::ClosePath]),
            opacity: ramp(0, U),
        },
    ]
}

#[test]
fn masks_wrap_the_content_in_order() {
    let mut l = layer(Content::Shape(vec![line(10), fill(red())]));
    l.masks = masks();
    l.transform = model::Transform::Fixed(shift(1, 0));
    l.opacity = Value::Fixed(U / 2);
    let c = composition(vec![l]);
    assert_eq!(
        render(&c, 5 * F),
        vec![
            Command::PushMask {
                mode: clip(),
                alpha: F / 2,
                transform: shift(1, 0),
                path: vec![PathItem::Ellipse(Ellipse {
                    center: Point::new(0, 0),
                    radii: Vec2::new(3 * F, 2 * F)
                })],
            },
            Command::PushMask {
                mode: multiply(),
                alpha: F / 2,
                transform: shift(1, 0),
                path: vec![PathItem::Element(PathEl::ClosePath)],
            },
            plain_fill(line_items(10), shift(1, 0), Color::rgba(U, 0, 0, U / 2)),
            Command::PopMask,
            Command::PopMask,
        ]
    );
}

#[test]
fn matte_is_drawn_after_the_layer_that_names_it() {
    let mut target = layer(Content::Shape(vec![line(10), fill(red())]));
    target.mask_layer = Some((multiply(), 1));
    target.blend_mode = Some(clip());
    target.masks = vec![masks().remove(0)];
    target.transform = model::Transform::Fixed(shift(1, 0));
    let mut matte = layer(Content::Shape(vec![line(20), fill(blue())]));
    matte.is_mask = true;
    matte.transform = model::Transform::Fixed(shift(0, 2));
    let c = composition(vec![target, matte]);
    assert_eq!(
        Renderer::new().render(&c, 0, &shift(5, 5), F / 2),
        vec![
            Command::PushBlend { mode: clip() },
            Command::PushMask {
                mode: clip(),
                alpha: F / 2,
                transform: shift(5, 5).compose(&shift(1, 0)),
                path: vec![PathItem::Ellipse(Ellipse {
                    center: Point::new(0, 0),
                    radii: Vec2::new(3 * F, 2 * F)
                })],
            },
            plain_fill(
                line_items(10),
                shift(5, 5).compose(&shift(1, 0)),
                Color::rgba(U, 0, 0, U / 2)
            ),
            Command::PopMask,
            Command::PushBlend { mode: multiply() },
            plain_fill(
                line_items(20),
                shift(5, 5).compose(&shift(0, 2)),
                Color::rgba(0, 0, U, U / 2)
            ),
            Command::PopBlend,
            Command::PopBlend,
        ]
    );
}

#[test]
fn mask_layer_is_not_drawn_by_itself() {
    let mut matte = layer(Content::Shape(vec![line(20), fill(blue())]));
    matte.is_mask = true;
    let c = composition(vec![matte]);
    assert_eq!(render(&c, 0), vec![]);
}

#[test]
fn matte_outside_its_frames_draws_nothing() {
    let mut target = layer(Content::Shape(vec![line(10), fill(red())]));
    target.mask_layer = Some((multiply(), 1));
    let mut matte = layer(Content::Shape(vec![line(20), fill(blue())]));
    matte.is_mask = true;
    matte.frames = FrameRange { start: 0, end: 5 * F };
    let c = composition(vec![target, matte]);
    assert_eq!(
        render(&c, 5 * F),
        vec![
            plain_fill(line_items(10), Affine::identity(), red()),
            Command::PushBlend { mode: multiply() },
            Command::PopBlend,
        ]
    );
}

#[test]
fn matte_that_is_no_layer_is_ignored() {
    let mut target = layer(Content::Shape(vec![line(10), fill(red())]));
    target.mask_layer = Some((multiply(), 7));
    let c = composition(vec![target]);
    assert_eq!(render(&c, 0), vec![plain_fill(line_items(10), Affine::identity(), red())]);
}

#[test]
fn matte_cycle_ends() {
    let mut a = layer(Content::Shape(vec![line(10), fill(red())]));
    a.mask_layer = Some((multiply(), 0));
    let c = composition(vec![a]);
    assert_eq!(
        render(&c, 0),
        vec![
            plain_fill(line_items(10), Affine::identity(), red()),
            Command::PushBlend { mode: multiply() },
            plain_fill(line_items(10), Affine::identity(), red()),
            Command::PopBlend,
        ]
    );
}

fn instance(name: &str, time_remap: Option<Value<i32>>) -> Layer {
    let mut l = layer(Content::Instance { name: String::from(name), time_remap });
    l.transform = model::Transform::Fixed(shift(1, 0));
    l.opacity = Value::Fixed(U / 2);
    l
}

fn asset(name: &str) -> Asset {
    let mut inner = layer(Content::Shape(vec![line(10), fill(red())]));
    inner.frames = FrameRange { start: 0, end: 20 * F };
    inner.transform = model::Transform::Fixed(shift(0, 2));
    Asset { name: String::from(name), layers: vec![inner] }
}

#[test]
fn instance_draws_the_asset_under_its_transform_and_opacity() {
    let mut c = composition(vec![instance("a", None)]);
    c.assets = vec![asset("b"), asset("a")];
    assert_eq!(c.asset_index(&String::from("a")), Some(1));
    assert_eq!(c.asset_index(&String::from("b")), Some(0));
    assert_eq!(c.asset_index(&String::from("c")), None);
    assert_eq!(
        render(&c, 0),
        vec![plain_fill(
            line_items(10),
            shift(1, 0).compose(&shift(0, 2)),
            Color::rgba(U, 0, 0, U / 2)
        )]
    );
}

#[test]
fn instance_of_an_unknown_asset_draws_nothing() {
    let mut c = composition(vec![instance("missing", None)]);
    c.assets = vec![asset("a")];
    assert_eq!(render(&c, 0), vec![]);
}

#[test]
fn first_asset_of_a_name_is_the_asset() {
    let mut c = composition(vec![instance("a", None)]);
    let mut second = asset("a");
    second.layers.clear();
    c.assets = vec![asset("a"), second];
    assert_eq!(c.asset_index(&String::from("a")), Some(0));
    assert_eq!(render(&c, 0).len(), 1);
}

#[test]
fn instance_maps_the_frame_by_start_and_stretch() {
    let mut l = instance("a", None);
    l.start_frame = 10 * F;
    l.stretch = 2 * F;
    assert_eq!(local_frame_at(&l, &None, 30 * F), Some(10 * F));
    assert_eq!(local_frame_at(&l, &None, 10 * F), Some(0));
    assert_eq!(local_frame_at(&l, &None, 0), Some(-5 * F));
    assert_eq!(local_frame_at(&l, &None, 11 * F), Some(F / 2));
    assert_eq!(local_frame_at(&l, &None, i64::MAX), Some((i64::MAX - 10 * F) / 2));
    let mut c = composition(vec![l]);
    c.assets = vec![asset("a")];
    assert_eq!(render(&c, 30 * F).len(), 1);
    assert_eq!(render(&c, 49 * F).len(), 1);
    assert_eq!(render(&c, 50 * F), vec![]);
    assert_eq!(render(&c, 9 * F), vec![]);
    assert_eq!(render(&c, 10 * F).len(), 1);
}

#[test]
fn instance_with_zero_stretch_draws_nothing() {
    let mut l = instance("a", None);
    l.stretch = 0;
    assert_eq!(local_frame_at(&l, &None, 30 * F), None);
    assert_eq!(local_frame_at(&l, &Some(Value::Fixed(3 * U)), 30 * F), Some(3 * F));
    let mut c = composition(vec![l]);
    c.assets = vec![asset("a")];
    assert_eq!(render(&c, 0), vec![]);
}

#[test]
fn instance_with_time_remap_uses_the_remapped_frame() {
    let l = instance("a", Some(ramp(0, 40 * U)));
    assert_eq!(local_frame_at(&l, &Some(ramp(0, 40 * U)), 5 * F), Some(20 * F));
    let mut c = composition(vec![l]);
    c.assets = vec![asset("a")];
    assert_eq!(render(&c, 4 * F).len(), 1);
    assert_eq!(render(&c, 5 * F), vec![]);
    assert_eq!(render(&c, 50 * F), vec![]);
}

#[test]
fn instance_cycle_ends() {
    let mut c = composition(vec![instance("a", None)]);
    let mut own = asset("a");
    own.layers.push(instance("a", None));
    c.assets = vec![own];
    assert_eq!(c.depth_limit(), 3);
    let commands = render(&c, 0);
    assert_eq!(commands.len(), 3);
    assert_eq!(
        commands[2],
        plain_fill(
            line_items(10),
            shift(1, 0).compose(&shift(1, 0)).compose(&shift(1, 0)).compose(&shift(0, 2)),
            Color::rgba(U, 0, 0, U / 8)
        )
    );
}

#[test]
fn depth_limit_counts_every_layer() {
    let mut c = composition(vec![layer(Content::Empty), layer(Content::Empty)]);
    assert_eq!(c.depth_limit(), 2);
    c.assets = vec![asset("a"), asset("b")];
    assert_eq!(c.depth_limit(), 4);
    assert_eq!(Composition::default().depth_limit(), 0);
}

#[test]
fn render_layer_draws_a_layer_by_its_index() {
    let layers = vec![
        layer(Content::Shape(vec![line(10), fill(red())])),
        layer(Content::Shape(vec![line(20), fill(blue())])),
    ];
    let c = composition(vec![]);
    let mut out = vec![];
    render_layer(&c, &layers, 1, &shift(1, 1), F, 0, 0, &mut out);
    assert_eq!(out, vec![plain_fill(line_items(20), shift(1, 1), blue())]);
}

#[test]
fn static_composition_draws_the_same_at_every_frame() {
    let mut first = layer(Content::Shape(vec![
        line(10),
        Shape::Group(
            vec![line(30), fill(blue())],
            Some(GroupTransform {
                transform: model::Transform::Fixed(shift(0, 2)),
                opacity: Value::Fixed(U / 2),
            }),
        ),
        repeater(3),
        fill(red()),
    ]));
    first.masks = vec![masks().remove(0)];
    first.mask_layer = Some((multiply(), 1));
    first.parent = Some(2);
    let mut matte = layer(Content::Shape(vec![line(20), fill(blue())]));
    matte.is_mask = true;
    let mut third = instance("a", Some(Value::Fixed(3 * U)));
    third.blend_mode = Some(clip());
    let mut c = composition(vec![first, matte, third]);
    c.assets = vec![asset("a")];
    let at_zero = render(&c, 0);
    assert_eq!(at_zero.len(), 12);
    for frame in [1, F / 2, 17 * F, 99 * F, 100 * F - 1] {
        assert_eq!(render(&c, frame), at_zero);
    }
}

#[test]
fn append_adds_to_what_is_there() {
    let c = composition(vec![layer(Content::Shape(vec![line(10), fill(red())]))]);
    let mut out = vec![Command::PopMask];
    Renderer::new().append(&c, 0, &Affine::identity(), F, &mut out);
    Renderer::default().append(&c, 0, &Affine::identity(), F, &mut out);
    assert_eq!(
        out,
        vec![
            Command::PopMask,
            plain_fill(line_items(10), Affine::identity(), red()),
            plain_fill(line_items(10), Affine::identity(), red()),
        ]
    );
}

#[test]
fn clones_draw_the_same() {
    let mut first = layer(Content::Shape(vec![
        line(10),
        Shape::Group(vec![line(30), fill(blue())], None),
        repeater(2),
        fill(red()),
    ]));
    first.masks = masks();
    first.blend_mode = Some(multiply());
    let mut c = composition(vec![first, instance("a", None)]);
    c.assets = vec![asset("a")];
    let copy = c.clone();
    assert_eq!(render(&copy, 5 * F), render(&c, 5 * F));
    assert_eq!(render(&c, 5 * F).len(), 10);
}

fn rich_shapes() -> Vec<Shape> {
    let spline = Shape::Geometry(Geometry::Spline(animated::Spline {
        is_closed: true,
        times: vec![key(0), key(10)],
        values: vec![
            vec![
                PointF32::new(0, 0),
                PointF32::new(0, 0),
                PointF32::new(U, 0),
                PointF32::new(10 * U, 0),
                PointF32::new(0, U),
                PointF32::new(0, 0),
            ],
            vec![
                PointF32::new(4 * U, 0),
                PointF32::new(0, 0),
                PointF32::new(U, 0),
                PointF32::new(10 * U, 8 * U),
                PointF32::new(0, U),
                PointF32::new(0, 0),
            ],
        ],
    }));
    let gradient = model::Brush::Animated(animated::Brush::Gradient(animated::Gradient {
        is_radial: true,
        start_point: Value::Fixed(PointF32::new(0, 0)),
        end_point: Value::Animated(Animated {
            times: vec![key(0), key(10)],
            values: vec![PointF32::new(3 * U, 4 * U), PointF32::new(6 * U, 8 * U)],
        }),
        stops: model::ColorStops::Animated(animated::ColorStops {
            frames: vec![key(0), key(10)],
            values: vec![vec![0, U, 0, 0, U], vec![U, 0, U, 0, U]],
            count: 1,
        }),
    }));
    let stroked = Shape::Draw(Draw {
        stroke: Some(model::Stroke::Animated(animated::Stroke {
            width: ramp(0, 4 * U),
            join: kurbo::Join::Round,
            miter_limit: Some(3 * F),
            cap: kurbo::Cap::Square,
        })),
        brush: gradient,
        opacity: ramp(U, 0),
    });
    let fixed_gradient = Shape::Draw(Draw {
        stroke: Some(model::Stroke::Fixed(fixed::Stroke {
            width: F,
            join: kurbo::Join::Bevel,
            miter_limit: None,
            cap: kurbo::Cap::Butt,
        })),
        brush: model::Brush::Fixed(fixed::Brush::Gradient(fixed::Gradient {
            kind: fixed::GradientKind::Linear { start: Point::new(0, 0), end: Point::new(F, F) },
            stops: vec![ColorStop { offset: 0, color: red() }, ColorStop { offset: U, color: blue() }],
        })),
        opacity: Value::Fixed(U / 2),
    });
    let rect = Shape::Geometry(Geometry::Rect(animated::Rect {
        is_ccw: true,
        position: Value::Fixed(PointF32::new(U, U)),
        size: Value::Animated(Animated {
            times: vec![key(0), key(10)],
            values: vec![SizeF32::new(2 * U, 2 * U), SizeF32::new(4 * U, 6 * U)],
        }),
        corner_radius: ramp(0, U),
    }));
    let ellipse = Shape::Geometry(Geometry::Ellipse(animated::Ellipse {
        is_ccw: false,
        position: Value::Fixed(PointF32::new(U, U)),
        size: Value::Fixed(SizeF32::new(2 * U, 2 * U)),
    }));
    let moving = model::Transform::Animated(animated::Transform {
        anchor: Value::Fixed(PointF32::new(U, 2 * U)),
        position: animated::Position::SplitValues(ramp(0, 10 * U), Value::Fixed(3 * U)),
        rotation: ramp(0, 90 * U),
        scale: Value::Fixed(PointF32::new(50 * U, 50 * U)),
        skew: Value::Fixed(10 * U),
        skew_angle: ramp(0, 30 * U),
    });
    vec![
        spline,
        Shape::Group(
            vec![
                rect,
                Shape::Group(vec![ellipse, fill(red())], None),
                repeater(2),
                line(7),
                fixed_gradient,
            ],
            Some(GroupTransform { transform: moving, opacity: ramp(U, U / 2) }),
        ),
        Shape::Repeater(model::Repeater::Fixed(fixed::Repeater {
            copies: 2,
            offset: F / 2,
            anchor_point: Point::new(F, 0),
            position: Point::new(0, F),
            rotation: 10 * F,
            scale: Vec2::new(90 * F, 110 * F),
            start_opacity: F,
            end_opacity: F / 2,
        })),
        stroked,
    ]
}

#[test]
fn cloned_shapes_draw_the_same() {
    let shapes = rich_shapes();
    let copies: Vec<Shape> = shapes.iter().map(|shape| shape.clone()).collect();
    for frame in [0, 3 * F, 5 * F, 10 * F] {
        let mut expected = vec![];
        render_shapes(&shapes, 0, vec![], &shift(1, 2), F, frame, &mut expected);
        let mut drawn = vec![];
        render_shapes(&copies, 0, vec![], &shift(1, 2), F, frame, &mut drawn);
        assert_eq!(expected.len(), 5);
        assert_eq!(drawn, expected);
    }
}

#[test]
fn duplicates_draw_the_same() {
    let shapes = rich_shapes();
    let group = match &shapes[1] {
        Shape::Group(children, Some(group)) => {
            assert_eq!(children.len(), 5);
            group.duplicate()
        }
        _ => panic!("the second shape is a group"),
    };
    assert_eq!(group.opacity.evaluate(5 * F), 3 * U / 4);
    assert_eq!(group.transform.duplicate().evaluate(5 * F), group.transform.evaluate(5 * F));
    assert_eq!(group.transform.evaluate(5 * F).factors[0], Factor::Translate { x: 5 * F, y: 3 * F });
    let draw = match &shapes[3] {
        Shape::Draw(draw) => draw.duplicate(),
        _ => panic!("the fourth shape is a draw element"),
    };
    assert_eq!(draw.opacity.evaluate(5 * F), U / 2);
    assert_eq!(draw.stroke.as_ref().map(|s| s.evaluate(5 * F).width), Some(2 * F));
    assert_eq!(
        draw.brush.evaluate(F, 0),
        fixed::Brush::Gradient(fixed::Gradient {
            kind: fixed::GradientKind::Radial { center: Point::new(0, 0), radius: 5 * F },
            stops: vec![ColorStop { offset: 0, color: Color::rgba(U, 0, 0, U) }],
        })
    );
    let copy = draw.brush.duplicate();
    assert_eq!(copy.evaluate(F, 10 * F), draw.brush.evaluate(F, 10 * F));
    let mut path = vec![];
    match &shapes[0] {
        Shape::Geometry(geometry) => geometry.duplicate().evaluate(5 * F, &mut path),
        _ => panic!("the first shape is a geometry element"),
    }
    assert_eq!(
        path,
        vec![
            PathItem::Element(PathEl::MoveTo(Point::new(2 * F, 0))),
            PathItem::Element(PathEl::CurveTo(
                Point::new(3 * F, 0),
                Point::new(10 * F, 5 * F),
                Point::new(10 * F, 4 * F)
            )),
            PathItem::Element(PathEl::LineTo(Point::new(2 * F, 0))),
            PathItem::Element(PathEl::ClosePath),
        ]
    );
}
