use velato::geometry::Affine;
use velato::geometry::Factor;
use velato::model::animated::Position;
use velato::model::animated::Transform;
use velato::model::fixed::Repeater;
use velato::model::Value;
use velato::PointF32;

const U: i32 = 65536;

fn number(raw: i64) -> f64 {
    raw as f64 / 65536.0
}

fn matrix_of(factor: &Factor) -> kurbo::Affine {
    match *factor {
        Factor::Translate { x, y } => kurbo::Affine::translate((number(x), number(y))),
        Factor::Rotate { degrees } => kurbo::Affine::rotate(number(degrees).to_radians()),
        Factor::Skew { degrees } => kurbo::Affine::skew(number(degrees).to_radians().tan(), 0.0),
        Factor::Scale { x, y } => kurbo::Affine::scale_non_uniform(number(x), number(y)),
        Factor::ScalePow { x, y, exponent } => kurbo::Affine::scale_non_uniform(
            number(x).powf(number(exponent)),
            number(y).powf(number(exponent)),
        ),
    }
}

fn matrix(affine: &Affine) -> kurbo::Affine {
    affine.factors.iter().fold(kurbo::Affine::IDENTITY, |m, f| m * matrix_of(f))
}

fn close(a: kurbo::Point, b: kurbo::Point) -> bool {
    (a.x - b.x).abs() < 1e-9 && (a.y - b.y).abs() < 1e-9
}

fn transform(rotation: i32, scale: i32, skew: i32) -> Transform {
    Transform {
        anchor: Value::Fixed(PointF32::new(3 * U, 4 * U)),
        position: Position::Value(Value::Fixed(PointF32::new(10 * U, 20 * U))),
        rotation: Value::Fixed(rotation * U),
        scale: Value::Fixed(PointF32::new(scale * U, scale * U)),
        skew: Value::Fixed(skew * U),
        skew_angle: Value::Fixed(30 * U),
    }
}

#[test]
fn plain_transform_is_two_translations() {
    let m = matrix(&transform(0, 100, 0).evaluate(0));
    let expected = kurbo::Affine::translate((10.0, 20.0)) * kurbo::Affine::translate((-3.0, -4.0));
    assert_eq!(m.as_coeffs(), expected.as_coeffs());
    assert_eq!(m * kurbo::Point::new(1.0, 1.0), kurbo::Point::new(8.0, 17.0));
}

#[test]
fn rotation_by_a_quarter_turn_pivots_about_the_anchor() {
    let m = matrix(&transform(90, 100, 0).evaluate(0));
    assert!(close(m * kurbo::Point::new(3.0, 4.0), kurbo::Point::new(10.0, 20.0)));
    assert!(close(m * kurbo::Point::new(4.0, 4.0), kurbo::Point::new(10.0, 21.0)));
    assert!(close(m * kurbo::Point::new(0.0, 0.0), kurbo::Point::new(14.0, 17.0)));
}

#[test]
fn every_transform_takes_its_anchor_to_its_position() {
    for (rotation, scale, skew) in [(0, 100, 0), (45, 50, 10), (-120, 250, -60), (720, -100, 89)] {
        let m = matrix(&transform(rotation, scale, skew).evaluate(0));
        assert!(close(m * kurbo::Point::new(3.0, 4.0), kurbo::Point::new(10.0, 20.0)));
    }
}

#[test]
fn transform_scales_about_the_anchor() {
    let m = matrix(&transform(0, 200, 0).evaluate(0));
    assert!(close(m * kurbo::Point::new(4.0, 6.0), kurbo::Point::new(12.0, 24.0)));
}

#[test]
fn skew_leans_along_its_axis() {
    let mut t = transform(0, 100, 45);
    t.skew_angle = Value::Fixed(0);
    t.anchor = Value::Fixed(PointF32::new(0, 0));
    t.position = Position::Value(Value::Fixed(PointF32::new(0, 0)));
    let m = matrix(&t.evaluate(0));
    assert!(close(m * kurbo::Point::new(0.0, 1.0), kurbo::Point::new(1.0, 1.0)));
    assert!(close(m * kurbo::Point::new(1.0, 0.0), kurbo::Point::new(1.0, 0.0)));
}

#[test]
fn repeater_copies_step_by_the_position() {
    let repeater = Repeater {
        copies: 3,
        offset: 0,
        anchor_point: velato::geometry::Point::new(0, 0),
        position: velato::geometry::Point::new(10 * 65536, 0),
        rotation: 90 * 65536,
        scale: velato::geometry::Vec2::new(50 * 65536, 50 * 65536),
        start_opacity: 65536,
        end_opacity: 0,
    };
    let first = matrix(&repeater.transform(0));
    assert!(close(first * kurbo::Point::new(1.0, 0.0), kurbo::Point::new(1.0, 0.0)));
    let second = matrix(&repeater.transform(1));
    assert!(close(second * kurbo::Point::new(1.0, 0.0), kurbo::Point::new(10.0, 0.5)));
    let third = matrix(&repeater.transform(2));
    assert!(close(third * kurbo::Point::new(1.0, 0.0), kurbo::Point::new(19.75, 0.0)));
}
