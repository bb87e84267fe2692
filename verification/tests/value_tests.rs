use velato::model::Animated;
use velato::model::Easing;
use velato::model::EasingHandle;
use velato::model::Sample;
use velato::model::Time;
use velato::model::Tween;
use velato::model::Value;
use velato::model::value::tween_at;
use velato::paint::Color;
use velato::PointF32;
use velato::SizeF32;

const U: i32 = 65536;
const F: i64 = 65536;

fn key(frame: i64) -> Time {
    Time { frame: frame * F, in_tangent: None, out_tangent: None, hold: false }
}

fn hold(frame: i64) -> Time {
    Time { frame: frame * F, in_tangent: None, out_tangent: None, hold: true }
}

fn linear() -> Easing {
    Easing { o: EasingHandle { x: 0, y: 0 }, i: EasingHandle { x: U, y: U } }
}

fn in_out() -> Easing {
    Easing { o: EasingHandle { x: 27525, y: 0 }, i: EasingHandle { x: 38011, y: 65536 } }
}

#[test]
fn linear_easing_is_the_identity() {
    assert_eq!(Easing::linear(), linear());
    for t in [0, 1, 100, 16384, 32768, 65535, 65536] {
        assert_eq!(linear().apply(t), t);
    }
}

#[test]
fn easing_limits_the_weight() {
    assert_eq!(linear().apply(-5), 0);
    assert_eq!(linear().apply(F + 5), F);
    assert_eq!(in_out().apply(-5), 0);
    assert_eq!(in_out().apply(F + 5), F);
}

#[test]
fn every_easing_keeps_the_ends() {
    let curves = [
        in_out(),
        Easing { o: EasingHandle { x: 32768, y: 0 }, i: EasingHandle { x: 65536, y: 65536 } },
        Easing { o: EasingHandle { x: 21845, y: 0 }, i: EasingHandle { x: 43690, y: 98304 } },
        Easing { o: EasingHandle { x: -100, y: 7 }, i: EasingHandle { x: 900000, y: -3 } },
        Easing { o: EasingHandle { x: 0, y: i32::MAX }, i: EasingHandle { x: 0, y: i32::MIN } },
    ];
    for curve in curves {
        assert_eq!(curve.apply(0), 0);
        assert_eq!(curve.apply(F), F);
    }
}

#[test]
fn ease_in_out_values() {
    assert_eq!(in_out().apply(16384), 8463);
    assert_eq!(in_out().apply(32768), 32768);
    assert_eq!(in_out().apply(49152), 57071);
}

#[test]
fn ease_in_values() {
    let ease_in =
        Easing { o: EasingHandle { x: 32768, y: 0 }, i: EasingHandle { x: 65536, y: 65536 } };
    assert_eq!(ease_in.apply(16384), 4940);
    assert_eq!(ease_in.apply(32768), 18222);
    assert_eq!(ease_in.apply(49152), 38430);
}

#[test]
fn easing_may_overshoot() {
    let curve =
        Easing { o: EasingHandle { x: 21845, y: 0 }, i: EasingHandle { x: 43690, y: 98304 } };
    assert_eq!(curve.apply(32768), 45056);
}

#[test]
fn tween_at_interpolates() {
    assert_eq!(tween_at(0, 100 * U, 16384), 25 * U);
    assert_eq!(tween_at(-3 * U, 5 * U, 21845), -21848);
    assert_eq!(tween_at(5, 2, 32768), 3);
    assert_eq!(tween_at(2, 5, 32768), 3);
    assert_eq!(tween_at(7, 9, 0), 7);
    assert_eq!(tween_at(7, 9, F), 9);
}

#[test]
fn tween_at_saturates_beyond_the_ends() {
    assert_eq!(tween_at(0, i32::MAX, 2 * F), i32::MAX);
    assert_eq!(tween_at(0, i32::MAX, -2 * F), i32::MIN);
    assert_eq!(tween_at(i32::MIN, i32::MAX, i64::MAX), i32::MAX);
    assert_eq!(tween_at(i32::MAX, i32::MIN, i64::MAX), i32::MIN);
}

#[test]
fn scalar_tween_applies_the_easing() {
    assert_eq!(0.tween(&(10 * U), 16384, &linear()), 163840);
    assert_eq!(0.tween(&(10 * U), 16384, &in_out()), 84630);
    assert_eq!((10 * U).tween(&0, 16384, &in_out()), 570730);
}

#[test]
fn point_tween_is_per_coordinate() {
    let a = PointF32::new(0, 10 * U);
    let b = PointF32::new(10 * U, 0);
    assert_eq!(a.tween(&b, 16384, &in_out()), PointF32::new(84630, 570730));
    assert_eq!(a.tween(&b, 32768, &linear()), PointF32::new(5 * U, 5 * U));
}

#[test]
fn size_tween_is_per_extent() {
    let a = SizeF32::new(0, 10 * U);
    let b = SizeF32::new(10 * U, 0);
    assert_eq!(a.tween(&b, 16384, &in_out()), SizeF32::new(84630, 570730));
}

#[test]
fn color_tween_is_per_channel() {
    let a = Color::rgba(0, U, 0, U);
    let b = Color::rgba(U, 0, 0, 0);
    assert_eq!(a.tween(&b, 32768, &linear()), Color::rgba(U / 2, U / 2, 0, U / 2));
    assert_eq!(a.tween(&b, 16384, &in_out()), Color::rgba(8463, 57073, 0, 57073));
}

#[test]
fn zero_values() {
    assert_eq!(<i32 as Tween>::zero(), 0);
    assert_eq!(<PointF32 as Tween>::zero(), PointF32::new(0, 0));
    assert_eq!(<SizeF32 as Tween>::zero(), SizeF32::new(0, 0));
    assert_eq!(<Color as Tween>::zero(), Color::rgba(0, 0, 0, 0));
}

#[test]
fn no_keyframe_gives_no_sample() {
    assert_eq!(Time::frames_and_weight(&[], 0), None);
}

#[test]
fn sample_before_the_first_keyframe() {
    let times = [key(10), key(20), key(40)];
    assert_eq!(
        Time::frames_and_weight(&times, 5 * F),
        Some(Sample { ix0: 0, ix1: 0, weight: 0, easing: linear(), hold: false })
    );
}

#[test]
fn sample_from_the_last_keyframe_on() {
    let times = [key(10), key(20), key(40)];
    let last = Sample { ix0: 2, ix1: 2, weight: 0, easing: linear(), hold: false };
    assert_eq!(Time::frames_and_weight(&times, 40 * F), Some(last));
    assert_eq!(Time::frames_and_weight(&times, 1000 * F), Some(last));
    assert_eq!(Time::frames_and_weight(&times, i64::MAX), Some(last));
}

#[test]
fn sample_between_keyframes() {
    let times = [key(10), key(20), key(40)];
    assert_eq!(
        Time::frames_and_weight(&times, 10 * F),
        Some(Sample { ix0: 0, ix1: 1, weight: 0, easing: linear(), hold: false })
    );
    assert_eq!(
        Time::frames_and_weight(&times, 15 * F),
        Some(Sample { ix0: 0, ix1: 1, weight: F / 2, easing: linear(), hold: false })
    );
    assert_eq!(
        Time::frames_and_weight(&times, 25 * F),
        Some(Sample { ix0: 1, ix1: 2, weight: F / 4, easing: linear(), hold: false })
    );
    assert_eq!(
        Time::frames_and_weight(&times, 40 * F - 1),
        Some(Sample { ix0: 1, ix1: 2, weight: 65535, easing: linear(), hold: false })
    );
}

#[test]
fn sample_weight_rounds_down() {
    let times = [key(0), key(3)];
    assert_eq!(Time::frames_and_weight(&times, F).map(|s| s.weight), Some(21845));
    assert_eq!(Time::frames_and_weight(&times, 2 * F).map(|s| s.weight), Some(43690));
}

#[test]
fn sample_of_far_apart_keyframes() {
    let times = [
        Time { frame: i64::MIN, in_tangent: None, out_tangent: None, hold: false },
        Time { frame: i64::MAX, in_tangent: None, out_tangent: None, hold: false },
    ];
    assert_eq!(Time::frames_and_weight(&times, -1).map(|s| s.weight), Some(32767));
    assert_eq!(Time::frames_and_weight(&times, i64::MIN).map(|s| s.weight), Some(0));
}

#[test]
fn sample_takes_the_last_of_equal_times() {
    let times = [key(10), key(10), key(20)];
    assert_eq!(
        Time::frames_and_weight(&times, 10 * F),
        Some(Sample { ix0: 1, ix1: 2, weight: 0, easing: linear(), hold: false })
    );
}

#[test]
fn sample_carries_handles_and_hold() {
    let out = EasingHandle { x: 1, y: 2 };
    let inn = EasingHandle { x: 3, y: 4 };
    let other = EasingHandle { x: 5, y: 6 };
    let times = [
        Time { frame: 0, in_tangent: Some(other), out_tangent: Some(out), hold: true },
        Time { frame: 10 * F, in_tangent: Some(inn), out_tangent: Some(other), hold: false },
    ];
    assert_eq!(
        Time::frames_and_weight(&times, 5 * F),
        Some(Sample { ix0: 0, ix1: 1, weight: F / 2, easing: Easing { o: out, i: inn }, hold: true })
    );
    assert_eq!(
        Time::frames_and_weight(&times, 10 * F),
        Some(Sample {
            ix0: 1,
            ix1: 1,
            weight: 0,
            easing: Easing { o: other, i: inn },
            hold: false
        })
    );
    assert_eq!(Time::easing(&times[0], &times[1]), Easing { o: out, i: inn });
    assert_eq!(Time::easing(&key(0), &key(1)), linear());
}

#[test]
fn fixed_value_is_the_same_at_every_frame() {
    let value = Value::Fixed(7 * U);
    assert!(value.is_fixed());
    for frame in [i64::MIN, -F, 0, 1, 10 * F, i64::MAX] {
        assert_eq!(value.evaluate(frame), 7 * U);
    }
}

#[test]
fn animated_value_is_not_fixed() {
    let value = Value::Animated(Animated { times: vec![key(0)], values: vec![U] });
    assert!(!value.is_fixed());
    assert_eq!(value.evaluate(5 * F), U);
}

#[test]
fn animated_value_at_its_keyframes() {
    let animated = Animated {
        times: vec![key(0), key(10), key(30)],
        values: vec![3 * U, -8 * U, 12345],
    };
    assert_eq!(animated.evaluate(0), 3 * U);
    assert_eq!(animated.evaluate(10 * F), -8 * U);
    assert_eq!(animated.evaluate(30 * F), 12345);
}

#[test]
fn animated_value_at_eased_keyframes() {
    let handle = EasingHandle { x: 27525, y: 0 };
    let other = EasingHandle { x: 38011, y: 65536 };
    let times = vec![
        Time { frame: 0, in_tangent: Some(other), out_tangent: Some(handle), hold: false },
        Time { frame: 10 * F, in_tangent: Some(other), out_tangent: Some(handle), hold: false },
        Time { frame: 30 * F, in_tangent: Some(other), out_tangent: Some(handle), hold: false },
    ];
    let animated = Animated { times, values: vec![3 * U, -8 * U, 12345] };
    assert_eq!(animated.evaluate(0), 3 * U);
    assert_eq!(animated.evaluate(10 * F), -8 * U);
    assert_eq!(animated.evaluate(30 * F), 12345);
}

#[test]
fn animated_value_clamps_outside_its_keyframes() {
    let animated = Animated { times: vec![key(10), key(20)], values: vec![3 * U, 9 * U] };
    assert_eq!(animated.evaluate(0), 3 * U);
    assert_eq!(animated.evaluate(i64::MIN), 3 * U);
    assert_eq!(animated.evaluate(10 * F - 1), 3 * U);
    assert_eq!(animated.evaluate(20 * F), 9 * U);
    assert_eq!(animated.evaluate(21 * F), 9 * U);
    assert_eq!(animated.evaluate(i64::MAX), 9 * U);
}

#[test]
fn animated_value_with_one_keyframe() {
    let animated = Animated { times: vec![key(10)], values: vec![3 * U] };
    assert_eq!(animated.evaluate(0), 3 * U);
    assert_eq!(animated.evaluate(10 * F), 3 * U);
    assert_eq!(animated.evaluate(20 * F), 3 * U);
}

#[test]
fn animated_value_between_keyframes() {
    let animated = Animated { times: vec![key(10), key(20)], values: vec![0, 10 * U] };
    assert_eq!(animated.evaluate(15 * F), 5 * U);
    assert_eq!(animated.evaluate(12 * F + F / 2), 163840);
}

#[test]
fn animated_value_between_eased_keyframes() {
    let times = vec![
        Time {
            frame: 10 * F,
            in_tangent: None,
            out_tangent: Some(EasingHandle { x: 27525, y: 0 }),
            hold: false,
        },
        Time {
            frame: 20 * F,
            in_tangent: Some(EasingHandle { x: 38011, y: 65536 }),
            out_tangent: None,
            hold: false,
        },
    ];
    let animated = Animated { times, values: vec![0, 10 * U] };
    assert_eq!(animated.evaluate(12 * F + F / 2), 84630);
    assert_eq!(animated.evaluate(15 * F), 5 * U);
}

#[test]
fn hold_keeps_the_value_until_the_next_keyframe() {
    let animated =
        Animated { times: vec![hold(10), key(20), key(30)], values: vec![3 * U, 9 * U, 0] };
    assert_eq!(animated.evaluate(10 * F), 3 * U);
    assert_eq!(animated.evaluate(10 * F + 1), 3 * U);
    assert_eq!(animated.evaluate(15 * F), 3 * U);
    assert_eq!(animated.evaluate(20 * F - 1), 3 * U);
    assert_eq!(animated.evaluate(20 * F), 9 * U);
    assert_eq!(animated.evaluate(25 * F), 9 * U / 2);
}

#[test]
fn animated_value_without_keyframes_is_zero() {
    let animated: Animated<i32> = Animated { times: vec![], values: vec![] };
    assert_eq!(animated.evaluate(0), 0);
    let points: Animated<PointF32> = Animated { times: vec![], values: vec![PointF32::new(1, 2)] };
    assert_eq!(points.evaluate(0), PointF32::new(0, 0));
}

#[test]
fn animated_value_with_a_missing_value_is_zero() {
    let animated = Animated { times: vec![key(0), key(10)], values: vec![7 * U] };
    assert_eq!(animated.evaluate(5 * F), 0);
    assert_eq!(animated.evaluate(-F), 7 * U);
    assert_eq!(animated.evaluate(10 * F), 0);
}
