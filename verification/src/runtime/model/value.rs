//! Keyframed values: the search for the keyframes around a frame, the weight
//! between them, and the interpolation of the values they hold.

use vstd::prelude::*;
use crate::paint::Color;
use crate::runtime::model::easing::Easing;
use crate::runtime::model::easing::EasingHandle;
use crate::runtime::model::easing::lemma_apply_ends;
use crate::scalar::ONE;
use crate::scalar::floor_div;
use crate::scalar::lemma_lerp_between;
use crate::scalar::lerp_spec;
use crate::scalar::narrow;
use crate::scalar::narrow_spec;
use crate::scalar::saturate;
use crate::PointF32;
use crate::SizeF32;

verus! {

/// The time of a keyframe, with the easing handles on either side of it.
#[derive(Clone, Copy, Debug, PartialEq, Eq, Structural)]
pub struct Time {
    /// Frame at which the keyframe stands.
    pub frame: i64,
    /// Handle of the curve that arrives at the keyframe.
    pub in_tangent: Option<EasingHandle>,
    /// Handle of the curve that leaves the keyframe.
    pub out_tangent: Option<EasingHandle>,
    /// Whether the value of the keyframe is held until the next keyframe.
    pub hold: bool,
}

/// What a frame is sampled from: the indices of the keyframes around it, the
/// linear weight between them, the easing of that interval, and whether the
/// first keyframe holds its value.
#[derive(Clone, Copy, Debug, PartialEq, Eq, Structural)]
pub struct Sample {
    pub ix0: usize,
    pub ix1: usize,
    pub weight: i64,
    pub easing: Easing,
    pub hold: bool,
}

/// The index of the last of the first `n` keyframes that stands at or before
/// `frame`, or `-1` when there is none.
pub open spec fn last_at_or_before(times: Seq<Time>, frame: int, n: nat) -> int
    decreases n,
{
    if n == 0 {
        -1
    } else if times[n - 1].frame <= frame {
        n - 1
    } else {
        last_at_or_before(times, frame, (n - 1) as nat)
    }
}

/// The easing of the interval from keyframe `t0` to keyframe `t1`: the handle
/// that leaves `t0`, or (0, 0) in its absence, and the handle that arrives at
/// `t1`, or (1, 1) in its absence.
pub open spec fn easing_between(t0: Time, t1: Time) -> Easing {
    Easing {
        o: match t0.out_tangent {
            Some(h) => h,
            None => EasingHandle { x: 0, y: 0 },
        },
        i: match t1.in_tangent {
            Some(h) => h,
            None => EasingHandle { x: ONE as i32, y: ONE as i32 },
        },
    }
}

/// A non-empty sequence of keyframe times sampled at `frame`.
///
/// Before the first keyframe both indices name the first keyframe, and from
/// the last keyframe on both name the last; the weight is then zero. In
/// between, the first index names the last keyframe at or before `frame`, the
/// second index the keyframe after it, and the weight is the part of the
/// interval that lies before `frame`, rounded down.
pub open spec fn sample_spec(times: Seq<Time>, frame: int) -> Sample {
    let i = last_at_or_before(times, frame, times.len());
    if i < 0 {
        Sample {
            ix0: 0,
            ix1: 0,
            weight: 0,
            easing: easing_between(times[0], times[0]),
            hold: times[0].hold,
        }
    } else if i + 1 >= times.len() {
        Sample {
            ix0: i as usize,
            ix1: i as usize,
            weight: 0,
            easing: easing_between(times[i], times[i]),
            hold: times[i].hold,
        }
    } else {
        Sample {
            ix0: i as usize,
            ix1: (i + 1) as usize,
            weight: ((frame - times[i].frame) * ONE / (times[i + 1].frame - times[i].frame)) as i64,
            easing: easing_between(times[i], times[i + 1]),
            hold: times[i].hold,
        }
    }
}

/// The weight at which the two values of a sample are interpolated: zero
/// under a hold, the eased weight otherwise.
pub open spec fn eased_weight(sample: Sample) -> int {
    if sample.hold {
        0
    } else {
        sample.easing.apply_spec(sample.weight as int)
    }
}

/// What `last_at_or_before` finds: a keyframe at or before `frame` such that
/// every later keyframe stands after `frame`.
pub proof fn lemma_last_at_or_before(times: Seq<Time>, frame: int, n: nat)
    requires
        n <= times.len(),
    ensures
        -1 <= last_at_or_before(times, frame, n) < n,
        last_at_or_before(times, frame, n) >= 0 ==> times[last_at_or_before(times, frame, n)].frame
            <= frame,
        forall|j: int|
            last_at_or_before(times, frame, n) < j < n ==> (#[trigger] times[j]).frame > frame,
    decreases n,
{
    if n > 0 && times[n - 1].frame > frame {
        lemma_last_at_or_before(times, frame, (n - 1) as nat);
    }
}

/// A keyframe at or before `frame`, after which every keyframe stands after
/// `frame`, is the one that `last_at_or_before` finds.
pub proof fn lemma_last_at_or_before_is(times: Seq<Time>, frame: int, n: nat, i: int)
    requires
        n <= times.len(),
        -1 <= i < n,
        i >= 0 ==> times[i].frame <= frame,
        forall|j: int| i < j < n ==> (#[trigger] times[j]).frame > frame,
    ensures
        last_at_or_before(times, frame, n) == i,
    decreases n,
{
    if n > 0 && i < n - 1 {
        lemma_last_at_or_before_is(times, frame, (n - 1) as nat, i);
    }
}

/// The weight of a sample lies between zero and one, and its indices name
/// keyframes.
pub proof fn lemma_sample_bounds(times: Seq<Time>, frame: int)
    requires
        0 < times.len() <= usize::MAX,
    ensures
        sample_spec(times, frame).ix0 < times.len(),
        sample_spec(times, frame).ix1 < times.len(),
        sample_spec(times, frame).ix0 <= sample_spec(times, frame).ix1 <= sample_spec(
            times,
            frame,
        ).ix0 + 1,
        0 <= sample_spec(times, frame).weight < ONE,
{
    let n = times.len();
    lemma_last_at_or_before(times, frame, n);
    let i = last_at_or_before(times, frame, n);
    if i >= 0 && i + 1 < n {
        let num = frame - times[i].frame;
        let den = times[i + 1].frame - times[i].frame;
        lemma_weight_bounds(num, den);
    }
}

/// The quotient that gives a weight lies between zero and one.
pub proof fn lemma_weight_bounds(num: int, den: int)
    requires
        0 <= num < den,
    ensures
        0 <= num * ONE / den < ONE,
{
    let one = ONE as int;
    vstd::arithmetic::div_mod::lemma_fundamental_div_mod(num * one, den);
    let q = num * one / den;
    let r = (num * one) % den;
    assert(0 <= num * one < den * one) by (nonlinear_arith)
        requires
            0 <= num < den,
            one > 0,
    ;
    assert(0 <= q < one) by (nonlinear_arith)
        requires
            0 <= num * one < den * one,
            num * one == den * q + r,
            0 <= r < den,
    ;
}

impl Time {
    /// Finds the keyframes around `frame` and the weight between them;
    /// `None` when there is no keyframe.
    pub fn frames_and_weight(times: &[Time], frame: i64) -> (r: Option<Sample>)
        ensures
            r is None <==> times@.len() == 0,
            r matches Some(s) ==> s == sample_spec(times@, frame as int),
            r matches Some(s) ==> s.ix0 < times@.len() && s.ix1 < times@.len() && 0 <= s.weight < ONE,
    {
        let n = times.len();
        if n == 0 {
            return None;
        }
        let mut k: usize = n;
        while k > 0 && times[k - 1].frame > frame
            invariant
                k <= n,
                n == times@.len(),
                forall|j: int| k <= j < n ==> (#[trigger] times@[j]).frame > frame,
            decreases k,
        {
            k -= 1;
        }
        proof {
            lemma_last_at_or_before_is(times@, frame as int, n as nat, k - 1);
            lemma_sample_bounds(times@, frame as int);
        }
        if k == 0 {
            let t0 = &times[0];
            Some(
                Sample {
                    ix0: 0,
                    ix1: 0,
                    weight: 0,
                    easing: Time::easing(t0, t0),
                    hold: t0.hold,
                },
            )
        } else if k == n {
            let t0 = &times[k - 1];
            Some(
                Sample {
                    ix0: k - 1,
                    ix1: k - 1,
                    weight: 0,
                    easing: Time::easing(t0, t0),
                    hold: t0.hold,
                },
            )
        } else {
            let t0 = &times[k - 1];
            let t1 = &times[k];
            let num: i128 = (frame as i128) - (t0.frame as i128);
            let den: i128 = (t1.frame as i128) - (t0.frame as i128);
            let weight: i128 = floor_div(num * 65536, den);
            Some(
                Sample {
                    ix0: k - 1,
                    ix1: k,
                    weight: weight as i64,
                    easing: Time::easing(t0, t1),
                    hold: t0.hold,
                },
            )
        }
    }

    /// The easing of the interval from keyframe `t0` to keyframe `t1`.
    pub fn easing(t0: &Time, t1: &Time) -> (r: Easing)
        ensures
            r == easing_between(*t0, *t1),
    {
        let o = match t0.out_tangent {
            Some(h) => h,
            None => EasingHandle { x: 0, y: 0 },
        };
        let i = match t1.in_tangent {
            Some(h) => h,
            None => EasingHandle { x: 65536, y: 65536 },
        };
        Easing { o, i }
    }
}

/// A value that can be interpolated.
pub trait Tween: Sized + Copy {
    /// The value at `weight` between `self` (weight zero) and `other`
    /// (weight one).
    spec fn tween_spec(self, other: Self, weight: int) -> Self;

    /// The value that stands for a keyframed value without keyframes.
    spec fn zero_spec() -> Self;

    /// Interpolates between `self` and `other` at the linear weight `t`,
    /// eased by `easing`.
    fn tween(&self, other: &Self, t: i64, easing: &Easing) -> (r: Self)
        ensures
            r == self.tween_spec(*other, easing.apply_spec(t as int)),
    ;

    /// The value that stands for a keyframed value without keyframes.
    fn zero() -> (r: Self)
        ensures
            r == Self::zero_spec(),
    ;

    /// At weight zero the interpolated value is the first value.
    proof fn lemma_tween_start(self, other: Self)
        ensures
            self.tween_spec(other, 0) == self,
    ;
}

/// The 16.16 value at `weight` between `a` and `b`, saturated.
pub open spec fn tween_i32(a: i32, b: i32, weight: int) -> i32 {
    narrow_spec(lerp_spec(a as int, b as int, weight)) as i32
}

/// Interpolates between two 16.16 values at an eased weight.
pub fn tween_at(a: i32, b: i32, w: i64) -> (r: i32)
    ensures
        r == tween_i32(a, b, w as int),
{
    let d: i128 = (b as i128) - (a as i128);
    assert(-0x1_0000_0000_0000_0000_0000_0000 <= d * w <= 0x1_0000_0000_0000_0000_0000_0000)
        by (nonlinear_arith)
        requires
            -0x1_0000_0000 <= d <= 0x1_0000_0000,
            -0x8000_0000_0000_0000 <= w <= 0x8000_0000_0000_0000,
    ;
    let q: i128 = floor_div(d * (w as i128), 65536);
    narrow(saturate((a as i128) + q))
}

impl Tween for i32 {
    open spec fn tween_spec(self, other: Self, weight: int) -> Self {
        tween_i32(self, other, weight)
    }

    open spec fn zero_spec() -> Self {
        0
    }

    fn tween(&self, other: &Self, t: i64, easing: &Easing) -> (r: Self) {
        tween_at(*self, *other, easing.apply(t))
    }

    fn zero() -> (r: Self) {
        0
    }

    proof fn lemma_tween_start(self, other: Self) {
        lemma_lerp_between(self as int, other as int, 0);
        assert(tween_i32(self, other, 0) == self);
        assert(self.tween_spec(other, 0) == tween_i32(self, other, 0));
    }
}

impl Tween for PointF32 {
    open spec fn tween_spec(self, other: Self, weight: int) -> Self {
        PointF32 {
            x: tween_i32(self.x, other.x, weight),
            y: tween_i32(self.y, other.y, weight),
        }
    }

    open spec fn zero_spec() -> Self {
        PointF32 { x: 0, y: 0 }
    }

    fn tween(&self, other: &Self, t: i64, easing: &Easing) -> (r: Self) {
        let w = easing.apply(t);
        PointF32 { x: tween_at(self.x, other.x, w), y: tween_at(self.y, other.y, w) }
    }

    fn zero() -> (r: Self) {
        PointF32 { x: 0, y: 0 }
    }

    proof fn lemma_tween_start(self, other: Self) {
        self.x.lemma_tween_start(other.x);
        self.y.lemma_tween_start(other.y);
    }
}

impl Tween for SizeF32 {
    open spec fn tween_spec(self, other: Self, weight: int) -> Self {
        SizeF32 {
            width: tween_i32(self.width, other.width, weight),
            height: tween_i32(self.height, other.height, weight),
        }
    }

    open spec fn zero_spec() -> Self {
        SizeF32 { width: 0, height: 0 }
    }

    fn tween(&self, other: &Self, t: i64, easing: &Easing) -> (r: Self) {
        let w = easing.apply(t);
        SizeF32 {
            width: tween_at(self.width, other.width, w),
            height: tween_at(self.height, other.height, w),
        }
    }

    fn zero() -> (r: Self) {
        SizeF32 { width: 0, height: 0 }
    }

    proof fn lemma_tween_start(self, other: Self) {
        self.width.lemma_tween_start(other.width);
        self.height.lemma_tween_start(other.height);
    }
}

impl Tween for Color {
    open spec fn tween_spec(self, other: Self, weight: int) -> Self {
        Color {
            r: tween_i32(self.r, other.r, weight),
            g: tween_i32(self.g, other.g, weight),
            b: tween_i32(self.b, other.b, weight),
            a: tween_i32(self.a, other.a, weight),
        }
    }

    open spec fn zero_spec() -> Self {
        Color { r: 0, g: 0, b: 0, a: 0 }
    }

    fn tween(&self, other: &Self, t: i64, easing: &Easing) -> (r: Self) {
        let w = easing.apply(t);
        Color {
            r: tween_at(self.r, other.r, w),
            g: tween_at(self.g, other.g, w),
            b: tween_at(self.b, other.b, w),
            a: tween_at(self.a, other.a, w),
        }
    }

    fn zero() -> (r: Self) {
        Color { r: 0, g: 0, b: 0, a: 0 }
    }

    proof fn lemma_tween_start(self, other: Self) {
        self.r.lemma_tween_start(other.r);
        self.g.lemma_tween_start(other.g);
        self.b.lemma_tween_start(other.b);
        self.a.lemma_tween_start(other.a);
    }
}

/// A value driven by keyframes: the times of the keyframes and, at the same
/// indices, the values they hold.
#[derive(Clone, Debug)]
pub struct Animated<T: Tween> {
    pub times: Vec<Time>,
    pub values: Vec<T>,
}

/// A value that is either fixed or driven by keyframes.
#[derive(Clone, Debug)]
pub enum Value<T: Tween> {
    /// Fixed value.
    Fixed(T),
    /// Animated value.
    Animated(Animated<T>),
}

impl<T: Tween> Animated<T> {
    /// The value at `frame`: the two values of the sample interpolated at its
    /// eased weight, or the zero value when there is no keyframe or a sampled
    /// keyframe holds no value.
    pub open spec fn at(self, frame: int) -> T {
        if self.times@.len() == 0 {
            T::zero_spec()
        } else {
            let s = sample_spec(self.times@, frame);
            if s.ix0 < self.values@.len() && s.ix1 < self.values@.len() {
                self.values@[s.ix0 as int].tween_spec(self.values@[s.ix1 as int], eased_weight(s))
            } else {
                T::zero_spec()
            }
        }
    }

    /// Evaluates the value at the specified frame.
    pub fn evaluate(&self, frame: i64) -> (r: T)
        ensures
            r == self.at(frame as int),
    {
        match Time::frames_and_weight(self.times.as_slice(), frame) {
            None => T::zero(),
            Some(s) => {
                if s.ix0 < self.values.len() && s.ix1 < self.values.len() {
                    let t: i64 = if s.hold {
                        0
                    } else {
                        s.weight
                    };
                    proof {
                        // Under a hold the weight is zero, which every easing keeps.
                        lemma_apply_ends(s.easing);
                    }
                    self.values[s.ix0].tween(&self.values[s.ix1], t, &s.easing)
                } else {
                    T::zero()
                }
            },
        }
    }
}

impl<T: Tween> Value<T> {
    /// Whether the value is fixed.
    pub open spec fn is_fixed_spec(self) -> bool {
        self is Fixed
    }

    /// The value at `frame`.
    pub open spec fn at(self, frame: int) -> T {
        match self {
            Value::Fixed(v) => v,
            Value::Animated(a) => a.at(frame),
        }
    }

    /// Returns true if the value is fixed.
    pub fn is_fixed(&self) -> (r: bool)
        ensures
            r == self.is_fixed_spec(),
    {
        match self {
            Value::Fixed(_) => true,
            Value::Animated(_) => false,
        }
    }

    /// Returns the value at a specified frame.
    pub fn evaluate(&self, frame: i64) -> (r: T)
        ensures
            r == self.at(frame as int),
            self.is_fixed_spec() ==> r == self->Fixed_0,
    {
        match self {
            Value::Fixed(v) => *v,
            Value::Animated(a) => a.evaluate(frame),
        }
    }
}

/// Whether no keyframe stands before an earlier one.
pub open spec fn times_sorted(times: Seq<Time>) -> bool {
    forall|i: int, j: int| 0 <= i <= j < times.len() ==> times[i].frame <= times[j].frame
}

impl<T: Tween> Animated<T> {
    /// Whether every keyframe holds a value and no keyframe stands before an
    /// earlier one.
    pub open spec fn is_well_formed(self) -> bool {
        &&& self.times@.len() == self.values@.len()
        &&& self.times@.len() <= usize::MAX
        &&& times_sorted(self.times@)
    }
}

/// A fixed value is the same at every frame.
pub proof fn lemma_fixed_value_is_constant<T: Tween>(value: Value<T>, frame0: int, frame1: int)
    requires
        value.is_fixed_spec(),
    ensures
        value.at(frame0) == value.at(frame1),
        value.at(frame0) == value->Fixed_0,
{
}

/// At the time of a keyframe an animated value is the value of that
/// keyframe, stated of the last of the keyframes that share one time.
pub proof fn lemma_value_at_keyframe<T: Tween>(animated: Animated<T>, i: int)
    requires
        animated.is_well_formed(),
        0 <= i < animated.times@.len(),
        i + 1 < animated.times@.len() ==> animated.times@[i].frame < animated.times@[i + 1].frame,
    ensures
        animated.at(animated.times@[i].frame as int) == animated.values@[i],
{
    let times = animated.times@;
    let frame = times[i].frame as int;
    lemma_last_at_or_before_is(times, frame, times.len(), i);
    let s = sample_spec(times, frame);
    lemma_apply_ends(s.easing);
    assert(s.weight == 0) by {
        if i + 1 < times.len() {
            assert(0 * ONE / (times[i + 1].frame - times[i].frame) == 0) by (nonlinear_arith)
                requires
                    times[i + 1].frame - times[i].frame > 0,
            ;
        }
    }
    animated.values@[i].lemma_tween_start(animated.values@[s.ix1 as int]);
}

/// Before the first keyframe an animated value is the value of the first
/// keyframe.
pub proof fn lemma_value_before_first<T: Tween>(animated: Animated<T>, frame: int)
    requires
        animated.is_well_formed(),
        animated.times@.len() >= 1,
        frame < animated.times@[0].frame,
    ensures
        animated.at(frame) == animated.values@[0],
{
    let times = animated.times@;
    lemma_last_at_or_before_is(times, frame, times.len(), -1);
    let s = sample_spec(times, frame);
    lemma_apply_ends(s.easing);
    animated.values@[0].lemma_tween_start(animated.values@[0]);
}

/// From the last keyframe on an animated value is the value of the last
/// keyframe.
pub proof fn lemma_value_after_last<T: Tween>(animated: Animated<T>, frame: int)
    requires
        animated.is_well_formed(),
        animated.times@.len() >= 1,
        frame >= animated.times@.last().frame,
    ensures
        animated.at(frame) == animated.values@.last(),
{
    let times = animated.times@;
    let n = times.len();
    lemma_last_at_or_before_is(times, frame, n, n - 1);
    let s = sample_spec(times, frame);
    lemma_apply_ends(s.easing);
    animated.values@[n - 1].lemma_tween_start(animated.values@[n - 1]);
}

/// Between a keyframe that holds and the next keyframe an animated value is
/// the value of the keyframe that holds.
pub proof fn lemma_value_under_hold<T: Tween>(animated: Animated<T>, i: int, frame: int)
    requires
        animated.is_well_formed(),
        0 <= i,
        i + 1 < animated.times@.len(),
        animated.times@[i].hold,
        animated.times@[i].frame <= frame < animated.times@[i + 1].frame,
    ensures
        animated.at(frame) == animated.values@[i],
{
    let times = animated.times@;
    lemma_last_at_or_before_is(times, frame, times.len(), i);
    animated.values@[i].lemma_tween_start(animated.values@[i + 1]);
}

/// At a weight between zero and one the interpolated value lies between the
/// two values.
pub proof fn lemma_tween_between(a: i32, b: i32, weight: int)
    requires
        0 <= weight <= ONE,
    ensures
        a <= b ==> a <= tween_i32(a, b, weight) <= b,
        b <= a ==> b <= tween_i32(a, b, weight) <= a,
        tween_i32(a, b, ONE as int) == b,
{
    lemma_lerp_between(a as int, b as int, weight);
}

/// Between two keyframes whose easing handles have vertical coordinates
/// between zero and one, an animated number never leaves the interval
/// between the values of the two keyframes.
pub proof fn lemma_value_between_keyframes(animated: Animated<i32>, i: int, frame: int)
    requires
        animated.is_well_formed(),
        0 <= i,
        i + 1 < animated.times@.len(),
        animated.times@[i].frame <= frame < animated.times@[i + 1].frame,
        0 <= easing_between(animated.times@[i], animated.times@[i + 1]).o.y <= ONE,
        0 <= easing_between(animated.times@[i], animated.times@[i + 1]).i.y <= ONE,
    ensures
        animated.values@[i] <= animated.values@[i + 1] ==> animated.values@[i] <= animated.at(frame)
            <= animated.values@[i + 1],
        animated.values@[i + 1] <= animated.values@[i] ==> animated.values@[i + 1] <= animated.at(
            frame,
        ) <= animated.values@[i],
{
    let times = animated.times@;
    lemma_last_at_or_before_is(times, frame, times.len(), i);
    let s = sample_spec(times, frame);
    crate::runtime::model::easing::lemma_apply_in_unit(s.easing, s.weight as int);
    lemma_tween_between(animated.values@[i], animated.values@[i + 1], eased_weight(s));
}

/// Whether the rows of `a` and `b` hold the same values, row by row.
pub open spec fn rows_same<T>(a: Seq<Vec<T>>, b: Seq<Vec<T>>) -> bool {
    &&& a.len() == b.len()
    &&& forall|i: int| 0 <= i < a.len() ==> (#[trigger] a[i])@ == b[i]@
}

/// A copy of a vector.
pub fn duplicate_values<T: Copy>(values: &Vec<T>) -> (r: Vec<T>)
    ensures
        r@ == values@,
{
    let mut copy: Vec<T> = Vec::new();
    let mut i: usize = 0;
    while i < values.len()
        invariant
            i <= values.len(),
            copy@ == values@.take(i as int),
        decreases values.len() - i,
    {
        copy.push(values[i]);
        proof {
            assert(values@.take(i + 1) =~= values@.take(i as int).push(values@[i as int]));
        }
        i += 1;
    }
    proof {
        assert(values@.take(values.len() as int) =~= values@);
    }
    copy
}

/// A copy of a vector of rows.
pub fn duplicate_rows<T: Copy>(rows: &Vec<Vec<T>>) -> (r: Vec<Vec<T>>)
    ensures
        rows_same(r@, rows@),
{
    let mut copy: Vec<Vec<T>> = Vec::new();
    let mut i: usize = 0;
    while i < rows.len()
        invariant
            i <= rows.len(),
            copy@.len() == i,
            forall|k: int| 0 <= k < i ==> (#[trigger] copy@[k])@ == rows@[k]@,
        decreases rows.len() - i,
    {
        copy.push(duplicate_values(&rows[i]));
        i += 1;
    }
    copy
}

impl<T: Tween> Animated<T> {
    /// Whether `self` and `other` hold the same keyframes: the same times
    /// and the same values, in the same order.
    pub open spec fn same_as(self, other: Self) -> bool {
        self.times@ == other.times@ && self.values@ == other.values@
    }

    /// A copy of the value.
    pub fn duplicate(&self) -> (r: Self)
        ensures
            r.same_as(*self),
    {
        Animated { times: duplicate_values(&self.times), values: duplicate_values(&self.values) }
    }
}

impl<T: Tween> Value<T> {
    /// Whether `self` and `other` are the same fixed value or hold the same
    /// keyframes.
    pub open spec fn same_as(self, other: Self) -> bool {
        match (self, other) {
            (Value::Fixed(a), Value::Fixed(b)) => a == b,
            (Value::Animated(a), Value::Animated(b)) => a.same_as(b),
            _ => false,
        }
    }

    /// A copy of the value.
    pub fn duplicate(&self) -> (r: Self)
        ensures
            r.same_as(*self),
    {
        match self {
            Value::Fixed(v) => Value::Fixed(*v),
            Value::Animated(a) => Value::Animated(a.duplicate()),
        }
    }
}

} // verus!
