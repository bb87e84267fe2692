//! Two-handle cubic easing.
//!
//! An easing curve is the cubic Bézier curve from (0, 0) to (1, 1) whose two
//! inner control points are the handles. It maps a linear weight, read on the
//! horizontal axis, to an eased weight, read on the vertical axis.

use vstd::prelude::*;
use crate::scalar::ONE;
use crate::scalar::clamp;
use crate::scalar::floor_div;

verus! {

/// One control point of an easing curve, as 16.16 coordinates.
#[derive(Clone, Copy, Debug, PartialEq, Eq, Structural)]
pub struct EasingHandle {
    pub x: i32,
    pub y: i32,
}

/// Easing curve: the handle that leaves the first keyframe and the handle
/// that arrives at the second.
#[derive(Clone, Copy, Debug, PartialEq, Eq, Structural)]
pub struct Easing {
    pub o: EasingHandle,
    pub i: EasingHandle,
}

/// The cube of `ONE`.
pub open spec fn one_cubed() -> int {
    ONE * ONE * ONE
}

/// One coordinate of the curve at parameter `s`, for the handle coordinates
/// `p1` and `p2`, scaled by the cube of `ONE`:
/// `3(1-s)²s·p1 + 3(1-s)s²·p2 + s³`.
pub open spec fn bezier(p1: int, p2: int, s: int) -> int {
    3 * p1 * ((ONE - s) * (ONE - s) * s) + 3 * p2 * ((ONE - s) * (s * s)) + ONE * (s * s * s)
}

/// The greatest parameter not above `s` at which the horizontal coordinate
/// does not exceed `target` (zero when there is none).
pub open spec fn solve_from(x1: int, x2: int, target: int, s: nat) -> nat
    decreases s,
{
    if s == 0 || bezier(x1, x2, s as int) <= target {
        s
    } else {
        solve_from(x1, x2, target, (s - 1) as nat)
    }
}

/// The greatest parameter between zero and one at which the horizontal
/// coordinate does not exceed `target`.
pub open spec fn solve(x1: int, x2: int, target: int) -> nat {
    solve_from(x1, x2, target, ONE as nat)
}

impl Easing {
    /// The curve that leaves every weight unchanged.
    pub open spec fn linear_spec() -> Easing {
        Easing {
            o: EasingHandle { x: 0, y: 0 },
            i: EasingHandle { x: ONE as i32, y: ONE as i32 },
        }
    }

    /// Whether both handles lie on the diagonal, so that the curve is the
    /// diagonal itself.
    pub open spec fn is_diagonal(self) -> bool {
        self.o.x == self.o.y && self.i.x == self.i.y
    }

    /// The eased weight for the linear weight `t`.
    ///
    /// `t` is limited to the interval from zero to one and the horizontal
    /// handle coordinates likewise. On a diagonal curve the weight is
    /// unchanged. Otherwise the curve is read at the greatest parameter whose
    /// horizontal coordinate does not exceed `t`.
    pub open spec fn apply_spec(self, t: int) -> int {
        let t = clamp(t, 0, ONE as int);
        if self.is_diagonal() {
            t
        } else {
            let x1 = clamp(self.o.x as int, 0, ONE as int);
            let x2 = clamp(self.i.x as int, 0, ONE as int);
            let s = solve(x1, x2, t * one_cubed());
            bezier(self.o.y as int, self.i.y as int, s as int) / one_cubed()
        }
    }

    /// The curve that leaves every weight unchanged.
    pub fn linear() -> (r: Easing)
        ensures
            r == Easing::linear_spec(),
            r.is_diagonal(),
    {
        Easing { o: EasingHandle { x: 0, y: 0 }, i: EasingHandle { x: 65536, y: 65536 } }
    }

    /// Applies the curve to the linear weight `t`.
    pub fn apply(&self, t: i64) -> (r: i64)
        ensures
            r == self.apply_spec(t as int),
    {
        let t: i64 = if t < 0 {
            0
        } else if t > ONE {
            ONE
        } else {
            t
        };
        if self.o.x == self.o.y && self.i.x == self.i.y {
            return t;
        }
        let x1: i64 = limit_unit(self.o.x);
        let x2: i64 = limit_unit(self.i.x);
        let target: i128 = (t as i128) * 65536 * 65536 * 65536;
        assert(target == t * one_cubed()) by (nonlinear_arith)
            requires
                target == t * 65536 * 65536 * 65536,
                ONE == 65536,
        ;
        let mut lo: i64 = 0;
        let mut hi: i64 = ONE + 1;
        proof {
            lemma_bezier_ends(x1 as int, x2 as int);
            assert(0 <= t * one_cubed()) by (nonlinear_arith)
                requires
                    0 <= t,
                    ONE == 65536,
            ;
        }
        while hi - lo > 1
            invariant
                0 <= lo < hi <= ONE + 1,
                0 <= x1 <= ONE,
                0 <= x2 <= ONE,
                bezier(x1 as int, x2 as int, lo as int) <= target,
                hi <= ONE ==> bezier(x1 as int, x2 as int, hi as int) > target,
            decreases hi - lo,
        {
            let mid: i64 = lo + (hi - lo) / 2;
            if curve(x1, x2, mid) <= target {
                lo = mid;
            } else {
                hi = mid;
            }
        }
        proof {
            lemma_solve_is(x1 as int, x2 as int, target as int, lo as nat, ONE as nat);
        }
        let y: i128 = curve(self.o.y as i64, self.i.y as i64, lo);
        proof {
            lemma_bezier_bound(self.o.y as int, self.i.y as int, lo as int);
            assert(65536 * 65536 * 65536 == one_cubed()) by (nonlinear_arith)
                requires
                    ONE == 65536,
            ;
        }
        let r: i128 = floor_div(y, 65536 * 65536 * 65536);
        r as i64
    }
}

/// A handle coordinate limited to the interval from zero to one.
fn limit_unit(v: i32) -> (r: i64)
    ensures
        r == clamp(v as int, 0, ONE as int),
{
    if v < 0 {
        0
    } else if v as i64 > ONE {
        ONE
    } else {
        v as i64
    }
}

/// One coordinate of the curve at parameter `s`.
fn curve(p1: i64, p2: i64, s: i64) -> (r: i128)
    requires
        0 <= s <= ONE,
        i32::MIN <= p1 <= i32::MAX,
        i32::MIN <= p2 <= i32::MAX,
    ensures
        r == bezier(p1 as int, p2 as int, s as int),
{
    let u: i128 = (ONE - s) as i128;
    let v: i128 = s as i128;
    assert(0 <= u * u <= 0x1_0000_0000 && 0 <= v * v <= 0x1_0000_0000 && 0 <= u * v <= 0x1_0000_0000)
        by (nonlinear_arith)
        requires
            0 <= u <= 0x1_0000,
            0 <= v <= 0x1_0000,
    ;
    let uu: i128 = u * u;
    let vv: i128 = v * v;
    assert(0 <= uu * v <= 0x1_0000_0000_0000 && 0 <= u * vv <= 0x1_0000_0000_0000 && 0 <= vv * v
        <= 0x1_0000_0000_0000) by (nonlinear_arith)
        requires
            0 <= uu <= 0x1_0000_0000,
            0 <= vv <= 0x1_0000_0000,
            0 <= u <= 0x1_0000,
            0 <= v <= 0x1_0000,
    ;
    let a: i128 = uu * v;
    let b: i128 = u * vv;
    let c: i128 = vv * v;
    let q1: i128 = 3 * (p1 as i128);
    let q2: i128 = 3 * (p2 as i128);
    assert(-0x2_0000_0000_0000_0000_0000 <= q1 * a <= 0x2_0000_0000_0000_0000_0000) by (nonlinear_arith)
        requires
            -0x2_0000_0000 <= q1 <= 0x2_0000_0000,
            0 <= a <= 0x1_0000_0000_0000,
    ;
    assert(-0x2_0000_0000_0000_0000_0000 <= q2 * b <= 0x2_0000_0000_0000_0000_0000) by (nonlinear_arith)
        requires
            -0x2_0000_0000 <= q2 <= 0x2_0000_0000,
            0 <= b <= 0x1_0000_0000_0000,
    ;
    assert(vv * v == v * v * v) by (nonlinear_arith)
        requires
            vv == v * v,
    ;
    let r: i128 = q1 * a + q2 * b + 65536 * c;
    r
}

/// Bounds on the curve for handle coordinates that fit in 32 bits.
pub proof fn lemma_bezier_bound(p1: int, p2: int, s: int)
    requires
        0 <= s <= ONE,
        i32::MIN <= p1 <= i32::MAX,
        i32::MIN <= p2 <= i32::MAX,
    ensures
        -0x5_0000_0000_0000_0000_0000 <= bezier(p1, p2, s) <= 0x5_0000_0000_0000_0000_0000,
        i64::MIN < bezier(p1, p2, s) / one_cubed() < i64::MAX,
{
    let u = ONE - s;
    let a = u * u * s;
    let b = u * (s * s);
    let c = s * s * s;
    assert(0 <= a <= 0x1_0000_0000_0000 && 0 <= b <= 0x1_0000_0000_0000 && 0 <= c
        <= 0x1_0000_0000_0000) by (nonlinear_arith)
        requires
            0 <= s <= 0x1_0000,
            0 <= u <= 0x1_0000,
            a == u * u * s,
            b == u * (s * s),
            c == s * s * s,
    ;
    assert(-0x2_0000_0000_0000_0000_0000 <= 3 * p1 * a <= 0x2_0000_0000_0000_0000_0000)
        by (nonlinear_arith)
        requires
            -0x8000_0000 <= p1 <= 0x8000_0000,
            0 <= a <= 0x1_0000_0000_0000,
    ;
    assert(-0x2_0000_0000_0000_0000_0000 <= 3 * p2 * b <= 0x2_0000_0000_0000_0000_0000)
        by (nonlinear_arith)
        requires
            -0x8000_0000 <= p2 <= 0x8000_0000,
            0 <= b <= 0x1_0000_0000_0000,
    ;
    assert(one_cubed() == 0x1_0000_0000_0000) by (nonlinear_arith)
        requires
            ONE == 0x1_0000,
    ;
}

/// The curve starts at zero and ends at one, whatever the handles.
pub proof fn lemma_bezier_ends(p1: int, p2: int)
    ensures
        bezier(p1, p2, 0) == 0,
        bezier(p1, p2, ONE as int) == ONE * one_cubed(),
{
    assert(bezier(p1, p2, 0) == 0) by (nonlinear_arith)
        requires
            bezier(p1, p2, 0) == 3 * p1 * ((ONE - 0) * (ONE - 0) * 0) + 3 * p2 * ((ONE - 0) * (0 * 0))
                + ONE * (0 * 0 * 0),
    ;
    let s = ONE as int;
    assert(bezier(p1, p2, s) == ONE * (ONE * ONE * ONE)) by (nonlinear_arith)
        requires
            s == ONE,
            bezier(p1, p2, s) == 3 * p1 * ((ONE - s) * (ONE - s) * s) + 3 * p2 * ((ONE - s) * (s
                * s)) + ONE * (s * s * s),
    ;
}

/// The sign argument behind the monotonicity of the curve: a sum that is
/// non-negative at the four corners of a square is non-negative inside it.
proof fn lemma_corners(n: int, a: int, b: int, ca: int, cb: int, g: int)
    requires
        n >= 1,
        0 <= a <= n,
        0 <= b <= n,
        g >= 0,
        ca + g >= 0,
        cb + g >= 0,
        ca + cb + g >= 0,
    ensures
        a * ca + b * cb + n * g >= 0,
{
    assert(n * g >= 0) by (nonlinear_arith)
        requires
            n >= 1,
            g >= 0,
    ;
    if ca >= 0 {
        assert(a * ca >= 0) by (nonlinear_arith)
            requires
                a >= 0,
                ca >= 0,
        ;
    } else {
        assert(a * ca >= n * ca) by (nonlinear_arith)
            requires
                a <= n,
                ca < 0,
        ;
    }
    if cb >= 0 {
        assert(b * cb >= 0) by (nonlinear_arith)
            requires
                b >= 0,
                cb >= 0,
        ;
    } else {
        assert(b * cb >= n * cb) by (nonlinear_arith)
            requires
                b <= n,
                cb < 0,
        ;
    }
    assert(n * (ca + g) >= 0 && n * (cb + g) >= 0 && n * (ca + cb + g) >= 0) by (nonlinear_arith)
        requires
            n >= 1,
            ca + g >= 0,
            cb + g >= 0,
            ca + cb + g >= 0,
    ;
    assert(n * (ca + g) == n * ca + n * g && n * (cb + g) == n * cb + n * g && n * (ca + cb + g)
        == n * ca + n * cb + n * g) by (nonlinear_arith);
}

/// With horizontal handle coordinates between zero and one, the horizontal
/// coordinate of the curve does not fall from one parameter to the next.
pub proof fn lemma_bezier_step(x1: int, x2: int, s: int)
    requires
        0 <= x1 <= ONE,
        0 <= x2 <= ONE,
        0 <= s < ONE,
    ensures
        bezier(x1, x2, s) <= bezier(x1, x2, s + 1),
{
    let n = ONE as int;
    let v = n - s;
    let p0 = v * v * s;
    let p1 = (v - 1) * (v - 1) * (s + 1);
    let q0 = v * (s * s);
    let q1 = (v - 1) * ((s + 1) * (s + 1));
    let r0 = s * s * s;
    let r1 = (s + 1) * (s + 1) * (s + 1);
    let ca = 3 * (p1 - p0);
    let cb = 3 * (q1 - q0);
    let g = r1 - r0;
    assert(g == 3 * s * s + 3 * s + 1) by (nonlinear_arith)
        requires
            g == (s + 1) * (s + 1) * (s + 1) - s * s * s,
    ;
    assert(g >= 0) by (nonlinear_arith)
        requires
            g == 3 * s * s + 3 * s + 1,
            s >= 0,
    ;
    assert(ca + g == 3 * (v - s - 1) * (v - s - 1) + 1) by (nonlinear_arith)
        requires
            ca == 3 * ((v - 1) * (v - 1) * (s + 1) - v * v * s),
            g == 3 * s * s + 3 * s + 1,
    ;
    assert(ca + g >= 0) by (nonlinear_arith)
        requires
            ca + g == 3 * (v - s - 1) * (v - s - 1) + 1,
    ;
    assert(cb + g == 3 * s * (2 * v - 1) + 3 * v - 2) by (nonlinear_arith)
        requires
            cb == 3 * ((v - 1) * ((s + 1) * (s + 1)) - v * (s * s)),
            g == 3 * s * s + 3 * s + 1,
    ;
    assert(cb + g >= 0) by (nonlinear_arith)
        requires
            cb + g == 3 * s * (2 * v - 1) + 3 * v - 2,
            s >= 0,
            v >= 1,
    ;
    assert(ca + cb + g == 3 * v * (v - 1) + 1) by (nonlinear_arith)
        requires
            ca == 3 * ((v - 1) * (v - 1) * (s + 1) - v * v * s),
            cb == 3 * ((v - 1) * ((s + 1) * (s + 1)) - v * (s * s)),
            g == 3 * s * s + 3 * s + 1,
    ;
    assert(ca + cb + g >= 0) by (nonlinear_arith)
        requires
            ca + cb + g == 3 * v * (v - 1) + 1,
            v >= 1,
    ;
    lemma_corners(n, x1, x2, ca, cb, g);
    assert(bezier(x1, x2, s) == 3 * x1 * p0 + 3 * x2 * q0 + n * r0);
    assert(bezier(x1, x2, s + 1) == 3 * x1 * p1 + 3 * x2 * q1 + n * r1);
    assert(x1 * ca == 3 * x1 * p1 - 3 * x1 * p0) by (nonlinear_arith)
        requires
            ca == 3 * (p1 - p0),
    ;
    assert(x2 * cb == 3 * x2 * q1 - 3 * x2 * q0) by (nonlinear_arith)
        requires
            cb == 3 * (q1 - q0),
    ;
    assert(n * g == n * r1 - n * r0) by (nonlinear_arith)
        requires
            g == r1 - r0,
    ;
}

/// With horizontal handle coordinates between zero and one, the horizontal
/// coordinate of the curve never falls as the parameter grows.
pub proof fn lemma_bezier_monotone(x1: int, x2: int, s: int, t: int)
    requires
        0 <= x1 <= ONE,
        0 <= x2 <= ONE,
        0 <= s <= t <= ONE,
    ensures
        bezier(x1, x2, s) <= bezier(x1, x2, t),
    decreases t - s,
{
    if s < t {
        lemma_bezier_monotone(x1, x2, s, t - 1);
        lemma_bezier_step(x1, x2, t - 1);
    }
}

/// A parameter that the target admits, and whose successor it does not, is
/// the one that `solve_from` finds.
pub proof fn lemma_solve_is(x1: int, x2: int, target: int, r: nat, n: nat)
    requires
        0 <= x1 <= ONE,
        0 <= x2 <= ONE,
        r <= n <= ONE,
        bezier(x1, x2, r as int) <= target,
        r < ONE ==> bezier(x1, x2, r as int + 1) > target,
    ensures
        solve_from(x1, x2, target, n) == r,
    decreases n,
{
    if n > r {
        lemma_bezier_monotone(x1, x2, r as int + 1, n as int);
        lemma_solve_is(x1, x2, target, r, (n - 1) as nat);
    }
}

/// Every curve maps zero to zero and one to one.
pub proof fn lemma_apply_ends(e: Easing)
    ensures
        e.apply_spec(0) == 0,
        e.apply_spec(ONE as int) == ONE,
{
    let x1 = clamp(e.o.x as int, 0, ONE as int);
    let x2 = clamp(e.i.x as int, 0, ONE as int);
    lemma_bezier_ends(x1, x2);
    lemma_bezier_ends(e.o.y as int, e.i.y as int);
    assert(bezier(x1, x2, 1) > 0) by (nonlinear_arith)
        requires
            x1 >= 0,
            x2 >= 0,
            ONE == 65536,
            bezier(x1, x2, 1) == 3 * x1 * ((ONE - 1) * (ONE - 1) * 1) + 3 * x2 * ((ONE - 1) * (1 * 1))
                + ONE * (1 * 1 * 1),
    ;
    assert(0 * one_cubed() == 0);
    lemma_solve_is(x1, x2, 0, 0, ONE as nat);
    assert(one_cubed() > 0) by (nonlinear_arith)
        requires
            ONE == 65536,
            one_cubed() == ONE * ONE * ONE,
    ;
    assert(0int / one_cubed() == 0) by (nonlinear_arith)
        requires
            one_cubed() > 0,
    ;
    assert((ONE * one_cubed()) / one_cubed() == ONE) by (nonlinear_arith)
        requires
            one_cubed() > 0,
    ;
}

/// `solve_from` finds a parameter that is not above the one it starts from.
pub proof fn lemma_solve_bound(x1: int, x2: int, target: int, s: nat)
    ensures
        solve_from(x1, x2, target, s) <= s,
    decreases s,
{
    if s != 0 && bezier(x1, x2, s as int) > target {
        lemma_solve_bound(x1, x2, target, (s - 1) as nat);
    }
}

/// With handle coordinates between zero and one, the curve stays between
/// zero and one.
pub proof fn lemma_bezier_in_unit(p1: int, p2: int, s: int)
    requires
        0 <= p1 <= ONE,
        0 <= p2 <= ONE,
        0 <= s <= ONE,
    ensures
        0 <= bezier(p1, p2, s) <= ONE * one_cubed(),
{
    let n = ONE as int;
    let u = n - s;
    let a = u * u * s;
    let b = u * (s * s);
    let c = s * s * s;
    assert(a >= 0 && b >= 0 && c >= 0) by (nonlinear_arith)
        requires
            u >= 0,
            s >= 0,
            a == u * u * s,
            b == u * (s * s),
            c == s * s * s,
    ;
    assert(3 * a + 3 * b + c + u * u * u == n * n * n) by (nonlinear_arith)
        requires
            u == n - s,
            a == u * u * s,
            b == u * (s * s),
            c == s * s * s,
    ;
    assert(u * u * u >= 0) by (nonlinear_arith)
        requires
            u >= 0,
    ;
    assert(0 <= 3 * p1 * a <= n * (3 * a)) by (nonlinear_arith)
        requires
            0 <= p1 <= n,
            a >= 0,
    ;
    assert(0 <= 3 * p2 * b <= n * (3 * b)) by (nonlinear_arith)
        requires
            0 <= p2 <= n,
            b >= 0,
    ;
    assert(n * (3 * a) + n * (3 * b) + n * c == n * (3 * a + 3 * b + c)) by (nonlinear_arith);
    assert(n * (3 * a + 3 * b + c) <= n * (n * n * n)) by (nonlinear_arith)
        requires
            3 * a + 3 * b + c <= n * n * n,
            n >= 0,
    ;
    assert(n * c >= 0) by (nonlinear_arith)
        requires
            n >= 0,
            c >= 0,
    ;
}

/// An easing whose handles have vertical coordinates between zero and one
/// maps every weight to a weight between zero and one.
pub proof fn lemma_apply_in_unit(e: Easing, t: int)
    requires
        0 <= e.o.y <= ONE,
        0 <= e.i.y <= ONE,
    ensures
        0 <= e.apply_spec(t) <= ONE,
{
    if !e.is_diagonal() {
        let x1 = clamp(e.o.x as int, 0, ONE as int);
        let x2 = clamp(e.i.x as int, 0, ONE as int);
        let target = clamp(t, 0, ONE as int) * one_cubed();
        lemma_solve_bound(x1, x2, target, ONE as nat);
        let s = solve(x1, x2, target) as int;
        lemma_bezier_in_unit(e.o.y as int, e.i.y as int, s);
        let y = bezier(e.o.y as int, e.i.y as int, s);
        let d = one_cubed();
        assert(d > 0) by (nonlinear_arith)
            requires
                d == ONE * ONE * ONE,
                ONE == 65536,
        ;
        vstd::arithmetic::div_mod::lemma_fundamental_div_mod(y, d);
        assert(0 <= y / d <= ONE) by (nonlinear_arith)
            requires
                0 <= y <= ONE * d,
                y == d * (y / d) + y % d,
                0 <= y % d < d,
        ;
    }
}

} // verus!
