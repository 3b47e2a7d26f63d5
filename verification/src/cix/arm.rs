//! The two arms of the character: each has two segments of equal length,
//! and bends at the elbow so that its hand reaches a target.
//!
//! Lengths are counted in millionths of a pixel, angles in millionths of a
//! degree.
use vstd::prelude::*;
use smallvec::SmallVec;
use crate::cix::attire::{turn_pose, turn_scale, turn_x, TurnPose};
use crate::cix::CixDirection;
use crate::ext::{
    dist_avoid, lemma_arc_wrapped, lemma_dist_avoid_step, wall_at_end, wrap, AngleExt, FULL_TURN,
    HALF_TURN,
};
use crate::fixed::{
    abs, fx_mul, lemma_cancel, lemma_sqrt_exists, lemma_square_order, sqrt, sqrt_floor, trunc_div,
    Vec2, ONE,
};

verus! {

/// One of the two arms.
#[derive(Clone, Copy, Debug, PartialEq, Eq, Structural)]
pub enum CixArm {
    Front,
    Back,
}

/// The point that an arm reaches for, measured from its shoulder; `None`
/// while the arm hangs idle.
#[derive(Clone, Copy, Debug, PartialEq, Eq, Structural)]
pub struct CixArmTarget(pub Option<Vec2>);

impl CixArm {
    /// How much of the way to its solved pose an aiming arm turns in one
    /// sixtieth of a second.
    pub const TURN_SPEED_ACTIVE: i64 = 670_000;

    /// How much of the way to its idle pose a hanging arm turns in one
    /// sixtieth of a second.
    pub const TURN_SPEED_PASSIVE: i64 = 240_000;

    /// Where the point between the arms lies, across the body.
    pub const TARGET_POINT_X: i64 = 1_500_000;

    /// Where the point between the arms lies, along the body.
    pub const TARGET_POINT_Y: i64 = -26_000_000;

    /// The longest segment that the solver takes.
    pub const MAX_LENGTH: i64 = 0x4000_0000;

    /// The cosine of the angle by which a hanging arm leans away from
    /// straight down.
    pub const IDLE_LEAN: i64 = 173_648;

    /// The sine of the angle between a hanging arm and the horizon.
    pub const IDLE_DROP: i64 = 984_808;

    /// Both arms, the front one first.
    pub const ALL: [CixArm; 2] = [CixArm::Front, CixArm::Back];

    /// The point between the arms, measured from the centre of the body.
    pub fn target_point() -> (p: Vec2)
        ensures
            p.x == Self::TARGET_POINT_X,
            p.y == Self::TARGET_POINT_Y,
    {
        Vec2 { x: Self::TARGET_POINT_X, y: Self::TARGET_POINT_Y }
    }

    /// Where the shoulder sits, measured from the collar.
    pub fn offset(self) -> (v: Vec2)
        ensures
            v == match self {
                CixArm::Front => Vec2 { x: -3_000_000i64, y: 2_000_000i64 },
                CixArm::Back => Vec2 { x: 6_000_000i64, y: 0i64 },
            },
    {
        match self {
            CixArm::Front => Vec2 { x: -3_000_000, y: 2_000_000 },
            CixArm::Back => Vec2 { x: 6_000_000, y: 0 },
        }
    }

    /// Where along their sprites the upper and the lower segment hinge.
    pub fn anchor(self) -> (a: (i64, i64))
        ensures
            a == match self {
                CixArm::Front => (-17_000_000i64, -17_000_000i64),
                CixArm::Back => (-15_000_000i64, -15_000_000i64),
            },
    {
        match self {
            CixArm::Front => (-17_000_000, -17_000_000),
            CixArm::Back => (-15_000_000, -15_000_000),
        }
    }

    /// The length of each of the two segments.
    pub fn length(self) -> (l: i64)
        ensures
            l == match self {
                CixArm::Front => 32_000_000i64,
                CixArm::Back => 30_000_000i64,
            },
            0 < l <= Self::MAX_LENGTH,
    {
        match self {
            CixArm::Front => 32_000_000,
            CixArm::Back => 30_000_000,
        }
    }
}

/// The sign of `v`.
pub open spec fn sgn(v: int) -> int {
    if v > 0 {
        1
    } else if v < 0 {
        -1
    } else {
        0
    }
}

/// The square of the distance of `(x, y)` from the origin.
pub open spec fn norm2(x: int, y: int) -> int {
    x * x + y * y
}

/// Twice the distance, along one axis, between the elbow and the midpoint
/// of the line from the shoulder to a target `(.., c)` or `(c, ..)` at
/// squared distance `n`, for segments of length `len`: the magnitude of
/// `c * sqrt(4 * len * len / n - 1)`, rounded down.
pub open spec fn bend(c: int, len: int, n: int) -> int {
    sqrt((c * c * (4 * len * len - n)) / n)
}

/// Where the elbow goes for a target `(tx, ty)` seen from the shoulder,
/// with segments of length `len` and the elbow bent toward the side
/// `side`, which is `1` or `-1`.
///
/// Within reach, the elbow lies on the perpendicular through the midpoint
/// of the line to the target, as far from it as the segments allow, to
/// the right of the line for `side == 1`. Beyond reach, it lies at `len`
/// on the line to the target. With the target on the shoulder itself, it
/// hangs straight down.
pub open spec fn elbow(tx: int, ty: int, len: int, side: int) -> (int, int) {
    let n = norm2(tx, ty);
    if n == 0 {
        (0, -len)
    } else if n <= 4 * len * len {
        (
            trunc_div(tx + side * sgn(ty) * bend(ty, len, n), 2),
            trunc_div(ty - side * sgn(tx) * bend(tx, len, n), 2),
        )
    } else {
        (trunc_div(tx * len, sqrt(n)), trunc_div(ty * len, sqrt(n)))
    }
}

/// Where the elbow of a hanging arm goes: at `len` from the shoulder,
/// ten degrees off straight down, away from the side `side`.
pub open spec fn idle_elbow(len: int, side: int) -> (int, int) {
    (-side * fx_mul(CixArm::IDLE_LEAN as int, len), -fx_mul(CixArm::IDLE_DROP as int, len))
}

/// What the rounding of `bend` leaves open: its square times `n` is at
/// most `c * c * (4 * len * len - n)`, and one more would be too much.
proof fn lemma_bend_brackets(c: int, len: int, n: int)
    requires
        n > 0,
        c * c <= n <= 4 * len * len,
    ensures
        ({
            let p = bend(c, len, n);
            let m = 4 * len * len - n;
            p >= 0 && p * p * n <= c * c * m < (p + 1) * (p + 1) * n
        }),
{
    let m = 4 * len * len - n;
    let w = c * c * m;
    assert(w >= 0) by (nonlinear_arith)
        requires
            w == c * c * m,
            m >= 0,
    ;
    let q = w / n;
    vstd::arithmetic::div_mod::lemma_fundamental_div_mod(w, n);
    vstd::arithmetic::div_mod::lemma_mod_bound(w, n);
    vstd::arithmetic::div_mod::lemma_div_pos_is_pos(w, n);
    lemma_sqrt_exists(q);
    let p = sqrt(q);
    assert(p * p * n <= q * n) by (nonlinear_arith)
        requires
            p * p <= q,
            n > 0,
    ;
    assert((p + 1) * (p + 1) * n >= (q + 1) * n) by (nonlinear_arith)
        requires
            (p + 1) * (p + 1) >= q + 1,
            n > 0,
    ;
    assert((q + 1) * n == q * n + n && q * n == n * q) by (nonlinear_arith);
}

/// The squares of the two bends add up to what the segments leave over
/// the distance to the target, or to a little less.
proof fn lemma_bend_sum(aa: int, bb: int, m: int, n: int, p: int, q: int)
    requires
        n > 0,
        aa + bb == n,
        p * p * n <= aa * m < (p + 1) * (p + 1) * n,
        q * q * n <= bb * m < (q + 1) * (q + 1) * n,
    ensures
        p * p + q * q <= m < (p + 1) * (p + 1) + (q + 1) * (q + 1),
{
    assert((p * p + q * q) * n == p * p * n + q * q * n) by (nonlinear_arith);
    assert(((p + 1) * (p + 1) + (q + 1) * (q + 1)) * n == (p + 1) * (p + 1) * n + (q + 1) * (q
        + 1) * n) by (nonlinear_arith);
    assert(aa * m + bb * m == m * n) by (nonlinear_arith)
        requires
            aa + bb == n,
    ;
    lemma_cancel(p * p + q * q, m, n);
    lemma_cancel(m, (p + 1) * (p + 1) + (q + 1) * (q + 1), n);
}

/// The two bends are in the proportion of the coordinates that they
/// belong to, as nearly as whole numbers allow: for the bend `p` that
/// belongs to `a` and the bend `q` that belongs to `b`, `b * p` stays
/// below `a * (q + 1)`.
proof fn lemma_bend_cross(a: int, b: int, m: int, n: int, p: int, q: int)
    requires
        n > 0,
        a > 0,
        b >= 0,
        p >= 0,
        q >= 0,
        p * p * n <= a * a * m,
        b * b * m < (q + 1) * (q + 1) * n,
    ensures
        b * p < a * (q + 1),
{
    let low = p * p * n;
    let mid = a * a * m;
    let other = b * b * m;
    let high = (q + 1) * (q + 1) * n;
    assert((b * p) * (b * p) * n == (b * b) * low) by (nonlinear_arith)
        requires
            low == p * p * n,
    ;
    assert((b * b) * low <= (b * b) * mid) by (nonlinear_arith)
        requires
            low <= mid,
    ;
    assert((b * b) * mid == (a * a) * other) by (nonlinear_arith)
        requires
            mid == a * a * m,
            other == b * b * m,
    ;
    assert((a * a) * other < (a * a) * high) by (nonlinear_arith)
        requires
            other < high,
            a > 0,
    ;
    assert((a * a) * high == (a * (q + 1)) * (a * (q + 1)) * n) by (nonlinear_arith)
        requires
            high == (q + 1) * (q + 1) * n,
    ;
    lemma_cancel((b * p) * (b * p), (a * (q + 1)) * (a * (q + 1)), n);
    assert(0 <= b * p && 0 <= a * (q + 1)) by (nonlinear_arith)
        requires
            a > 0,
            b >= 0,
            p >= 0,
            q >= 0,
    ;
    lemma_square_order(b * p, a * (q + 1));
}

/// Halving a coordinate of the doubled elbow costs at most one unit of
/// the doubled length: the square of twice the half is near the square of
/// the whole, and so is the square of twice what the half leaves of `t`,
/// where `x + y == 2 * t`.
proof fn lemma_half_squares(x: int, y: int, bound: int)
    requires
        (x + y) % 2 == 0,
        -bound <= x <= bound,
        -bound <= y <= bound,
    ensures
        ({
            let e = trunc_div(x, 2);
            let f = (x + y) / 2 - e;
            &&& abs(4 * (e * e) - x * x) <= 2 * bound + 1
            &&& abs(4 * (f * f) - y * y) <= 2 * bound + 1
        }),
{
    let e = trunc_div(x, 2);
    let f = (x + y) / 2 - e;
    let r = x - 2 * e;
    assert(-1 <= r <= 1);
    assert(2 * f == y + r);
    let rx = r * x;
    let ry = r * y;
    let rr = r * r;
    assert(4 * (e * e) == x * x - 2 * rx + rr) by (nonlinear_arith)
        requires
            2 * e == x - r,
            rx == r * x,
            rr == r * r,
    ;
    assert(4 * (f * f) == y * y + 2 * ry + rr) by (nonlinear_arith)
        requires
            2 * f == y + r,
            ry == r * y,
            rr == r * r,
    ;
    assert(-bound <= rx <= bound && -bound <= ry <= bound && 0 <= rr <= 1) by (nonlinear_arith)
        requires
            rx == r * x,
            ry == r * y,
            rr == r * r,
            -1 <= r <= 1,
            -bound <= x <= bound,
            -bound <= y <= bound,
    ;
}

/// The mixed term of the doubled elbow, `tx * u - ty * v`, where `u` and
/// `v` are the bends with their signs: it is smaller than the longer
/// coordinate of the target.
proof fn lemma_elbow_cross(tx: int, ty: int, len: int, side: int)
    requires
        len > 0,
        side == 1 || side == -1,
        0 < norm2(tx, ty) <= 4 * len * len,
    ensures
        ({
            let n = norm2(tx, ty);
            let p = bend(ty, len, n);
            let q = bend(tx, len, n);
            let u = side * sgn(ty) * p;
            let v = side * sgn(tx) * q;
            &&& 0 <= p <= 2 * len
            &&& 0 <= q <= 2 * len
            &&& u * u == p * p
            &&& v * v == q * q
            &&& -2 * len <= u <= 2 * len
            &&& -2 * len <= v <= 2 * len
            &&& -2 * len <= tx <= 2 * len
            &&& -2 * len <= ty <= 2 * len
            &&& -2 * len <= tx * u - ty * v <= 2 * len
            &&& p * p + q * q <= 4 * len * len - n
            &&& 4 * len * len - n <= p * p + q * q + 2 * p + 2 * q + 1
        }),
{
    let n = norm2(tx, ty);
    let m = 4 * len * len - n;
    let a = abs(ty);
    let b = abs(tx);
    let p = bend(ty, len, n);
    let q = bend(tx, len, n);
    assert(tx * tx >= 0 && ty * ty >= 0) by (nonlinear_arith);
    lemma_bend_brackets(ty, len, n);
    lemma_bend_brackets(tx, len, n);
    lemma_bend_sum(ty * ty, tx * tx, m, n, p, q);
    assert((p + 1) * (p + 1) + (q + 1) * (q + 1) == p * p + q * q + 2 * p + 2 * q + 2)
        by (nonlinear_arith);
    assert(a * a == ty * ty && b * b == tx * tx) by (nonlinear_arith)
        requires
            a == ty || a == -ty,
            b == tx || b == -tx,
    ;
    assert((2 * len) * (2 * len) == 4 * len * len) by (nonlinear_arith);
    assert(p * p >= 0 && q * q >= 0) by (nonlinear_arith);
    lemma_square_order(a, 2 * len);
    lemma_square_order(b, 2 * len);
    lemma_square_order(p, 2 * len);
    lemma_square_order(q, 2 * len);
    if ty == 0 {
        assert(p == 0) by (nonlinear_arith)
            requires
                p >= 0,
                n > 0,
                p * p * n <= ty * ty * m,
                ty == 0,
        ;
    }
    if tx == 0 {
        assert(q == 0) by (nonlinear_arith)
            requires
                q >= 0,
                n > 0,
                q * q * n <= tx * tx * m,
                tx == 0,
        ;
    }
    let sy = sgn(ty);
    let sx = sgn(tx);
    let u = side * sy * p;
    let v = side * sx * q;
    lemma_unit_product(side, sy);
    lemma_unit_product(side, sx);
    lemma_unit_product(side * sy, p);
    lemma_unit_product(side * sx, q);
    lemma_signs(b, p);
    lemma_signs(a, q);
    lemma_signs(p, p);
    lemma_signs(q, q);
    // `u` is `p` with a sign, and `tx` is `b` with a sign, so their product
    // is `b * p` with a sign; likewise for `v`, `ty` and `a * q`. The two
    // signs agree.
    assert(u == p || u == -p);
    assert(v == q || v == -q);
    assert(u * u == p * p);
    assert(v * v == q * q);
    if tx != 0 && ty != 0 {
        lemma_bend_cross(a, b, m, n, p, q);
        lemma_bend_cross(b, a, m, n, q, p);
        let bp = b * p;
        let aq = a * q;
        assert(bp < aq + a && aq < bp + b) by (nonlinear_arith)
            requires
                bp == b * p,
                aq == a * q,
                b * p < a * (q + 1),
                a * q < b * (p + 1),
        ;
        assert(tx * u == bp || tx * u == -bp);
        assert(ty * v == aq || ty * v == -aq);
        assert((tx * u == bp) == (ty * v == aq) || bp == 0 || aq == 0);
    }
}

/// A product with a factor of one, minus one or zero.
proof fn lemma_unit_product(s: int, x: int)
    by (nonlinear_arith)
    requires
        -1 <= s <= 1,
    ensures
        s == 1 ==> s * x == x,
        s == -1 ==> s * x == -x,
        s == 0 ==> s * x == 0,
{
}

/// Products of two numbers and of their negatives.
proof fn lemma_signs(x: int, y: int)
    by (nonlinear_arith)
    ensures
        (-x) * y == -(x * y),
        x * (-y) == -(x * y),
        (-x) * (-y) == x * y,
        x == 0 || y == 0 ==> x * y == 0,
{
}

/// The doubled elbow, before it is halved, and its mirror image across
/// the line to the target both lie at twice the length of a segment from
/// the shoulder, up to rounding.
proof fn lemma_elbow_doubled(tx: int, ty: int, len: int, side: int)
    requires
        len > 0,
        side == 1 || side == -1,
        0 < norm2(tx, ty) <= 4 * len * len,
    ensures
        ({
            let n = norm2(tx, ty);
            let u = side * sgn(ty) * bend(ty, len, n);
            let v = side * sgn(tx) * bend(tx, len, n);
            &&& -4 * len <= tx + u <= 4 * len
            &&& -4 * len <= tx - u <= 4 * len
            &&& -4 * len <= ty + v <= 4 * len
            &&& -4 * len <= ty - v <= 4 * len
            &&& 4 * len * len - 12 * len - 1 <= norm2(tx + u, ty - v) <= 4 * len * len + 4 * len
            &&& 4 * len * len - 12 * len - 1 <= norm2(tx - u, ty + v) <= 4 * len * len + 4 * len
        }),
{
    let n = norm2(tx, ty);
    let p = bend(ty, len, n);
    let q = bend(tx, len, n);
    let u = side * sgn(ty) * p;
    let v = side * sgn(tx) * q;
    let cross = tx * u - ty * v;
    lemma_elbow_cross(tx, ty, len, side);
    let x = tx + u;
    let y = ty - v;
    let xo = tx - u;
    let yo = ty + v;
    let pp = p * p;
    let qq = q * q;
    assert(x * x + y * y == n + pp + qq + 2 * cross && xo * xo + yo * yo == n + pp + qq - 2
        * cross) by (nonlinear_arith)
        requires
            x == tx + u,
            y == ty - v,
            xo == tx - u,
            yo == ty + v,
            cross == tx * u - ty * v,
            u * u == pp,
            v * v == qq,
            n == tx * tx + ty * ty,
    ;
}

/// The solver keeps both segments at their length: for a target within
/// reach, the elbow lies as far from the shoulder as from the target, and
/// that is `len`, up to the rounding of whole numbers. The squares differ
/// from `len * len` by at most `7 * len`, so for any arm of sixteen
/// millionths of a pixel or more each segment is within four millionths
/// of a pixel of `len`.
pub proof fn lemma_elbow_keeps_lengths(tx: int, ty: int, len: int, side: int)
    requires
        len > 0,
        side == 1 || side == -1,
        norm2(tx, ty) <= 4 * len * len,
    ensures
        ({
            let e = elbow(tx, ty, len, side);
            &&& abs(norm2(e.0, e.1) - len * len) <= 7 * len
            &&& abs(norm2(tx - e.0, ty - e.1) - len * len) <= 7 * len
            &&& len >= 16 ==> (len - 4) * (len - 4) <= norm2(e.0, e.1) <= (len + 4) * (len + 4)
            &&& len >= 16 ==> (len - 4) * (len - 4) <= norm2(tx - e.0, ty - e.1) <= (len + 4) * (len
                + 4)
        }),
{
    let n = norm2(tx, ty);
    let e = elbow(tx, ty, len, side);
    let ll = len * len;
    assert((len - 4) * (len - 4) == ll - 8 * len + 16 && (len + 4) * (len + 4) == ll + 8 * len
        + 16 && 4 * len * len == 4 * ll) by (nonlinear_arith)
        requires
            ll == len * len,
    ;
    assert(tx * tx >= 0 && ty * ty >= 0) by (nonlinear_arith);
    if n == 0 {
        assert(tx == 0 && ty == 0) by (nonlinear_arith)
            requires
                tx * tx + ty * ty == 0,
        ;
        assert(norm2(0, -len) == len * len && norm2(0, len) == len * len) by (nonlinear_arith);
    } else {
        let u = side * sgn(ty) * bend(ty, len, n);
        let v = side * sgn(tx) * bend(tx, len, n);
        lemma_elbow_doubled(tx, ty, len, side);
        let x = tx + u;
        let y = ty - v;
        let xo = tx - u;
        let yo = ty + v;
        assert(e.0 == trunc_div(x, 2) && e.1 == trunc_div(y, 2));
        lemma_half_squares(x, xo, 4 * len);
        lemma_half_squares(y, yo, 4 * len);
        assert(tx - e.0 == (x + xo) / 2 - e.0);
        assert(ty - e.1 == (y + yo) / 2 - e.1);
        let f0 = tx - e.0;
        let f1 = ty - e.1;
        assert(norm2(x, y) == x * x + y * y);
        assert(norm2(xo, yo) == xo * xo + yo * yo);
        assert(norm2(e.0, e.1) == e.0 * e.0 + e.1 * e.1);
        assert(norm2(f0, f1) == f0 * f0 + f1 * f1);
    }
}

/// What an arm turns toward on a tick: where its elbow and its hand
/// should be, seen from the shoulder, and how fast it turns there.
#[derive(Clone, Copy, Debug, PartialEq, Eq, Structural)]
pub struct ArmGoal {
    pub joint: Vec2,
    pub end: Vec2,
    pub speed: i64,
}

/// What an arm turns toward, as a value.
pub open spec fn arm_goal_spec(target: CixArmTarget, len: i64, side: i64) -> ArmGoal {
    match target.0 {
        Some(t) => {
            let e = elbow(t.x as int, t.y as int, len as int, side as int);
            ArmGoal {
                joint: Vec2 { x: e.0 as i64, y: e.1 as i64 },
                end: t,
                speed: CixArm::TURN_SPEED_ACTIVE,
            }
        },
        None => {
            let e = idle_elbow(len as int, side as int);
            ArmGoal {
                joint: Vec2 { x: e.0 as i64, y: e.1 as i64 },
                end: Vec2 { x: e.0 as i64, y: (e.1 - len) as i64 },
                speed: CixArm::TURN_SPEED_PASSIVE,
            }
        },
    }
}

/// The absolute value of `v`, widened.
fn magnitude(v: i64) -> (m: u128)
    ensures
        m == crate::fixed::abs(v as int),
{
    if v < 0 {
        (-(v as i128)) as u128
    } else {
        v as u128
    }
}

/// The magnitude `b` with the sign of `c`, mirrored for `side == -1`.
fn toward(side: i64, c: i64, b: i128) -> (r: i128)
    requires
        side == 1 || side == -1,
        0 <= b < 0x8000_0000_0000_0000,
    ensures
        r == side * sgn(c as int) * b,
        -0x8000_0000_0000_0000 < r < 0x8000_0000_0000_0000,
{
    proof {
        assert(1 * 1 * b == b && (-1) * (-1) * b == b && 1 * (-1) * b == -b && (-1) * 1 * b == -b
            && side * 0 * b == 0) by (nonlinear_arith);
    }
    if c == 0 {
        0
    } else if (c > 0) == (side == 1) {
        b
    } else {
        -b
    }
}

/// Twice the distance, along one axis, between the elbow and the midpoint
/// of the line to the target.
fn bend_of(c: i64, len: i64, n: u128) -> (b: i128)
    requires
        0 < len <= CixArm::MAX_LENGTH,
        0 < n <= 4 * len * len,
        c * c <= n,
    ensures
        b == bend(c as int, len as int, n as int),
        0 <= b < 0x8000_0000_0000_0000,
{
    let a: u128 = magnitude(c);
    proof {
        assert(a * a == c * c) by (nonlinear_arith)
            requires
                a == c || a == -c,
        ;
        assert(4 * len * len <= 0x4000_0000_0000_0000) by (nonlinear_arith)
            requires
                0 < len <= 0x4000_0000,
        ;
        assert((a * a) * (4 * len * len - n) <= 0x4000_0000_0000_0000 * 0x4000_0000_0000_0000)
            by (nonlinear_arith)
            requires
                0 <= a * a <= 0x4000_0000_0000_0000,
                0 <= 4 * len * len - n <= 0x4000_0000_0000_0000,
        ;
        assert(a * a * (4 * len * len - n) == c * c * (4 * len * len - n)) by (nonlinear_arith)
            requires
                a * a == c * c,
        ;
        assert(0 <= (a * a) * (4 * len * len - n)) by (nonlinear_arith)
            requires
                0 <= a * a,
                0 <= 4 * len * len - n,
        ;
    }
    let square: u128 = a * a;
    let span: u128 = 4 * (len as u128) * (len as u128) - n;
    let q: u128 = (square * span) / n;
    sqrt_floor(q) as i128
}

/// What an arm turns toward on a tick. With a target it is the pose in
/// which the hand is on the target, or as near to it as the arm reaches;
/// without one it is the pose in which the arm hangs.
pub fn arm_goal(target: CixArmTarget, len: i64, side: i64) -> (goal: ArmGoal)
    requires
        0 < len <= CixArm::MAX_LENGTH,
        side == 1 || side == -1,
        target.0 is Some ==> target.0->Some_0.bounded(),
    ensures
        goal == arm_goal_spec(target, len, side),
        target.0 is Some ==> goal.joint.x == elbow(
            target.0->Some_0.x as int,
            target.0->Some_0.y as int,
            len as int,
            side as int,
        ).0 && goal.joint.y == elbow(
            target.0->Some_0.x as int,
            target.0->Some_0.y as int,
            len as int,
            side as int,
        ).1,
        target.0 is None ==> goal.joint.x == idle_elbow(len as int, side as int).0 && goal.joint.y
            == idle_elbow(len as int, side as int).1 && goal.end.y == goal.joint.y - len,
{
    match target.0 {
        Some(t) => {
            let ax: u128 = magnitude(t.x);
            let ay: u128 = magnitude(t.y);
            proof {
                assert(ax * ax == t.x * t.x) by (nonlinear_arith)
                    requires
                        ax == t.x || ax == -t.x,
                ;
                assert(ay * ay == t.y * t.y) by (nonlinear_arith)
                    requires
                        ay == t.y || ay == -t.y,
                ;
                crate::fixed::lemma_square_monotonic(ax as int, crate::fixed::LIMIT as int);
                crate::fixed::lemma_square_monotonic(ay as int, crate::fixed::LIMIT as int);
                assert(crate::fixed::LIMIT * crate::fixed::LIMIT
                    == 0x1_0000_0000_0000_0000_0000int) by (nonlinear_arith)
                    requires
                        crate::fixed::LIMIT == 0x100_0000_0000,
                ;
                assert(4 * len * len <= 0x4000_0000_0000_0000) by (nonlinear_arith)
                    requires
                        0 < len <= 0x4000_0000,
                ;
                assert(0 < 4 * len * len) by (nonlinear_arith)
                    requires
                        0 < len,
                ;
            }
            let n: u128 = ax * ax + ay * ay;
            let reach: u128 = 4 * (len as u128) * (len as u128);
            let joint: Vec2 = if n == 0 {
                Vec2 { x: 0, y: -len }
            } else if n <= reach {
                let bx: i128 = bend_of(t.y, len, n);
                let by: i128 = bend_of(t.x, len, n);
                let twice_x: i128 = (t.x as i128) + toward(side, t.y, bx);
                let twice_y: i128 = (t.y as i128) - toward(side, t.x, by);
                Vec2 { x: (twice_x / 2) as i64, y: (twice_y / 2) as i64 }
            } else {
                let far: u64 = sqrt_floor(n);
                proof {
                    assert(far >= 1) by {
                        if far == 0 {
                            assert((far + 1) * (far + 1) == 1) by (nonlinear_arith)
                                requires
                                    far == 0,
                            ;
                        }
                    }
                    if ax > far {
                        crate::fixed::lemma_square_monotonic(far + 1, ax as int);
                    }
                    if ay > far {
                        crate::fixed::lemma_square_monotonic(far + 1, ay as int);
                    }
                    crate::fixed::lemma_product_bound(t.x as int, len as int, far as int, len as int);
                    crate::fixed::lemma_product_bound(t.y as int, len as int, far as int, len as int);
                    crate::fixed::lemma_trunc_div_monotonic(t.x * len, far * len, far as int);
                    crate::fixed::lemma_trunc_div_monotonic(-(far * len), t.x * len, far as int);
                    crate::fixed::lemma_trunc_div_monotonic(t.y * len, far * len, far as int);
                    crate::fixed::lemma_trunc_div_monotonic(-(far * len), t.y * len, far as int);
                    assert(trunc_div(far * len, far as int) == len && trunc_div(
                        -(far * len),
                        far as int,
                    ) == -len) by (nonlinear_arith)
                        requires
                            far >= 1,
                            len > 0,
                    ;
                    assert(far * len <= 0x8000_0000_0000_0000 * 0x4000_0000) by (nonlinear_arith)
                        requires
                            0 <= far < 0x8000_0000_0000_0000,
                            0 < len <= 0x4000_0000,
                    ;
                }
                Vec2 {
                    x: (((t.x as i128) * (len as i128)) / (far as i128)) as i64,
                    y: (((t.y as i128) * (len as i128)) / (far as i128)) as i64,
                }
            };
            ArmGoal { joint, end: t, speed: CixArm::TURN_SPEED_ACTIVE }
        },
        None => {
            proof {
                crate::fixed::lemma_fx_mul_fraction(len as int, CixArm::IDLE_LEAN as int);
                crate::fixed::lemma_fx_mul_fraction(len as int, CixArm::IDLE_DROP as int);
                assert(CixArm::IDLE_LEAN * len == len * CixArm::IDLE_LEAN) by (nonlinear_arith);
                assert(CixArm::IDLE_DROP * len == len * CixArm::IDLE_DROP) by (nonlinear_arith);
                assert(0 <= CixArm::IDLE_LEAN * len <= 173_648 * 0x4000_0000) by (nonlinear_arith)
                    requires
                        CixArm::IDLE_LEAN == 173_648,
                        0 < len <= 0x4000_0000,
                ;
                assert(0 <= CixArm::IDLE_DROP * len <= 984_808 * 0x4000_0000) by (nonlinear_arith)
                    requires
                        CixArm::IDLE_DROP == 984_808,
                        0 < len <= 0x4000_0000,
                ;
            }
            let lean: i64 = (CixArm::IDLE_LEAN * len) / ONE;
            let drop: i64 = (CixArm::IDLE_DROP * len) / ONE;
            let across: i64 = if side == 1 {
                -lean
            } else {
                lean
            };
            proof {
                assert(across == -side * lean) by (nonlinear_arith)
                    requires
                        (side == 1 && across == -lean) || (side == -1 && across == lean),
                ;
            }
            let joint: Vec2 = Vec2 { x: across, y: -drop };
            ArmGoal {
                joint,
                end: Vec2 { x: joint.x, y: joint.y - len },
                speed: CixArm::TURN_SPEED_PASSIVE,
            }
        },
    }
}

/// Gathers the children of an arm into the pair of its segments. This
/// calls `collect` into a `SmallVec` with room for two, and then
/// `SmallVec::into_inner`, which hands out the array only where the
/// vector holds exactly as many items as the array and never grew beyond
/// it. A vector gathered from a sequence of known length grows beyond its
/// room exactly where the sequence is longer, so the pair comes out for
/// two children and for no other number, in their order.
#[verifier::external_body]
fn collect_segments(children: &Vec<u64>) -> (pair: Option<[u64; 2]>)
    ensures
        pair is Some <==> children.len() == 2,
        pair is Some ==> pair->Some_0[0] == children[0] && pair->Some_0[1] == children[1],
{
    children.iter().copied().collect::<SmallVec<[u64; 2]>>().into_inner().ok()
}

/// The two segments of an arm, the upper one first, given the entities
/// that hang on the arm. Only an arm with exactly two has any.
pub fn arm_segments(children: &Vec<u64>) -> (pair: Option<(u64, u64)>)
    ensures
        pair is Some <==> children.len() == 2,
        pair is Some ==> pair->Some_0.0 == children[0] && pair->Some_0.1 == children[1],
{
    match collect_segments(children) {
        Some(pair) => Some((pair[0], pair[1])),
        None => None,
    }
}

/// How much of the way to its goal an arm turns on a tick that lasts
/// `delta`: `speed` for a sixtieth of a second or more, and in proportion
/// for less.
pub open spec fn turn_rate(speed: int, delta: int) -> int {
    fx_mul(
        speed,
        if 60 * delta < ONE {
            60 * delta
        } else {
            ONE as int
        },
    )
}

/// The angle that the upper segment does not turn across: straight back,
/// which is half a turn while the pose is nearer to facing right, and
/// zero while it is nearer to facing left.
pub open spec fn arm_wall(dir: CixDirection) -> int {
    if dir.facing_spec() >= ONE / 2 {
        HALF_TURN as int
    } else {
        0
    }
}

/// What an arm does on a tick, before any angle is measured: where its
/// shoulder sits across the body, what it turns toward and how much of the
/// way, the angle that its upper segment does not turn across, and how its
/// sprites are drawn.
#[derive(Clone, Copy, Debug, PartialEq, Eq, Structural)]
pub struct ArmPlan {
    pub goal: ArmGoal,
    pub rate: i64,
    pub wall: i64,
    pub pose: TurnPose,
}

/// Plans the tick of one arm that lasts `delta`.
pub fn cix_update_arm_sys(arm: CixArm, target: CixArmTarget, dir: &CixDirection, delta: i64) -> (plan:
    ArmPlan)
    requires
        dir.wf(),
        delta >= 0,
        target.0 is Some ==> target.0->Some_0.bounded(),
    ensures
        plan.goal == arm_goal_spec(
            target,
            match arm {
                CixArm::Front => 32_000_000i64,
                CixArm::Back => 30_000_000i64,
            },
            if dir.flipped_spec() {
                -1i64
            } else {
                1i64
            },
        ),
        plan.rate == turn_rate(plan.goal.speed as int, delta as int),
        0 <= plan.rate <= plan.goal.speed,
        plan.wall == arm_wall(*dir),
        plan.pose.x == turn_x(
            *dir,
            match arm {
                CixArm::Front => -3_000_000int,
                CixArm::Back => 6_000_000int,
            },
        ),
        plan.pose.scale == turn_scale(*dir),
        plan.pose.flip == dir.flipped_spec(),
{
    let goal: ArmGoal = arm_goal(target, arm.length(), dir.sign());
    let frame: i64 = if delta < ONE / 60 + 1 {
        60 * delta
    } else {
        ONE
    };
    let frame: i64 = if frame < ONE {
        frame
    } else {
        ONE
    };
    proof {
        crate::fixed::lemma_fx_mul_fraction(goal.speed as int, frame as int);
        assert(0 <= goal.speed * frame <= 670_000 * ONE) by (nonlinear_arith)
            requires
                0 <= goal.speed <= 670_000,
                0 <= frame <= ONE,
        ;
    }
    let rate: i64 = (goal.speed * frame) / ONE;
    let wall: i64 = if dir.facing() >= ONE / 2 {
        HALF_TURN
    } else {
        0
    };
    ArmPlan { goal, rate, wall, pose: turn_pose(dir, arm.offset().x) }
}

/// The turn of the elbow round the shoulder on a tick: the part `rate` of
/// the turn from the angle `cur` of the elbow to the angle `goal` of its
/// goal, taken the way that does not cross `wall`.
pub open spec fn joint_turn(cur: int, goal: int, wall: int, rate: int) -> int {
    fx_mul(dist_avoid(cur, goal, wall), rate)
}

/// The turn of the elbow round the shoulder on a tick.
pub fn arm_joint_turn(cur: i64, goal: i64, wall: i64, rate: i64) -> (turn: i64)
    requires
        0 <= rate <= ONE,
    ensures
        turn == joint_turn(cur as int, goal as int, wall as int, rate as int),
        abs(turn as int) <= abs(dist_avoid(cur as int, goal as int, wall as int)),
{
    let whole: i64 = cur.angle_dist_avoid(goal, wall);
    proof {
        crate::fixed::lemma_fx_mul_fraction(whole as int, rate as int);
        crate::fixed::lemma_product_bound(
            whole as int,
            rate as int,
            FULL_TURN as int,
            ONE as int,
        );
    }
    (((whole as i128) * (rate as i128)) / (ONE as i128)) as i64
}

/// The angle of the lower segment after a tick: from its angle `from` it
/// turns the part `rate` of the way to the angle `to` of the line from
/// the elbow to the hand, and never folds back across the upper segment,
/// whose angle is `upper`. The result lies in `[0, FULL_TURN)`.
pub open spec fn lower_angle(from: int, to: int, upper: int, rate: int) -> int {
    wrap(from + fx_mul(dist_avoid(from, to, upper + HALF_TURN), rate))
}

/// A wall counts by its place on the circle alone.
pub proof fn lemma_dist_avoid_wall_wrapped(from: int, to: int, wall: int, other: int)
    requires
        wrap(wall) == wrap(other),
    ensures
        dist_avoid(from, to, wall) == dist_avoid(from, to, other),
{
    lemma_arc_wrapped(from, wall);
    lemma_arc_wrapped(from, other);
}

/// The angle of the lower segment after a tick.
pub fn arm_lower_angle(from: i64, to: i64, upper: i64, rate: i64) -> (angle: i64)
    requires
        0 <= rate <= ONE,
    ensures
        angle == lower_angle(from as int, to as int, upper as int, rate as int),
        0 <= angle < FULL_TURN,
{
    let wall: i64 = upper.angle_wrap() + HALF_TURN;
    let whole: i64 = from.angle_dist_avoid(to, wall);
    proof {
        lemma_dist_avoid_wall_wrapped(from as int, to as int, wall as int, upper + HALF_TURN);
        crate::fixed::lemma_fx_mul_fraction(whole as int, rate as int);
        crate::fixed::lemma_product_bound(
            whole as int,
            rate as int,
            FULL_TURN as int,
            ONE as int,
        );
    }
    let part: i64 = (((whole as i128) * (rate as i128)) / (ONE as i128)) as i64;
    proof {
        lemma_wrap_shift(from as int, part as int);
    }
    (from.angle_wrap() + part).angle_wrap()
}

/// Wrapping an angle before a turn is added changes nothing once the sum
/// is wrapped.
pub proof fn lemma_wrap_shift(a: int, k: int)
    ensures
        wrap(wrap(a) + k) == wrap(a + k),
{
    vstd::arithmetic::div_mod::lemma_add_mod_noop(a, k, FULL_TURN as int);
    vstd::arithmetic::div_mod::lemma_add_mod_noop(wrap(a), k, FULL_TURN as int);
    vstd::arithmetic::div_mod::lemma_mod_twice(a, FULL_TURN as int);
}

/// The angle of the elbow after `ticks` ticks that each turn it the part
/// `rate` of the way from where it is to `goal`.
pub open spec fn turned(cur: int, goal: int, wall: int, rate: int, ticks: nat) -> int
    decreases ticks,
{
    if ticks == 0 {
        cur
    } else {
        let before = turned(cur, goal, wall, rate, (ticks - 1) as nat);
        before + joint_turn(before, goal, wall, rate)
    }
}

/// A tick never turns the elbow past its goal: the turn that is left
/// after it is the turn that was left before, less the step. With the
/// whole way taken at once the elbow arrives.
pub proof fn lemma_joint_turn_closes(cur: int, goal: int, wall: int, rate: int)
    requires
        !wall_at_end(cur, goal, wall),
        0 <= rate <= ONE,
    ensures
        ({
            let left = dist_avoid(cur, goal, wall);
            let step = joint_turn(cur, goal, wall, rate);
            &&& !wall_at_end(cur + step, goal, wall)
            &&& dist_avoid(cur + step, goal, wall) == left - step
            &&& abs(left - step) <= abs(left)
            &&& rate == ONE ==> wrap(cur + step) == wrap(goal)
            &&& abs(left) * rate >= ONE ==> abs(left - step) < abs(left)
            &&& abs(left) * rate < ONE ==> step == 0
        }),
{
    let left = dist_avoid(cur, goal, wall);
    let step = joint_turn(cur, goal, wall, rate);
    crate::fixed::lemma_fx_mul_fraction(left, rate);
    lemma_dist_avoid_step(cur, goal, wall, step);
    if rate == ONE {
        crate::ext::lemma_dist_avoid_reaches(cur, goal, wall);
    }
    crate::fixed::lemma_trunc_div_bound(left * rate, ONE as int);
    assert(abs(left * rate) == abs(left) * rate) by (nonlinear_arith)
        requires
            rate >= 0,
    ;
}

/// Turning toward a goal that stays put comes to rest near it: after as
/// many ticks as the turn is long, what is left of the turn is too short
/// for a further step, so the elbow stays where it is, less than
/// `ONE / rate` from its goal.
pub proof fn lemma_turn_settles(cur: int, goal: int, wall: int, rate: int, ticks: nat)
    requires
        !wall_at_end(cur, goal, wall),
        0 < rate <= ONE,
        ticks >= abs(dist_avoid(cur, goal, wall)),
    ensures
        ({
            let rest = turned(cur, goal, wall, rate, ticks);
            &&& !wall_at_end(rest, goal, wall)
            &&& abs(dist_avoid(rest, goal, wall)) * rate < ONE
            &&& joint_turn(rest, goal, wall, rate) == 0
        }),
    decreases ticks,
{
    let left = dist_avoid(cur, goal, wall);
    lemma_joint_turn_closes(cur, goal, wall, rate);
    if abs(left) * rate < ONE {
        lemma_turn_rests(cur, goal, wall, rate, ticks);
    } else {
        assert(ticks > 0) by (nonlinear_arith)
            requires
                abs(left) * rate >= ONE,
                ticks >= abs(left),
                rate > 0,
        ;
        let next = cur + joint_turn(cur, goal, wall, rate);
        lemma_turn_shifts(cur, goal, wall, rate, (ticks - 1) as nat);
        lemma_turn_settles(next, goal, wall, rate, (ticks - 1) as nat);
    }
}

/// Turning for one tick and then for `ticks` more is turning for
/// `ticks + 1`.
proof fn lemma_turn_shifts(cur: int, goal: int, wall: int, rate: int, ticks: nat)
    ensures
        turned(cur + joint_turn(cur, goal, wall, rate), goal, wall, rate, ticks) == turned(
            cur,
            goal,
            wall,
            rate,
            (ticks + 1) as nat,
        ),
    decreases ticks,
{
    let next = cur + joint_turn(cur, goal, wall, rate);
    assert(turned(cur, goal, wall, rate, 0) == cur);
    if ticks > 0 {
        lemma_turn_shifts(cur, goal, wall, rate, (ticks - 1) as nat);
        assert(turned(next, goal, wall, rate, (ticks - 1) as nat) == turned(
            cur,
            goal,
            wall,
            rate,
            ticks,
        ));
    }
}

/// An elbow that is too near its goal for a step stays where it is.
proof fn lemma_turn_rests(cur: int, goal: int, wall: int, rate: int, ticks: nat)
    requires
        joint_turn(cur, goal, wall, rate) == 0,
    ensures
        turned(cur, goal, wall, rate, ticks) == cur,
    decreases ticks,
{
    if ticks > 0 {
        lemma_turn_rests(cur, goal, wall, rate, (ticks - 1) as nat);
    }
}

} // verus!
