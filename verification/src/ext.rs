//! Angle arithmetic on a circle and linear blends.
//!
//! Angles are counted in millionths of a degree. A positive distance turns
//! counter-clockwise, toward larger angles.
use vstd::prelude::*;
use crate::fixed::{fits, fx_mul, Vec2, ONE};

verus! {

/// A full revolution.
pub const FULL_TURN: i64 = 360_000_000;

/// Half a revolution.
pub const HALF_TURN: i64 = 180_000_000;

/// Two revolutions: the circumference of the circle on which doubled
/// angles live.
pub const TWO_TURNS: i64 = 720_000_000;

/// The angle `a` brought into `[0, FULL_TURN)`.
pub open spec fn wrap(a: int) -> int {
    a % (FULL_TURN as int)
}

/// The length of the arc that leaves `from` counter-clockwise and ends at
/// `to`, in `[0, FULL_TURN)`.
pub open spec fn arc(from: int, to: int) -> int {
    (to - from) % (FULL_TURN as int)
}

/// The length of the shorter of the two arcs between `a` and `b`.
pub open spec fn dist(a: int, b: int) -> int {
    if arc(a, b) <= arc(b, a) {
        arc(a, b)
    } else {
        arc(b, a)
    }
}

/// The shortest turn from `from` to `to`, in `(-HALF_TURN, HALF_TURN]`:
/// positive where the counter-clockwise arc is the shorter one, and on a tie.
pub open spec fn signed_dist(from: int, to: int) -> int {
    if arc(from, to) <= HALF_TURN {
        arc(from, to)
    } else {
        arc(from, to) - FULL_TURN
    }
}

/// Whether a step from the wrapped angle `angle` toward the wrapped angle
/// `to` goes clockwise. Opposite angles are approached from the outside:
/// the larger of the two steps up, the smaller steps down.
pub open spec fn steps_down(angle: int, to: int) -> bool {
    (angle > to && angle - to < HALF_TURN) || (angle < to && to - angle >= HALF_TURN)
}

/// The angle `a` moved by `speed` along the shorter arc toward `to`, or
/// `to` itself where it is less than `speed` away.
pub open spec fn move_toward(a: int, to: int, speed: int) -> int {
    if dist(a, to) < speed {
        to
    } else if steps_down(wrap(a), wrap(to)) {
        wrap(a) - speed
    } else {
        wrap(a) + speed
    }
}

/// The angle `a` kept within `range` of `dest`: unchanged where it is
/// that close, else moved toward `dest` by the excess.
pub open spec fn clamp_range(a: int, dest: int, range: int) -> int {
    if dist(a, dest) <= range {
        a
    } else {
        move_toward(a, dest, dist(a, dest) - range)
    }
}

/// Whether `wall` falls on one of the two ends of a turn from `from` to `to`.
pub open spec fn wall_at_end(from: int, to: int, wall: int) -> bool {
    wrap(wall) == wrap(from) || wrap(wall) == wrap(to)
}

/// The signed turn from `from` to `to` along the arc that does not hold
/// `wall`. Where `wall` sits on an end of the turn, the result is as long
/// as the shorter arc and points away from `to`.
pub open spec fn dist_avoid(from: int, to: int, wall: int) -> int {
    if wall_at_end(from, to, wall) {
        if arc(to, from) < arc(from, to) {
            arc(to, from)
        } else {
            -arc(from, to)
        }
    } else if arc(from, wall) < arc(from, to) {
        -arc(to, from)
    } else {
        arc(from, to)
    }
}

/// The signed length of the other arc: the turn that ends where a turn by
/// `turn` ends, but goes round the opposite way.
pub open spec fn other_way(turn: int) -> int {
    if turn > 0 {
        turn - FULL_TURN
    } else {
        turn + FULL_TURN
    }
}

/// Twice the distance between `wall` and the midpoint of the turn that
/// starts at `from` and covers `turn`. The doubling keeps the midpoint of
/// an odd turn exact.
pub open spec fn midpoint_gap(from: int, turn: int, wall: int) -> int {
    let up = (2 * wall - 2 * from - turn) % (TWO_TURNS as int);
    if up <= FULL_TURN {
        up
    } else {
        TWO_TURNS - up
    }
}

/// An arc between two angles is the difference of their wrapped values,
/// taken round the circle once where it would be negative.
pub proof fn lemma_arc_wrapped(from: int, to: int)
    ensures
        0 <= arc(from, to) < FULL_TURN,
        arc(from, to) == if wrap(to) >= wrap(from) {
            wrap(to) - wrap(from)
        } else {
            wrap(to) - wrap(from) + FULL_TURN
        },
        arc(from, to) == arc(wrap(from), wrap(to)),
        wrap(from) == wrap(to) ==> arc(from, to) == 0 && arc(to, from) == 0,
        wrap(from) != wrap(to) ==> arc(from, to) + arc(to, from) == FULL_TURN,
{
}

/// A counter-clockwise step of `k` along an arc shortens it by `k`.
pub proof fn lemma_arc_step(from: int, to: int, k: int)
    requires
        0 <= k <= arc(from, to),
    ensures
        arc(from + k, to) == arc(from, to) - k,
        arc(to, from + k) == if k == arc(from, to) {
            0
        } else {
            arc(to, from) + k
        },
{
    lemma_arc_wrapped(from, to);
    lemma_arc_wrapped(from + k, to);
    lemma_arc_wrapped(to, from + k);
}

/// A clockwise step of `k` along an arc shortens it by `k`.
pub proof fn lemma_arc_step_back(from: int, to: int, k: int)
    requires
        0 <= k <= arc(to, from),
    ensures
        arc(to, from - k) == arc(to, from) - k,
        arc(from - k, to) == if k == arc(to, from) {
            0
        } else {
            arc(from, to) + k
        },
{
    lemma_arc_wrapped(from, to);
    lemma_arc_wrapped(from - k, to);
    lemma_arc_wrapped(to, from - k);
}

/// A step toward an angle that does not overshoot brings it closer by the
/// length of the step.
pub proof fn lemma_move_toward_closes(a: int, to: int, speed: int)
    requires
        0 <= speed <= dist(a, to),
    ensures
        dist(move_toward(a, to, speed), to) == dist(a, to) - speed,
{
    lemma_arc_wrapped(a, to);
    lemma_arc_wrapped(to, a);
    let angle = wrap(a);
    let goal = wrap(to);
    if dist(a, to) < speed {
    } else if steps_down(angle, goal) {
        lemma_arc_wrapped(to, angle);
        lemma_arc_wrapped(angle, to);
        lemma_arc_step_back(angle, to, speed);
    } else {
        lemma_arc_wrapped(to, angle);
        lemma_arc_wrapped(angle, to);
        lemma_arc_step(angle, to, speed);
    }
}

/// A turn that avoids the wall is shorter than a full revolution.
pub proof fn lemma_dist_avoid_bounded(from: int, to: int, wall: int)
    ensures
        -FULL_TURN < dist_avoid(from, to, wall) < FULL_TURN,
{
    lemma_arc_wrapped(from, to);
    lemma_arc_wrapped(to, from);
}

/// A turn that avoids a wall lying strictly between its ends arrives at
/// the target angle.
pub proof fn lemma_dist_avoid_reaches(from: int, to: int, wall: int)
    requires
        !wall_at_end(from, to, wall),
    ensures
        wrap(from + dist_avoid(from, to, wall)) == wrap(to),
{
    lemma_arc_wrapped(from, to);
    lemma_arc_wrapped(to, from);
}

/// A turn that avoids the wall never sweeps across it: no angle strictly
/// inside the turn coincides with the wall.
pub proof fn lemma_dist_avoid_clear(from: int, to: int, wall: int, k: int)
    requires
        !wall_at_end(from, to, wall),
        0 < k < dist_avoid(from, to, wall) || dist_avoid(from, to, wall) < k < 0,
    ensures
        wrap(from + k) != wrap(wall),
{
    lemma_arc_wrapped(from, to);
    lemma_arc_wrapped(to, from);
    lemma_arc_wrapped(from, wall);
    if k > 0 {
        lemma_arc_step(from, to, k);
        lemma_arc_wrapped(from, from + k);
        assert(arc(from, from + k) == k);
    } else {
        lemma_arc_step_back(from, to, -k);
        lemma_arc_wrapped(from + k, from);
        assert(arc(from + k, from) == -k);
        lemma_arc_wrapped(from, from + k);
    }
}

/// Part of a turn that avoids the wall leaves the rest of the same turn:
/// after any step along it, the avoiding turn to the target is what remains.
pub proof fn lemma_dist_avoid_step(from: int, to: int, wall: int, k: int)
    requires
        !wall_at_end(from, to, wall),
        0 <= k <= dist_avoid(from, to, wall) || dist_avoid(from, to, wall) <= k <= 0,
    ensures
        !wall_at_end(from + k, to, wall),
        dist_avoid(from + k, to, wall) == dist_avoid(from, to, wall) - k,
{
    let d = dist_avoid(from, to, wall);
    lemma_arc_wrapped(from, to);
    lemma_arc_wrapped(to, from);
    lemma_arc_wrapped(from, wall);
    lemma_arc_wrapped(from + k, to);
    lemma_arc_wrapped(to, from + k);
    lemma_arc_wrapped(from + k, wall);
    if k != 0 && k != d {
        lemma_dist_avoid_clear(from, to, wall, k);
    }
    if k == d {
        lemma_dist_avoid_reaches(from, to, wall);
    }
    if k > 0 {
        lemma_arc_step(from, to, k);
        lemma_arc_step(from, wall, k);
    } else if k < 0 {
        lemma_arc_step_back(from, to, -k);
        lemma_arc_wrapped(wall, from);
        lemma_arc_wrapped(wall, from + k);
    }
}

/// The midpoints of a turn and of the same turn taken the other way round
/// lie opposite each other, so their distances to any angle add up to half
/// a revolution.
pub proof fn lemma_midpoints_opposite(from: int, turn: int, wall: int)
    ensures
        0 <= midpoint_gap(from, turn, wall) <= FULL_TURN,
        midpoint_gap(from, turn, wall) + midpoint_gap(from, other_way(turn), wall) == FULL_TURN,
{
}

/// Where the wall lies within a quarter of a revolution of the midpoint of
/// the arc that was not taken, the midpoint of the avoiding turn is at
/// least as far from the wall as that midpoint is.
pub proof fn lemma_dist_avoid_midpoint(from: int, to: int, wall: int)
    requires
        midpoint_gap(from, other_way(dist_avoid(from, to, wall)), wall) <= HALF_TURN,
    ensures
        midpoint_gap(from, dist_avoid(from, to, wall), wall) >= midpoint_gap(
            from,
            other_way(dist_avoid(from, to, wall)),
            wall,
        ),
        crate::fixed::abs(dist_avoid(from, to, wall)) <= FULL_TURN,
{
    lemma_dist_avoid_bounded(from, to, wall);
    lemma_midpoints_opposite(from, dist_avoid(from, to, wall), wall);
}

/// The distance from the wall to the midpoint of a turn depends on the
/// wall only through its arc from the start of the turn.
proof fn lemma_midpoint_gap_arc(from: int, turn: int, wall: int)
    ensures
        (2 * wall - 2 * from - turn) % (TWO_TURNS as int) == (2 * arc(from, wall) - turn) % (
        TWO_TURNS as int),
{
    let x = wall - from;
    let q = x / (FULL_TURN as int);
    let near = x % (FULL_TURN as int);
    assert(x == FULL_TURN * q + near);
    assert(2 * wall - 2 * from - turn == TWO_TURNS * q + (2 * near - turn));
    vstd::arithmetic::div_mod::lemma_mod_multiples_vanish(q, 2 * near - turn, TWO_TURNS as int);
}

/// Where the avoiding turn is the longer way round, its midpoint is at
/// least as far from the wall as the midpoint of the shorter arc.
pub proof fn lemma_dist_avoid_detour(from: int, to: int, wall: int)
    requires
        !wall_at_end(from, to, wall),
        crate::fixed::abs(dist_avoid(from, to, wall)) >= HALF_TURN,
    ensures
        midpoint_gap(from, dist_avoid(from, to, wall), wall) >= midpoint_gap(
            from,
            other_way(dist_avoid(from, to, wall)),
            wall,
        ),
{
    let d = dist_avoid(from, to, wall);
    let other = other_way(d);
    lemma_arc_wrapped(from, to);
    lemma_arc_wrapped(to, from);
    lemma_arc_wrapped(from, wall);
    lemma_midpoints_opposite(from, d, wall);
    lemma_midpoint_gap_arc(from, other, wall);
    let near = arc(from, wall);
    let twice = 2 * near - other;
    if d > 0 {
        assert(d == arc(from, to));
        assert(d < near < FULL_TURN);
        assert(other == d - FULL_TURN);
        assert(FULL_TURN + d < twice < 3 * FULL_TURN - d);
        assert(twice % (TWO_TURNS as int) == if twice >= TWO_TURNS {
            twice - TWO_TURNS
        } else {
            twice
        });
    } else {
        assert(d == -arc(to, from));
        assert(0 < near < FULL_TURN + d);
        assert(other == d + FULL_TURN);
        assert(-d - FULL_TURN < twice < FULL_TURN + d);
        assert(twice % (TWO_TURNS as int) == if twice < 0 {
            twice + TWO_TURNS
        } else {
            twice
        });
    }
}

/// Keeping an angle within a cone turns it toward the centre along the
/// arc that stays clear of the far side: the turn has the direction of the
/// turn to the centre that avoids the angle opposite the centre, which is
/// the shortest one, and the length of the excess. An angle exactly
/// opposite the centre has no such side and is left out.
pub proof fn lemma_clamp_avoids_far_side(a: int, center: int, range: int)
    requires
        0 <= range < dist(a, center) < HALF_TURN,
    ensures
        ({
            let turn = dist_avoid(a, center, center + HALF_TURN);
            let excess = dist(a, center) - range;
            &&& turn == signed_dist(a, center)
            &&& crate::fixed::abs(turn) == dist(a, center)
            &&& clamp_range(a, center, range) == wrap(a) + if turn > 0 {
                excess
            } else {
                -excess
            }
            &&& dist(clamp_range(a, center, range), center) == range
        }),
{
    lemma_arc_wrapped(a, center);
    lemma_arc_wrapped(center, a);
    lemma_arc_wrapped(a, center + HALF_TURN);
    lemma_arc_wrapped(center, center + HALF_TURN);
    lemma_move_toward_closes(a, center, dist(a, center) - range);
}

/// Angle arithmetic for a number type that counts millionths of a degree.
pub trait AngleExt: Sized + Copy {
    /// The angle as a mathematical integer.
    spec fn units(self) -> int;

    /// Whether the type can store `v`.
    spec fn holds(v: int) -> bool;

    /// The angle brought into `[0, FULL_TURN)`.
    fn angle_wrap(self) -> (r: Self)
        ensures
            r.units() == wrap(self.units()),
            0 <= r.units() < FULL_TURN,
    ;

    /// The plain difference between two angles, without wrapping.
    fn angle_forward_dst(self, other: Self) -> (r: Self)
        requires
            Self::holds(self.units() - other.units()),
            Self::holds(other.units() - self.units()),
        ensures
            r.units() == crate::fixed::abs(self.units() - other.units()),
    ;

    /// What the plain difference between two angles leaves of a full
    /// revolution.
    fn angle_backward_dst(self, other: Self) -> (r: Self)
        requires
            Self::holds(self.units() - other.units()),
            Self::holds(other.units() - self.units()),
        ensures
            r.units() == FULL_TURN - crate::fixed::abs(self.units() - other.units()),
    ;

    /// The length of the shorter arc between two angles.
    fn angle_dist(self, other: Self) -> (r: Self)
        ensures
            r.units() == dist(self.units(), other.units()),
            0 <= r.units() <= HALF_TURN,
    ;

    /// The shortest signed turn from this angle to `to`.
    fn angle_signed_dist(self, to: Self) -> (r: Self)
        ensures
            r.units() == signed_dist(self.units(), to.units()),
            -HALF_TURN < r.units() <= HALF_TURN,
            crate::fixed::abs(r.units()) == dist(self.units(), to.units()),
            wrap(self.units() + r.units()) == wrap(to.units()),
    ;

    /// Moves by `speed` along the shorter arc toward `to`, and lands on
    /// `to` where it is less than `speed` away.
    fn angle_move_toward(self, to: Self, speed: Self) -> (r: Self)
        requires
            Self::holds(FULL_TURN - speed.units()),
        ensures
            r.units() == move_toward(self.units(), to.units(), speed.units()),
            0 <= speed.units() <= dist(self.units(), to.units()) ==> dist(
                r.units(),
                to.units(),
            ) == dist(self.units(), to.units()) - speed.units(),
    ;

    /// Keeps the angle within `range` of `dest`.
    fn angle_clamp_range(self, dest: Self, range: Self) -> (r: Self)
        ensures
            r.units() == clamp_range(self.units(), dest.units(), range.units()),
            dist(self.units(), dest.units()) <= range.units() ==> r == self,
            range.units() < 0 ==> r == dest,
            0 <= range.units() < dist(self.units(), dest.units()) ==> dist(
                r.units(),
                dest.units(),
            ) == range.units(),
    ;

    /// The signed turn to `to` along the arc that does not hold `wall`.
    fn angle_dist_avoid(self, to: Self, wall: Self) -> (r: Self)
        ensures
            r.units() == dist_avoid(self.units(), to.units(), wall.units()),
            -FULL_TURN < r.units() < FULL_TURN,
    ;
}

impl AngleExt for i64 {
    open spec fn units(self) -> int {
        self as int
    }

    open spec fn holds(v: int) -> bool {
        -i64::MAX <= v <= i64::MAX
    }

    fn angle_wrap(self) -> (r: Self) {
        (self % FULL_TURN + FULL_TURN) % FULL_TURN
    }

    fn angle_forward_dst(self, other: Self) -> (r: Self) {
        let d: i64 = self - other;
        if d < 0 {
            -d
        } else {
            d
        }
    }

    fn angle_backward_dst(self, other: Self) -> (r: Self) {
        FULL_TURN - self.angle_forward_dst(other)
    }

    fn angle_dist(self, other: Self) -> (r: Self) {
        let a: i64 = self.angle_wrap();
        let b: i64 = other.angle_wrap();
        let up: i64 = (b - a + FULL_TURN) % FULL_TURN;
        let down: i64 = (a - b + FULL_TURN) % FULL_TURN;
        proof {
            lemma_arc_wrapped(self as int, other as int);
            lemma_arc_wrapped(other as int, self as int);
        }
        if up <= down {
            up
        } else {
            down
        }
    }

    fn angle_signed_dist(self, to: Self) -> (r: Self) {
        let a: i64 = self.angle_wrap();
        let b: i64 = to.angle_wrap();
        let up: i64 = (b - a + FULL_TURN) % FULL_TURN;
        proof {
            lemma_arc_wrapped(self as int, to as int);
            lemma_arc_wrapped(to as int, self as int);
        }
        if up <= HALF_TURN {
            up
        } else {
            up - FULL_TURN
        }
    }

    fn angle_move_toward(self, to: Self, speed: Self) -> (r: Self) {
        if self.angle_dist(to) < speed {
            return to;
        }
        proof {
            if 0 <= speed {
                lemma_move_toward_closes(self as int, to as int, speed as int);
            }
        }
        let angle: i64 = self.angle_wrap();
        let goal: i64 = to.angle_wrap();
        if (angle > goal) == (angle.angle_backward_dst(goal) > angle.angle_forward_dst(goal)) {
            angle - speed
        } else {
            angle + speed
        }
    }

    fn angle_clamp_range(self, dest: Self, range: Self) -> (r: Self) {
        let dst: i64 = self.angle_dist(dest);
        if dst <= range {
            self
        } else if range < 0 {
            dest
        } else {
            self.angle_move_toward(dest, dst - range)
        }
    }

    fn angle_dist_avoid(self, to: Self, wall: Self) -> (r: Self) {
        let from: i64 = self.angle_wrap();
        let goal: i64 = to.angle_wrap();
        let block: i64 = wall.angle_wrap();
        let up: i64 = (goal - from + FULL_TURN) % FULL_TURN;
        let down: i64 = (from - goal + FULL_TURN) % FULL_TURN;
        let near: i64 = (block - from + FULL_TURN) % FULL_TURN;
        proof {
            lemma_arc_wrapped(self as int, to as int);
            lemma_arc_wrapped(to as int, self as int);
            lemma_arc_wrapped(self as int, wall as int);
            assert(up == arc(self as int, to as int));
            assert(down == arc(to as int, self as int));
            assert(near == arc(self as int, wall as int));
        }
        if block == from || block == goal {
            if down < up {
                down
            } else {
                -up
            }
        } else if near < up {
            -down
        } else {
            up
        }
    }
}

/// The value a fraction `f` of the way from `a` to `b`. A fraction below
/// zero or above one extrapolates.
pub open spec fn lerp_int(a: int, b: int, f: int) -> int {
    a + fx_mul(b - a, f)
}

/// A blend between the ends lies between them.
pub proof fn lemma_lerp_between(a: int, b: int, f: int)
    requires
        0 <= f <= ONE,
    ensures
        a <= b ==> a <= lerp_int(a, b, f) <= b,
        b <= a ==> b <= lerp_int(a, b, f) <= a,
        lerp_int(a, b, 0) == a,
        lerp_int(a, b, ONE as int) == b,
{
    crate::fixed::lemma_fx_mul_fraction(b - a, f);
    crate::fixed::lemma_fx_mul_fraction(b - a, 0);
    crate::fixed::lemma_fx_mul_fraction(b - a, ONE as int);
}

/// The blend of two 64-bit values, for operands whose blend can be stored.
pub fn lerp_units(a: i64, b: i64, f: i64) -> (r: i64)
    requires
        fits(lerp_int(a as int, b as int, f as int)),
    ensures
        r == lerp_int(a as int, b as int, f as int),
{
    let span: i128 = (b as i128) - (a as i128);
    proof {
        crate::fixed::lemma_product_bound(
            span as int,
            f as int,
            0x1_0000_0000_0000_0000,
            0x8000_0000_0000_0000,
        );
    }
    let part: i128 = (span * (f as i128)) / (ONE as i128);
    ((a as i128) + part) as i64
}

/// Linear blends between two values of a type.
pub trait LerpExt: Sized {
    /// Whether the blend of `self` and `dest` at `f` can be stored.
    spec fn lerp_fits(self, dest: Self, f: i64) -> bool;

    /// Whether `r` is the blend of `self` and `dest` at `f`.
    spec fn is_lerp(self, dest: Self, f: i64, r: Self) -> bool;

    /// The value a fraction `f` of the way from `self` to `dest`.
    fn lerp(self, dest: Self, f: i64) -> (r: Self)
        requires
            self.lerp_fits(dest, f),
        ensures
            self.is_lerp(dest, f, r),
    ;
}

impl LerpExt for i64 {
    open spec fn lerp_fits(self, dest: Self, f: i64) -> bool {
        fits(lerp_int(self as int, dest as int, f as int))
    }

    open spec fn is_lerp(self, dest: Self, f: i64, r: Self) -> bool {
        r == lerp_int(self as int, dest as int, f as int)
    }

    fn lerp(self, dest: Self, f: i64) -> (r: Self) {
        lerp_units(self, dest, f)
    }
}

impl LerpExt for Vec2 {
    open spec fn lerp_fits(self, dest: Self, f: i64) -> bool {
        fits(lerp_int(self.x as int, dest.x as int, f as int)) && fits(
            lerp_int(self.y as int, dest.y as int, f as int),
        )
    }

    open spec fn is_lerp(self, dest: Self, f: i64, r: Self) -> bool {
        r.x == lerp_int(self.x as int, dest.x as int, f as int) && r.y == lerp_int(
            self.y as int,
            dest.y as int,
            f as int,
        )
    }

    fn lerp(self, dest: Self, f: i64) -> (r: Self) {
        Vec2 { x: lerp_units(self.x, dest.x, f), y: lerp_units(self.y, dest.y, f) }
    }
}

} // verus!
