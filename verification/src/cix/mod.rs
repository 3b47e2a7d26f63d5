//! The character: where it stands, which way it faces, and the force that
//! keeps it hovering above the ground.
use vstd::prelude::*;
use crate::ext::{lerp_int, lerp_units};
use crate::fixed::{bounded, fx_mul, trunc_div, Vec2, ONE};

pub mod arm;
pub mod attack;
pub mod attire;
pub mod death;
pub mod input;
pub mod spawn;
pub mod spawner;

pub use arm::{
    arm_goal, arm_joint_turn, arm_lower_angle, arm_segments, cix_update_arm_sys, ArmGoal, ArmPlan,
    CixArm, CixArmTarget,
};
pub use attack::{
    arm_target, cix_attack_sys, cix_attack_update_sys, laser_beam, laser_damage, laser_muzzle,
    laser_shot, sort_hits, CixAim, CixAttack, CixAttackState, CixLaser, CixLaserChargeParticle,
    LaserBeam, LaserGlow, LaserHit, LaserShot,
};
pub use attire::{cix_direct_attire_sys, turn_pose, CixAttire, TurnPose};
pub use death::{cix_check_alive_sys, cix_respawn_sys};
pub use input::{
    cix_attack_input_sys, cix_flip_direction_sys, cix_jump_sys, cix_move_sys, coyote_granted,
    thrust_after, CixAction, CixJumpState, JumpPush, CIX_MOVE_SPEED, CIX_MOVE_VEL,
};
pub use spawn::{
    cix_init_spawn_sys, cix_update_spawn_sys, CixSpawn, CixSpawnParticle, CixSpawnPos,
};
pub use spawner::{cix_spawn, hang, shoulder, CixBody, CIX_HEALTH};

verus! {

/// The stages of the character's life.
#[derive(Clone, Copy, Debug, PartialEq, Eq, Hash, Structural)]
pub enum CixStates {
    Nonexistent,
    Spawning,
    Alive,
    Dead,
}

impl Default for CixStates {
    fn default() -> (s: Self)
        ensures
            s == CixStates::Nonexistent,
    {
        CixStates::Nonexistent
    }
}

/// The character itself.
#[derive(Clone, Copy, Debug)]
pub struct Cix;

impl Cix {
    /// How fast the head pulses.
    pub const WAVE_SCALE: i64 = 16_000_000;

    /// The smallest and the largest radius of the head.
    pub const RADIUS: (i64, i64) = (24_000_000, 26_000_000);

    /// The clearance above the ground at which the character counts as
    /// standing on it.
    pub const HOVER_RAY: i64 = 90_000_000;

    /// How far beyond `HOVER_RAY` the ground still holds the character up.
    pub const HOVER_TOLERANCE: i64 = 10_000_000;

    /// The acceleration with which the hover force answers a clearance
    /// error. It is a constant of the controller, not the gravity of the
    /// world the character lives in.
    pub const HOVER_ACCEL: i64 = 9_810_000;
}

/// Whether the character stands on the ground.
#[derive(Clone, Copy, Debug, PartialEq, Eq, Structural)]
pub struct CixGrounded(pub bool);

/// Whether the ground is near enough to hold the character up.
#[derive(Clone, Copy, Debug, PartialEq, Eq, Structural)]
pub struct CixHovered(pub bool);

/// When the character left the ground, while it is off it.
#[derive(Clone, Copy, Debug, PartialEq, Eq, Structural)]
pub struct CixLastGrounded(pub Option<i64>);

/// Which way the character faces, and how far the turn toward that side
/// has come: `progress` runs from zero, the mirrored pose, to `ONE`.
#[derive(Clone, Copy, Debug, PartialEq, Eq, Structural)]
pub struct CixDirection {
    pub right: bool,
    pub progress: i64,
}

/// The smoothstep curve `p * p * (3 - 2 * p)` on fixed-point fractions,
/// rounded down.
pub open spec fn ease(p: int) -> int {
    trunc_div(ease_numerator(p), ONE * ONE)
}

/// The smoothstep curve before it is scaled back and rounded: `ease` is
/// this value divided by `ONE * ONE`.
pub open spec fn ease_numerator(p: int) -> int {
    p * p * (3 * ONE - 2 * p)
}

/// The numerator of the curve grows with its argument and stays within
/// the cube of `ONE`.
pub proof fn lemma_ease_numerator(p: int, q: int)
    by (nonlinear_arith)
    requires
        0 <= p <= q <= ONE,
    ensures
        0 <= ease_numerator(p) <= ease_numerator(q) <= ONE * ONE * ONE,
{
    let s = ONE as int;
    assert(ease_numerator(q) - ease_numerator(p) == (q - p) * (3 * s * (q + p) - 2 * (q * q + q * p
        + p * p)));
    assert(3 * s * (q + p) >= 3 * q * (q + p));
    assert(3 * q * (q + p) - 2 * (q * q + q * p + p * p) == q * q + q * p - 2 * p * p);
    assert(q * q >= p * p);
    assert(q * p >= p * p);
    assert(ease_numerator(s) == s * s * s);
}

/// The curve rises from zero to one, never falls, and crosses one half
/// exactly at one half.
pub proof fn lemma_ease_shape(p: int, q: int)
    requires
        0 <= p <= q <= ONE,
    ensures
        0 <= ease(p) <= ease(q) <= ONE,
        ease(0) == 0,
        ease(ONE as int) == ONE,
        ease(ONE / 2) == ONE / 2,
        p < ONE / 2 ==> ease(p) < ONE / 2,
        p > ONE / 2 ==> ease(p) > ONE / 2,
{
    let s = ONE as int;
    let ss = ONE * ONE;
    lemma_ease_numerator(p, q);
    lemma_ease_numerator(0, p);
    crate::fixed::lemma_trunc_div_monotonic(ease_numerator(p), ease_numerator(q), ss);
    crate::fixed::lemma_trunc_div_monotonic(0, ease_numerator(p), ss);
    crate::fixed::lemma_trunc_div_monotonic(ease_numerator(q), s * s * s, ss);
    assert(s * s * s == 1_000_000_000_000_000_000);
    assert(ss == 1_000_000_000_000);
    assert(ease_numerator(0) == 0);
    assert(ease_numerator(500_000) == 500_000_000_000_000_000) by (nonlinear_arith)
        requires
            ONE == 1_000_000,
    ;
    assert(ease_numerator(499_999) == 499_998_500_000_000_002) by (nonlinear_arith)
        requires
            ONE == 1_000_000,
    ;
    assert(ease_numerator(500_001) == 500_001_499_999_999_998) by (nonlinear_arith)
        requires
            ONE == 1_000_000,
    ;
    if p < ONE / 2 {
        lemma_ease_numerator(p, 499_999);
        crate::fixed::lemma_trunc_div_monotonic(ease_numerator(p), ease_numerator(499_999), ss);
    }
    if p > ONE / 2 {
        lemma_ease_numerator(500_001, p);
        crate::fixed::lemma_trunc_div_monotonic(ease_numerator(500_001), ease_numerator(p), ss);
    }
}

impl CixDirection {
    /// How much of a turn one second brings.
    pub const TURN_SPEED: i64 = 3_200_000;

    /// The progress is a fraction between zero and one.
    pub open spec fn wf(self) -> bool {
        0 <= self.progress <= ONE
    }

    /// The eased progress of the turn.
    pub open spec fn eased_spec(self) -> int {
        ease(self.progress as int)
    }

    /// How far the pose has come toward facing right: the eased progress
    /// while turning right, its complement while turning left.
    pub open spec fn facing_spec(self) -> int {
        if self.right {
            self.eased_spec()
        } else {
            ONE - self.eased_spec()
        }
    }

    /// Whether sprites are mirrored: the pose is nearer to facing left.
    pub open spec fn flipped_spec(self) -> bool {
        self.facing_spec() < ONE / 2
    }

    /// Where limbs and attire sit across the body, from `-ONE` for fully
    /// mirrored to `ONE` for fully in place.
    pub open spec fn anchor_spec(self) -> int {
        if self.right {
            2 * self.eased_spec() - ONE
        } else {
            ONE - 2 * self.eased_spec()
        }
    }

    /// How far the turn is from either of its ends, from zero at the ends
    /// to `ONE` at the middle of the turn.
    pub open spec fn turning_spec(self) -> int {
        let e = self.eased_spec();
        if e <= ONE / 2 {
            2 * e
        } else {
            2 * (ONE - e)
        }
    }

    /// The progress after `delta` of clock time: a turn under way goes on
    /// at `TURN_SPEED` and stops at `ONE`.
    pub open spec fn progress_after(self, delta: int) -> int {
        if self.progress < ONE {
            let next = self.progress + fx_mul(delta, Self::TURN_SPEED as int);
            if next < ONE {
                next
            } else {
                ONE as int
            }
        } else {
            self.progress as int
        }
    }

    /// The eased progress of the turn.
    pub fn eased(self) -> (e: i64)
        requires
            self.wf(),
        ensures
            e == self.eased_spec(),
            0 <= e <= ONE,
    {
        proof {
            lemma_ease_shape(self.progress as int, self.progress as int);
            lemma_ease_numerator(self.progress as int, self.progress as int);
            assert(ONE * ONE * ONE == 1_000_000_000_000_000_000);
            assert(0 <= self.progress * self.progress <= ONE * ONE) by (nonlinear_arith)
                requires
                    0 <= self.progress <= ONE,
            ;
        }
        let p: i128 = self.progress as i128;
        let square: i128 = p * p;
        let numerator: i128 = square * (3 * (ONE as i128) - 2 * p);
        (numerator / ((ONE as i128) * (ONE as i128))) as i64
    }

    /// How far the pose has come toward facing right.
    pub fn facing(self) -> (f: i64)
        requires
            self.wf(),
        ensures
            f == self.facing_spec(),
            0 <= f <= ONE,
    {
        if self.right {
            self.eased()
        } else {
            ONE - self.eased()
        }
    }

    /// Whether sprites are mirrored.
    pub fn flipped(self) -> (f: bool)
        requires
            self.wf(),
        ensures
            f == self.flipped_spec(),
            f == if self.right {
                self.progress < ONE / 2
            } else {
                self.progress > ONE / 2
            },
    {
        proof {
            lemma_ease_shape(self.progress as int, self.progress as int);
        }
        self.facing() < ONE / 2
    }

    /// The side toward which a bent limb points: `-1` while mirrored,
    /// else `1`.
    pub fn sign(self) -> (s: i64)
        requires
            self.wf(),
        ensures
            s == if self.flipped_spec() {
                -1int
            } else {
                1int
            },
    {
        if self.flipped() {
            -1
        } else {
            1
        }
    }

    /// Where limbs and attire sit across the body.
    pub fn anchor(self) -> (a: i64)
        requires
            self.wf(),
        ensures
            a == self.anchor_spec(),
            -ONE <= a <= ONE,
    {
        let e: i64 = self.eased();
        if self.right {
            2 * e - ONE
        } else {
            ONE - 2 * e
        }
    }

    /// How far the turn is from either of its ends.
    pub fn turning(self) -> (t: i64)
        requires
            self.wf(),
        ensures
            t == self.turning_spec(),
            0 <= t <= ONE,
    {
        let e: i64 = self.eased();
        if e <= ONE / 2 {
            2 * e
        } else {
            2 * (ONE - e)
        }
    }

    /// Turns to the other side. A turn under way is mirrored, not begun
    /// again: what was still to come is what has now been done.
    pub fn flip(&mut self)
        requires
            old(self).wf(),
        ensures
            final(self).right == !old(self).right,
            final(self).progress == ONE - old(self).progress,
            final(self).wf(),
    {
        self.right = !self.right;
        self.progress = ONE - self.progress;
    }
}

/// Clears the force and the impulse that the last tick gathered, before
/// any controller adds to them.
pub fn cix_pre_update_sys(force: &mut Vec2, impulse: &mut Vec2)
    ensures
        final(force).x == 0,
        final(force).y == 0,
        final(impulse).x == 0,
        final(impulse).y == 0,
{
    *force = Vec2::zero();
    *impulse = Vec2::zero();
}

/// What a downward cast of the character's shape met: how far the shape
/// travelled before it touched, and the height of the point it touched.
#[derive(Clone, Copy, Debug, PartialEq, Eq, Structural)]
pub struct ShapeHit {
    pub toi: i64,
    pub witness_y: i64,
}

/// Whether a cast from height `pos_y` found ground to hover over: the
/// touched point lies below the character.
pub open spec fn ground_below(hit: Option<ShapeHit>, pos_y: int) -> bool {
    hit is Some && hit->Some_0.witness_y < pos_y
}

/// The upward force over ground at distance `toi`: a spring toward the
/// clearance `HOVER_RAY + HOVER_TOLERANCE` that cancels the vertical
/// velocity `vel_y`.
pub open spec fn hover_force(toi: int, vel_y: int) -> int {
    fx_mul(Cix::HOVER_ACCEL as int, Cix::HOVER_RAY + Cix::HOVER_TOLERANCE - toi) - vel_y
}

/// When the character left the ground, after a tick on which it is off
/// it: the instant already on record, or `now` on leaving.
pub open spec fn left_ground_at(last: CixLastGrounded, now: i64) -> CixLastGrounded {
    if last.0 is Some {
        last
    } else {
        CixLastGrounded(Some(now))
    }
}

/// One tick of the hover controller. `hit` is what the downward cast of
/// the character's shape from height `pos_y` met within
/// `HOVER_RAY + HOVER_TOLERANCE`. Sets the three ground flags and returns
/// the force to apply at the character's centre, if any.
pub fn cix_update_sys(
    grounded: &mut CixGrounded,
    last_grounded: &mut CixLastGrounded,
    hovered: &mut CixHovered,
    hit: Option<ShapeHit>,
    pos_y: i64,
    vel_y: i64,
    now: i64,
) -> (force: Option<Vec2>)
    requires
        hit is Some ==> bounded(hit->Some_0.toi as int),
        bounded(vel_y as int),
    ensures
        final(hovered).0 == ground_below(hit, pos_y as int),
        final(grounded).0 == (ground_below(hit, pos_y as int) && hit->Some_0.toi
            <= Cix::HOVER_RAY),
        final(grounded).0 ==> final(last_grounded).0 is None,
        !final(grounded).0 ==> *final(last_grounded) == left_ground_at(*old(last_grounded), now),
        ground_below(hit, pos_y as int) ==> force == Some(
            Vec2 { x: 0, y: hover_force(hit->Some_0.toi as int, vel_y as int) as i64 },
        ) && crate::fixed::fits(hover_force(hit->Some_0.toi as int, vel_y as int)),
        !ground_below(hit, pos_y as int) ==> force is None,
{
    match hit {
        Some(touch) if touch.witness_y < pos_y => {
            proof {
                crate::fixed::lemma_product_bound(
                    Cix::HOVER_ACCEL as int,
                    Cix::HOVER_RAY + Cix::HOVER_TOLERANCE - touch.toi,
                    9_810_000,
                    1_099_611_627_776,
                );
                crate::fixed::lemma_trunc_div_bound(
                    Cix::HOVER_ACCEL * (Cix::HOVER_RAY + Cix::HOVER_TOLERANCE - touch.toi),
                    ONE as int,
                );
            }
            let gap: i64 = Cix::HOVER_RAY + Cix::HOVER_TOLERANCE - touch.toi;
            let spring: i128 = ((Cix::HOVER_ACCEL as i128) * (gap as i128)) / (ONE as i128);
            let lift: i64 = (spring - (vel_y as i128)) as i64;
            if touch.toi <= Cix::HOVER_RAY {
                *grounded = CixGrounded(true);
                *last_grounded = CixLastGrounded(None);
            } else {
                *grounded = CixGrounded(false);
                if last_grounded.0.is_none() {
                    *last_grounded = CixLastGrounded(Some(now));
                }
            }
            *hovered = CixHovered(true);
            Some(Vec2 { x: 0, y: lift })
        },
        _ => {
            *grounded = CixGrounded(false);
            *hovered = CixHovered(false);
            if last_grounded.0.is_none() {
                *last_grounded = CixLastGrounded(Some(now));
            }
            None
        },
    }
}

/// Moves a turn under way on by `delta` of clock time.
pub fn cix_update_direction_sys(dir: &mut CixDirection, delta: i64)
    requires
        delta >= 0,
    ensures
        final(dir).right == old(dir).right,
        final(dir).progress == old(dir).progress_after(delta as int),
        old(dir).wf() ==> final(dir).wf(),
        old(dir).progress <= final(dir).progress || old(dir).progress > ONE,
{
    if dir.progress < ONE {
        proof {
            crate::fixed::lemma_product_bound(
                delta as int,
                CixDirection::TURN_SPEED as int,
                0x8000_0000_0000_0000,
                3_200_000,
            );
            crate::fixed::lemma_trunc_div_bound(delta * CixDirection::TURN_SPEED, ONE as int);
            assert(delta * CixDirection::TURN_SPEED >= 0) by (nonlinear_arith)
                requires
                    delta >= 0,
                    CixDirection::TURN_SPEED == 3_200_000,
            ;
        }
        let step: i128 = ((delta as i128) * (CixDirection::TURN_SPEED as i128)) / (ONE as i128);
        let next: i128 = (dir.progress as i128) + step;
        dir.progress = if next < ONE as i128 {
            next as i64
        } else {
            ONE
        };
    }
}

/// The longest tick for which the camera follows: an hour.
pub const FOLLOW_LIMIT: i64 = 3_600_000_000;

/// How much of the way to the character the camera goes on a tick that
/// lasts `delta`: twelve hundredths for each sixtieth of a second.
pub open spec fn follow_rate(delta: int) -> int {
    fx_mul(60 * delta, 120_000)
}

/// Moves the camera at `pos` toward the character at `cix`, by the part
/// of the way that a tick of `delta` allows.
pub fn cix_follow_camera_sys(pos: &mut Vec2, cix: Vec2, delta: i64)
    requires
        0 <= delta <= FOLLOW_LIMIT,
        old(pos).bounded(),
        cix.bounded(),
    ensures
        final(pos).x == lerp_int(old(pos).x as int, cix.x as int, follow_rate(delta as int)),
        final(pos).y == lerp_int(old(pos).y as int, cix.y as int, follow_rate(delta as int)),
{
    proof {
        assert(0 <= (60 * delta) * 120_000 <= 216_000_000_000 * 120_000) by (nonlinear_arith)
            requires
                0 <= delta <= 3_600_000_000,
        ;
    }
    let rate: i64 = ((60 * delta) * 120_000) / ONE;
    proof {
        crate::fixed::lemma_product_bound(pos.x - cix.x, rate as int, 0x200_0000_0000, 25_920_000_000);
        crate::fixed::lemma_product_bound(pos.y - cix.y, rate as int, 0x200_0000_0000, 25_920_000_000);
        crate::fixed::lemma_product_bound(cix.x - pos.x, rate as int, 0x200_0000_0000, 25_920_000_000);
        crate::fixed::lemma_product_bound(cix.y - pos.y, rate as int, 0x200_0000_0000, 25_920_000_000);
        crate::fixed::lemma_trunc_div_bound((cix.x - pos.x) * rate, ONE as int);
        crate::fixed::lemma_trunc_div_bound((cix.y - pos.y) * rate, ONE as int);
        assert(0x200_0000_0000 * 25_920_000_000 < 0x1000_0000_0000_0000_0000int) by (nonlinear_arith);
    }
    let x: i64 = lerp_units(pos.x, cix.x, rate);
    let y: i64 = lerp_units(pos.y, cix.y, rate);
    *pos = Vec2 { x, y };
}

} // verus!
