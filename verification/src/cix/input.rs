//! What the player's input does to the character: walking, turning,
//! jumping and taking aim.
//!
//! Instants and durations are counted in millionths of a second.
use vstd::prelude::*;
use crate::cix::{CixDirection, CixGrounded, CixHovered, CixLastGrounded};
use crate::cix::arm::CixArm;
use crate::cix::attack::CixAttack;
use crate::fixed::{bounded, clamp, fits, fx_div, fx_mul, trunc_div, Vec2, ONE};

verus! {

/// The walking speed at full tilt of the stick, in metres per second.
pub const CIX_MOVE_VEL: i64 = 3_000_000;

/// The walking speed at full tilt of the stick, in pixels per second.
pub const CIX_MOVE_SPEED: i64 = 300_000_000;

/// What the player can ask of the character.
#[derive(Clone, Copy, Debug, PartialEq, Eq, Hash, Structural)]
pub enum CixAction {
    Move,
    Jump,
    Attack,
    Action,
}

/// The instants that the jump controller keeps: when the jump under way
/// began, when the last jump began, and when a press came too early.
#[derive(Clone, Copy, Debug, PartialEq, Eq, Structural)]
pub struct CixJumpState {
    pub jump_time: Option<i64>,
    pub last_jump_time: Option<i64>,
    pub buffer_time: Option<i64>,
}

impl Default for CixJumpState {
    fn default() -> (s: Self)
        ensures
            s.jump_time is None,
            s.last_jump_time is None,
            s.buffer_time is None,
    {
        CixJumpState { jump_time: None, last_jump_time: None, buffer_time: None }
    }
}

/// What the jump controller asks of the physics engine on a tick.
#[derive(Clone, Copy, Debug, PartialEq, Eq, Structural)]
pub enum JumpPush {
    /// Nothing.
    Rest,
    /// A single kick, as a jump begins.
    Impulse(Vec2),
    /// The thrust of a jump that is held.
    Force(Vec2),
}

impl CixJumpState {
    /// The kick that starts a jump, in metres per second.
    pub const IMPULSE: i64 = 500_000;

    /// The thrust of a jump as it starts, in metres per second squared.
    pub const FORCE: i64 = 8_400_000;

    /// The kick that starts a jump, in pixels per second.
    pub const LAUNCH: i64 = 50_000_000;

    /// The thrust of a jump as it starts, in pixels per second squared.
    pub const THRUST: i64 = 840_000_000;

    /// For how long a held jump keeps its thrust.
    pub const DURATION: i64 = 400_000;

    /// For how long an early press waits for the ground.
    pub const BUFFER_TIME: i64 = 140_000;

    /// For how long after leaving the ground a jump is still granted.
    pub const COYOTE_TIME: i64 = 100_000;

    /// For how long after a jump no jump is granted off the ground.
    pub const COYOTE_COOLDOWN: i64 = 300_000;

    /// Whether a press at `now`, off the ground, is still granted a jump:
    /// the ground was left no more than `COYOTE_TIME` ago, and the last
    /// jump began more than `COYOTE_COOLDOWN` ago.
    pub open spec fn coyote(self, last_grounded: CixLastGrounded, now: int) -> bool {
        &&& last_grounded.0 is Some
        &&& now - last_grounded.0->Some_0 <= Self::COYOTE_TIME
        &&& (self.last_jump_time is Some ==> now - self.last_jump_time->Some_0
            > Self::COYOTE_COOLDOWN)
    }

    /// Whether a press is on record that came no more than `BUFFER_TIME`
    /// before `now`.
    pub open spec fn buffered(self, now: int) -> bool {
        self.buffer_time is Some && now - self.buffer_time->Some_0 <= Self::BUFFER_TIME
    }

    /// Whether a jump begins on this tick: the button is down, no jump is
    /// under way, and either it went down on this tick on the ground or
    /// within the grace after leaving it, or the character is on the
    /// ground with a recent press on record.
    pub open spec fn starts(
        self,
        pressed: bool,
        just_pressed: bool,
        grounded: CixGrounded,
        last_grounded: CixLastGrounded,
        now: int,
    ) -> bool {
        &&& pressed
        &&& self.jump_time is None
        &&& ((just_pressed && (grounded.0 || self.coyote(last_grounded, now))) || (grounded.0
            && self.buffered(now)))
    }

    /// Whether a press on this tick comes too early and goes on record.
    pub open spec fn records(
        self,
        pressed: bool,
        just_pressed: bool,
        grounded: CixGrounded,
        last_grounded: CixLastGrounded,
        now: int,
    ) -> bool {
        &&& pressed
        &&& self.jump_time is None
        &&& just_pressed
        &&& !grounded.0
        &&& !self.coyote(last_grounded, now)
    }

    /// The fraction of its thrust that a held jump has left after
    /// `elapsed`: the cube of what is left of `DURATION`. An instant in
    /// the future counts as now.
    pub open spec fn thrust_left(elapsed: int) -> int {
        let spent = fx_div(clamp(elapsed, 0, Self::DURATION as int), Self::DURATION as int);
        let left = ONE - spent;
        trunc_div(left * left * left, ONE * ONE)
    }

    /// The upward thrust of a held jump after `elapsed`.
    pub open spec fn thrust(elapsed: int) -> int {
        fx_mul(Self::THRUST as int, Self::thrust_left(elapsed))
    }

    /// The state after a tick.
    pub open spec fn after(
        self,
        pressed: bool,
        just_pressed: bool,
        grounded: CixGrounded,
        last_grounded: CixLastGrounded,
        now: i64,
    ) -> CixJumpState {
        if !pressed {
            CixJumpState {
                jump_time: None,
                last_jump_time: self.last_jump_time,
                buffer_time: None,
            }
        } else if self.starts(pressed, just_pressed, grounded, last_grounded, now as int) {
            CixJumpState {
                jump_time: Some(now),
                last_jump_time: Some(now),
                buffer_time: self.buffer_time,
            }
        } else if self.records(pressed, just_pressed, grounded, last_grounded, now as int) {
            CixJumpState {
                jump_time: None,
                last_jump_time: self.last_jump_time,
                buffer_time: Some(now),
            }
        } else {
            self
        }
    }

    /// What a tick asks of the physics engine.
    pub open spec fn push(
        self,
        pressed: bool,
        just_pressed: bool,
        grounded: CixGrounded,
        last_grounded: CixLastGrounded,
        now: int,
    ) -> JumpPush {
        if pressed && self.jump_time is Some {
            JumpPush::Force(Vec2 { x: 0, y: Self::thrust(now - self.jump_time->Some_0) as i64 })
        } else if self.starts(pressed, just_pressed, grounded, last_grounded, now) {
            JumpPush::Impulse(Vec2 { x: 0, y: Self::LAUNCH })
        } else {
            JumpPush::Rest
        }
    }
}

/// The thrust of a held jump fades from all of it to none of it.
pub proof fn lemma_thrust_fades(elapsed: int)
    ensures
        0 <= CixJumpState::thrust_left(elapsed) <= ONE,
        0 <= CixJumpState::thrust(elapsed) <= CixJumpState::THRUST,
        elapsed <= 0 ==> CixJumpState::thrust(elapsed) == CixJumpState::THRUST,
        elapsed >= CixJumpState::DURATION ==> CixJumpState::thrust(elapsed) == 0,
{
    let d = CixJumpState::DURATION as int;
    let e = clamp(elapsed, 0, d);
    let spent = fx_div(e, d);
    assert(0 <= e * ONE <= d * ONE) by (nonlinear_arith)
        requires
            0 <= e <= d,
    ;
    crate::fixed::lemma_trunc_div_monotonic(0, e * ONE, d);
    crate::fixed::lemma_trunc_div_monotonic(e * ONE, d * ONE, d);
    assert(trunc_div(d * ONE, d) == ONE) by (nonlinear_arith)
        requires
            d == 400_000,
            ONE == 1_000_000,
    ;
    assert(trunc_div(0, d) == 0);
    let left = ONE - spent;
    assert(0 <= left * left * left <= ONE * ONE * ONE) by (nonlinear_arith)
        requires
            0 <= left <= ONE,
    ;
    crate::fixed::lemma_trunc_div_monotonic(0, left * left * left, ONE * ONE);
    crate::fixed::lemma_trunc_div_monotonic(left * left * left, ONE * ONE * ONE, ONE * ONE);
    assert(trunc_div(ONE * ONE * ONE, ONE * ONE) == ONE) by (nonlinear_arith)
        requires
            ONE == 1_000_000,
    ;
    assert(trunc_div(0, ONE * ONE) == 0) by (nonlinear_arith)
        requires
            ONE == 1_000_000,
    ;
    crate::fixed::lemma_fx_mul_fraction(
        CixJumpState::THRUST as int,
        CixJumpState::thrust_left(elapsed),
    );
    if elapsed <= 0 {
        assert(e == 0);
        assert(left == ONE);
    }
    if elapsed >= d {
        assert(e == d);
        assert(left == 0);
        assert(left * left * left == 0) by (nonlinear_arith)
            requires
                left == 0,
        ;
    }
}

/// The force that walks the character: what its horizontal velocity
/// `vel_x` lacks of the speed that the stick asks for. Without a stick
/// there is none, and with the stick at rest only while the ground holds
/// the character up.
pub fn cix_move_sys(hovered: CixHovered, axis_x: Option<i64>, vel_x: i64) -> (force: Option<Vec2>)
    requires
        axis_x is Some ==> bounded(axis_x->Some_0 as int),
        bounded(vel_x as int),
    ensures
        force is Some <==> axis_x is Some && (axis_x->Some_0 != 0 || hovered.0),
        force is Some ==> force->Some_0.x == fx_mul(CIX_MOVE_SPEED as int, axis_x->Some_0 as int)
            - vel_x && force->Some_0.y == 0,
{
    match axis_x {
        None => None,
        Some(move_x) => {
            if move_x != 0 || hovered.0 {
                proof {
                    crate::fixed::lemma_product_bound(
                        CIX_MOVE_SPEED as int,
                        move_x as int,
                        300_000_000,
                        crate::fixed::LIMIT as int,
                    );
                    crate::fixed::lemma_trunc_div_bound(CIX_MOVE_SPEED * move_x, ONE as int);
                }
                let target: i128 = ((CIX_MOVE_SPEED as i128) * (move_x as i128)) / (ONE as i128);
                Some(Vec2 { x: (target - (vel_x as i128)) as i64, y: 0 })
            } else {
                None
            }
        },
    }
}

/// The side that the input asks the character to face, if it asks for
/// one: while attacking with a pointer on screen, the side of the pointer;
/// else the side toward which the stick is tilted.
pub open spec fn wanted_side(
    attacking: bool,
    cursor_x: Option<i64>,
    cix_x: i64,
    axis_x: Option<i64>,
) -> Option<bool> {
    if attacking && cursor_x is Some {
        Some(cursor_x->Some_0 > cix_x)
    } else if axis_x is Some && axis_x->Some_0 != 0 {
        Some(axis_x->Some_0 > 0)
    } else {
        None
    }
}

/// Turns the character toward the side that the input asks for. A turn to
/// the other side mirrors the turn under way.
pub fn cix_flip_direction_sys(
    dir: &mut CixDirection,
    attacking: bool,
    cursor_x: Option<i64>,
    cix_x: i64,
    axis_x: Option<i64>,
)
    requires
        old(dir).wf(),
    ensures
        final(dir).wf(),
        ({
            let wanted = wanted_side(attacking, cursor_x, cix_x, axis_x);
            if wanted is Some && wanted->Some_0 != old(dir).right {
                final(dir).right == wanted->Some_0 && final(dir).progress == ONE - old(dir).progress
            } else {
                *final(dir) == *old(dir)
            }
        }),
{
    let wanted: Option<bool> = match (attacking, cursor_x) {
        (true, Some(x)) => Some(x > cix_x),
        _ => match axis_x {
            Some(move_x) if move_x != 0 => Some(move_x > 0),
            _ => None,
        },
    };
    match wanted {
        Some(right) => {
            if dir.right != right {
                dir.flip();
            }
        },
        None => {},
    }
}

/// One tick of the jump controller: what it asks of the physics engine,
/// to be applied at the character's centre.
pub fn cix_jump_sys(
    state: &mut CixJumpState,
    pressed: bool,
    just_pressed: bool,
    grounded: CixGrounded,
    last_grounded: CixLastGrounded,
    now: i64,
) -> (push: JumpPush)
    ensures
        *final(state) == old(state).after(pressed, just_pressed, grounded, last_grounded, now),
        push == old(state).push(pressed, just_pressed, grounded, last_grounded, now as int),
        push matches JumpPush::Force(f) ==> f.x == 0 && f.y == CixJumpState::thrust(
            now - old(state).jump_time->Some_0,
        ),
{
    if pressed {
        match state.jump_time {
            Some(jump_time) => {
                let elapsed: i128 = (now as i128) - (jump_time as i128);
                proof {
                    lemma_thrust_fades(elapsed as int);
                }
                JumpPush::Force(Vec2 { x: 0, y: thrust_after(elapsed) })
            },
            None => {
                let mut jump: bool = false;
                if just_pressed {
                    if grounded.0 {
                        jump = true;
                    } else if coyote_granted(state, last_grounded, now) {
                        jump = true;
                    } else {
                        state.buffer_time = Some(now);
                    }
                }
                if !jump && grounded.0 {
                    match state.buffer_time {
                        Some(buffer_time) => {
                            if (now as i128) - (buffer_time as i128)
                                <= CixJumpState::BUFFER_TIME as i128 {
                                jump = true;
                            }
                        },
                        None => {},
                    }
                }
                if jump {
                    state.jump_time = Some(now);
                    state.last_jump_time = Some(now);
                    JumpPush::Impulse(Vec2 { x: 0, y: CixJumpState::LAUNCH })
                } else {
                    JumpPush::Rest
                }
            },
        }
    } else {
        state.jump_time = None;
        state.buffer_time = None;
        JumpPush::Rest
    }
}

/// Whether a press at `now`, off the ground, is still granted a jump.
pub fn coyote_granted(state: &CixJumpState, last_grounded: CixLastGrounded, now: i64) -> (granted:
    bool)
    ensures
        granted == state.coyote(last_grounded, now as int),
{
    match last_grounded.0 {
        Some(left) => {
            if (now as i128) - (left as i128) <= CixJumpState::COYOTE_TIME as i128 {
                match state.last_jump_time {
                    Some(last_jump) => (now as i128) - (last_jump as i128)
                        > CixJumpState::COYOTE_COOLDOWN as i128,
                    None => true,
                }
            } else {
                false
            }
        },
        None => false,
    }
}

/// The upward thrust of a held jump after `elapsed`.
pub fn thrust_after(elapsed: i128) -> (thrust: i64)
    ensures
        thrust == CixJumpState::thrust(elapsed as int),
        0 <= thrust <= CixJumpState::THRUST,
{
    proof {
        lemma_thrust_fades(elapsed as int);
    }
    let duration: i128 = CixJumpState::DURATION as i128;
    let within: i128 = if elapsed < 0 {
        0
    } else if elapsed > duration {
        duration
    } else {
        elapsed
    };
    let spent: i128 = (within * (ONE as i128)) / duration;
    let left: i128 = (ONE as i128) - spent;
    proof {
        assert(0 <= within * ONE <= duration * ONE) by (nonlinear_arith)
            requires
                0 <= within <= duration,
        ;
        crate::fixed::lemma_trunc_div_monotonic(0, within * ONE, duration as int);
        crate::fixed::lemma_trunc_div_monotonic(within * ONE, duration * ONE, duration as int);
        assert(trunc_div(duration * ONE, duration as int) == ONE) by (nonlinear_arith)
            requires
                duration == 400_000,
                ONE == 1_000_000,
        ;
        assert(0 <= left * left <= ONE * ONE) by (nonlinear_arith)
            requires
                0 <= left <= ONE,
        ;
        assert(0 <= left * left * left <= ONE * ONE * ONE) by (nonlinear_arith)
            requires
                0 <= left <= ONE,
        ;
        assert(ONE * ONE * ONE == 1_000_000_000_000_000_000) by (nonlinear_arith)
            requires
                ONE == 1_000_000,
        ;
        assert(ONE * ONE == 1_000_000_000_000) by (nonlinear_arith)
            requires
                ONE == 1_000_000,
        ;
    }
    let cube: i128 = (left * left * left) / ((ONE as i128) * (ONE as i128));
    proof {
        assert(0 <= CixJumpState::THRUST * cube <= CixJumpState::THRUST * ONE) by (nonlinear_arith)
            requires
                0 <= cube <= ONE,
                CixJumpState::THRUST == 840_000_000,
        ;
    }
    (((CixJumpState::THRUST as i128) * cube) / (ONE as i128)) as i64
}

/// Takes aim: a press of the attack button starts the charge at `now`,
/// and while the button is down and the pointer is on screen the aim
/// follows the pointer, measured from the point between the arms.
pub fn cix_attack_input_sys(
    attack: &mut CixAttack,
    just_pressed: bool,
    pressed: bool,
    cursor: Option<Vec2>,
    cix_pos: Vec2,
    now: i64,
)
    requires
        cursor is Some ==> cursor->Some_0.bounded(),
        cix_pos.bounded(),
    ensures
        final(attack).init == if just_pressed {
            now
        } else {
            old(attack).init
        },
        final(attack).at == if pressed && cursor is Some {
            Vec2 {
                x: (cursor->Some_0.x - (cix_pos.x + CixArm::TARGET_POINT_X)) as i64,
                y: (cursor->Some_0.y - (cix_pos.y + CixArm::TARGET_POINT_Y)) as i64,
            }
        } else {
            old(attack).at
        },
        pressed && cursor is Some ==> fits(cursor->Some_0.x - (cix_pos.x + CixArm::TARGET_POINT_X))
            && fits(cursor->Some_0.y - (cix_pos.y + CixArm::TARGET_POINT_Y)),
{
    if just_pressed {
        attack.init = now;
    }
    if pressed {
        match cursor {
            Some(pos) => {
                attack.at = Vec2 {
                    x: pos.x - (cix_pos.x + CixArm::TARGET_POINT_X),
                    y: pos.y - (cix_pos.y + CixArm::TARGET_POINT_Y),
                };
            },
            None => {},
        }
    }
}

} // verus!
