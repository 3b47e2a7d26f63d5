//! Character control for a two-dimensional platformer, on fixed-point
//! numbers: angle arithmetic, a two-bone arm solver, hover and jump
//! control, facing blends, the laser attack and the health bookkeeping.
use vstd::prelude::*;

pub mod cix;
pub mod collide;
pub mod ext;
pub mod fixed;
pub mod health;
pub mod timed;

pub use cix::{
    arm_goal, arm_joint_turn, arm_lower_angle, arm_segments, arm_target, cix_attack_input_sys,
    cix_attack_sys, cix_attack_update_sys, cix_check_alive_sys, cix_direct_attire_sys,
    cix_flip_direction_sys, cix_follow_camera_sys, cix_init_spawn_sys, cix_jump_sys, cix_move_sys,
    cix_pre_update_sys, cix_respawn_sys, cix_spawn, cix_update_arm_sys, cix_update_direction_sys,
    cix_update_spawn_sys, cix_update_sys, coyote_granted, hang, laser_beam, laser_damage,
    laser_muzzle, laser_shot, shoulder, sort_hits, thrust_after, turn_pose, ArmGoal, ArmPlan, Cix,
    CixAction, CixAim, CixArm, CixArmTarget, CixAttack, CixAttackState, CixAttire, CixBody,
    CixDirection, CixGrounded, CixHovered, CixJumpState, CixLaser, CixLaserChargeParticle,
    CixLastGrounded, CixSpawn, CixSpawnParticle, CixSpawnPos, CixStates, JumpPush, LaserBeam,
    LaserGlow, LaserHit, LaserShot, ShapeHit, TurnPose, CIX_HEALTH, CIX_MOVE_SPEED, CIX_MOVE_VEL,
    FOLLOW_LIMIT,
};
pub use collide::{
    cix_groups, collide_sys, contains, hover_filter, intersects, is_deadly, laser_filter, Collided,
    CollisionGroups, Contact,
};
pub use ext::{lerp_units, AngleExt, LerpExt, FULL_TURN, HALF_TURN, TWO_TURNS};
pub use fixed::{sqrt_floor, Vec2, LIMIT, ONE};
pub use health::{
    death_announced, health_post_update_sys, health_update_sys, DeathEvent, Health, Living,
};
pub use timed::{timed_post_update_sys, timed_update_sys, Timed};

verus! {

/// How many pixels make a metre.
pub const PIXELS_PER_METER: i64 = 100_000_000;

/// The collision group of the character.
pub const GROUP_CIX: u32 = 0x0000_0001;

/// The collision group of enemies.
pub const GROUP_ENEMY: u32 = 0x0000_0002;

/// The collision group of what kills on touch.
pub const GROUP_STATIC: u32 = 0x0000_0004;

/// The collision group of shots.
pub const GROUP_BULLET: u32 = 0x2000_0000;

/// The collision group of what a shot does not pass through.
pub const GROUP_STOP_PIERCE: u32 = 0x4000_0000;

/// The collision group of the ground.
pub const GROUP_GROUND: u32 = 0x8000_0000;

/// Every collision group.
pub const GROUP_ALL: u32 = 0xFFFF_FFFF;

/// The stages of the game.
#[derive(Clone, Copy, Debug, PartialEq, Eq, Hash, Structural)]
pub enum GameStates {
    Loading,
    Gameplay,
}

impl Default for GameStates {
    fn default() -> (s: Self)
        ensures
            s == GameStates::Loading,
    {
        GameStates::Loading
    }
}

} // verus!
