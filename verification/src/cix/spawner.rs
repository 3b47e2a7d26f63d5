//! The character as it appears.
use vstd::prelude::*;
use crate::cix::arm::{CixArm, CixArmTarget};
use crate::cix::attack::{CixAttack, CixAttackState};
use crate::cix::input::CixJumpState;
use crate::cix::{CixDirection, CixGrounded, CixHovered, CixLastGrounded};
use crate::collide::CollisionGroups;
use crate::fixed::{Vec2, ONE};
use crate::health::Health;
use crate::GROUP_CIX;

verus! {

/// Everything that the controllers keep of the character.
#[derive(Clone, Copy, Debug, PartialEq, Eq, Structural)]
pub struct CixBody {
    pub grounded: CixGrounded,
    pub last_grounded: CixLastGrounded,
    pub hovered: CixHovered,
    pub attack: CixAttack,
    pub attack_state: CixAttackState,
    pub direction: CixDirection,
    pub health: Health,
    pub jump: CixJumpState,
    pub groups: CollisionGroups,
    pub front_arm: CixArmTarget,
    pub back_arm: CixArmTarget,
}

/// The health that the character appears with.
pub const CIX_HEALTH: i64 = 100_000_000;

/// The character as it appears: in the air, facing right with no turn
/// under way, at full health, its arms idle, colliding with everything
/// but itself.
pub fn cix_spawn() -> (cix: CixBody)
    ensures
        !cix.grounded.0,
        cix.last_grounded.0 is None,
        !cix.hovered.0,
        cix.attack == (CixAttack { init: 0, at: Vec2 { x: 0, y: 0 } }),
        cix.attack_state.shoot == 0,
        cix.direction == (CixDirection { right: true, progress: ONE }),
        cix.direction.wf(),
        cix.health == (Health { amount: CIX_HEALTH, max: CIX_HEALTH }),
        cix.health.wf(),
        cix.jump == (CixJumpState { jump_time: None, last_jump_time: None, buffer_time: None }),
        cix.groups == (CollisionGroups { memberships: GROUP_CIX, filters: !GROUP_CIX }),
        cix.front_arm.0 is None,
        cix.back_arm.0 is None,
{
    CixBody {
        grounded: CixGrounded(false),
        last_grounded: CixLastGrounded(None),
        hovered: CixHovered(false),
        attack: CixAttack { init: 0, at: Vec2 { x: 0, y: 0 } },
        attack_state: CixAttackState { shoot: 0 },
        direction: CixDirection { right: true, progress: ONE },
        health: Health::new(CIX_HEALTH),
        jump: CixJumpState { jump_time: None, last_jump_time: None, buffer_time: None },
        groups: CollisionGroups::new(GROUP_CIX, !GROUP_CIX),
        front_arm: CixArmTarget(None),
        back_arm: CixArmTarget(None),
    }
}

/// Where the sprites of a piece that hangs on the body go as the
/// character appears: `offset` below the collar, which itself sits
/// `CixAttire::OFFSET` below the centre of the head.
pub fn hang(offset: Vec2) -> (at: Vec2)
    requires
        offset.bounded(),
    ensures
        at.x == offset.x,
        at.y == offset.y - crate::cix::attire::CixAttire::OFFSET,
{
    Vec2 { x: offset.x, y: offset.y - crate::cix::attire::CixAttire::OFFSET }
}

/// Where the shoulder of `arm` goes as the character appears.
pub fn shoulder(arm: CixArm) -> (at: Vec2)
    ensures
        at == match arm {
            CixArm::Front => Vec2 { x: -3_000_000i64, y: -25_000_000i64 },
            CixArm::Back => Vec2 { x: 6_000_000i64, y: -27_000_000i64 },
        },
{
    hang(arm.offset())
}

} // verus!
