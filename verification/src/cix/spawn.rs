//! The arrival of the character.
//!
//! Durations are counted in millionths of a second.
use vstd::prelude::*;
use crate::cix::CixStates;
use crate::fixed::{Vec2, ONE};
use crate::timed::Timed;

verus! {

/// The light that gathers where the character is about to appear.
#[derive(Clone, Copy, Debug)]
pub struct CixSpawn;

impl CixSpawn {
    /// For how long the light gathers.
    pub const TIME: i64 = 1_200_000;

    /// For how long a dead character waits before the light gathers again.
    pub const RESPAWN_TIME: i64 = 2_000_000;
}

/// A speck of the gathering light.
#[derive(Clone, Copy, Debug, PartialEq, Eq, Structural)]
pub struct CixSpawnParticle {
    pub offset: Vec2,
    pub radius: i64,
}

/// Where the character appears.
#[derive(Clone, Copy, Debug, PartialEq, Eq, Structural)]
pub struct CixSpawnPos(pub Vec2);

/// The timer of the gathering light, as it starts.
pub fn cix_init_spawn_sys() -> (timed: Timed)
    ensures
        timed == (Timed { life: 0, lifetime: CixSpawn::TIME, backwards: false, scale: ONE }),
{
    Timed::new(CixSpawn::TIME)
}

/// One tick of the gathering light: once its timer has ended, the
/// character appears and is alive.
pub fn cix_update_spawn_sys(timed: Timed) -> (next: Option<CixStates>)
    ensures
        next == if timed.ended_spec() {
            Some(CixStates::Alive)
        } else {
            None
        },
{
    if timed.ended() {
        Some(CixStates::Alive)
    } else {
        None
    }
}

} // verus!
