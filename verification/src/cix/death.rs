//! The death of the character, and the wait before it comes back.
//!
//! Instants and durations are counted in millionths of a second.
use vstd::prelude::*;
use crate::cix::spawn::CixSpawn;
use crate::cix::CixStates;
use crate::health::{death_announced, DeathEvent};

verus! {

/// Whether the character died on this tick: one of the deaths announced
/// is that of the entity `cix`, if the character exists at all. Deaths of
/// other entities do not concern it.
pub fn cix_check_alive_sys(events: &Vec<DeathEvent>, cix: Option<u64>) -> (next: Option<CixStates>)
    ensures
        next == if cix is Some && events@.contains(DeathEvent(cix->Some_0)) {
            Some(CixStates::Dead)
        } else {
            None
        },
{
    match cix {
        Some(entity) => {
            if death_announced(events, entity) {
                Some(CixStates::Dead)
            } else {
                None
            }
        },
        None => None,
    }
}

/// When the wait that counts on this tick began: at the instant on
/// record, or now where none is.
pub open spec fn wait_began(start: Option<i64>, now: i64) -> i64 {
    match start {
        Some(began) => began,
        None => now,
    }
}

/// One tick of the wait of a dead character. The first tick puts the
/// instant on record; once `RESPAWN_TIME` has passed since, the record is
/// cleared and the character starts to spawn.
pub fn cix_respawn_sys(start: &mut Option<i64>, now: i64) -> (next: Option<CixStates>)
    ensures
        ({
            let began = wait_began(*old(start), now);
            if now - began >= CixSpawn::RESPAWN_TIME {
                *final(start) is None && next == Some(CixStates::Spawning)
            } else {
                *final(start) == Some(began) && next is None
            }
        }),
{
    let began: i64 = match *start {
        Some(began) => began,
        None => now,
    };
    if (now as i128) - (began as i128) >= CixSpawn::RESPAWN_TIME as i128 {
        *start = None;
        Some(CixStates::Spawning)
    } else {
        *start = Some(began);
        None
    }
}

} // verus!
