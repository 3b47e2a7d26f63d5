//! Health, and the death of whatever runs out of it.
//!
//! Health is counted in millionths of a point.
use vstd::prelude::*;
use crate::fixed::clamp;

verus! {

/// How much health an entity has left, and how much it can have.
#[derive(Clone, Copy, Debug, PartialEq, Eq, Structural)]
pub struct Health {
    pub amount: i64,
    pub max: i64,
}

impl Health {
    /// The amount lies between zero and the maximum.
    pub open spec fn wf(self) -> bool {
        0 <= self.amount <= self.max
    }

    /// Whether no health is left.
    pub open spec fn dead_spec(self) -> bool {
        self.amount <= 0
    }

    /// Whether a tick announces the death of an entity with this health:
    /// it has none left, and its amount did not need cutting down to the
    /// maximum on this tick.
    pub open spec fn reports_death(self) -> bool {
        self.amount <= self.max && self.amount <= 0
    }

    /// The health as a tick leaves it: an amount above the maximum is cut
    /// down to it, an amount below zero is raised to zero.
    pub open spec fn settled(self) -> Health {
        if self.amount > self.max {
            Health { amount: self.max, max: self.max }
        } else if self.amount < 0 {
            Health { amount: 0, max: self.max }
        } else {
            self
        }
    }

    /// The amount left after `damage`: never below zero.
    pub open spec fn amount_after(self, damage: int) -> int {
        clamp(self.amount - damage, 0, i64::MAX as int)
    }

    /// Full health.
    pub fn new(max: i64) -> (h: Self)
        ensures
            h.amount == max,
            h.max == max,
    {
        Health { amount: max, max }
    }

    /// Whether no health is left.
    pub fn dead(self) -> (d: bool)
        ensures
            d == self.dead_spec(),
    {
        self.amount <= 0
    }

    /// Takes `damage` off the amount, which does not go below zero.
    pub fn damage(&mut self, damage: i64)
        ensures
            final(self).amount == old(self).amount_after(damage as int),
            final(self).max == old(self).max,
    {
        let left: i128 = (self.amount as i128) - (damage as i128);
        self.amount = if left < 0 {
            0
        } else if left > i64::MAX as i128 {
            i64::MAX
        } else {
            left as i64
        };
    }
}

/// The death of the entity with the given identifier.
#[derive(Clone, Copy, Debug, PartialEq, Eq, Structural)]
pub struct DeathEvent(pub u64);

/// An entity that has health.
#[derive(Clone, Copy, Debug, PartialEq, Eq, Structural)]
pub struct Living {
    pub entity: u64,
    pub health: Health,
}

/// Settles the health of every entity and announces the death of each one
/// that has none left, in the order of the entities.
pub fn health_update_sys(healths: &mut Vec<Living>) -> (events: Vec<DeathEvent>)
    ensures
        final(healths).len() == old(healths).len(),
        forall|i: int|
            0 <= i < old(healths).len() ==> (#[trigger] final(healths)[i]).entity == old(
                healths,
            )[i].entity && final(healths)[i].health == old(healths)[i].health.settled(),
        events@ == old(healths)@.filter(|l: Living| l.health.reports_death()).map_values(
            |l: Living| DeathEvent(l.entity),
        ),
{
    let mut events: Vec<DeathEvent> = Vec::new();
    let n: usize = healths.len();
    let mut i: usize = 0;
    proof {
        reveal(Seq::filter);
        assert(healths@.take(0) =~= Seq::<Living>::empty());
        assert(events@ =~= healths@.take(0).filter(|l: Living| l.health.reports_death()).map_values(
            |l: Living| DeathEvent(l.entity),
        ));
    }
    while i < n
        invariant
            i <= n,
            n == healths.len(),
            n == old(healths).len(),
            forall|j: int|
                0 <= j < i ==> (#[trigger] healths[j]).entity == old(healths)[j].entity
                    && healths[j].health == old(healths)[j].health.settled(),
            forall|j: int| i <= j < n ==> healths[j] == old(healths)[j],
            events@ == old(healths)@.take(i as int).filter(
                |l: Living| l.health.reports_death(),
            ).map_values(|l: Living| DeathEvent(l.entity)),
        decreases n - i,
    {
        let mut living: Living = healths[i];
        proof {
            reveal(Seq::filter);
            let seen = old(healths)@.take(i as int);
            let next = old(healths)@.take(i + 1);
            assert(next.drop_last() =~= seen);
            assert(next.last() == living);
            let dying = seen.filter(|l: Living| l.health.reports_death());
            if living.health.reports_death() {
                assert(dying.push(living).map_values(|l: Living| DeathEvent(l.entity))
                    =~= dying.map_values(|l: Living| DeathEvent(l.entity)).push(
                    DeathEvent(living.entity),
                ));
            }
        }
        if living.health.amount > living.health.max {
            living.health.amount = living.health.max;
        } else if living.health.dead() {
            living.health.amount = 0;
            events.push(DeathEvent(living.entity));
        }
        healths.set(i, living);
        i += 1;
    }
    proof {
        assert(old(healths)@.take(n as int) =~= old(healths)@);
    }
    events
}

/// Whether `events` holds the death of `entity`.
pub fn death_announced(events: &Vec<DeathEvent>, entity: u64) -> (found: bool)
    ensures
        found == events@.contains(DeathEvent(entity)),
{
    let mut i: usize = 0;
    while i < events.len()
        invariant
            i <= events.len(),
            forall|j: int| 0 <= j < i ==> events[j] != DeathEvent(entity),
        decreases events.len() - i,
    {
        if events[i].0 == entity {
            assert(events@[i as int] == DeathEvent(entity));
            return true;
        }
        i += 1;
    }
    false
}

/// Removes every entity whose death was announced, and keeps the others
/// in order.
pub fn health_post_update_sys(healths: &mut Vec<Living>, events: &Vec<DeathEvent>)
    ensures
        final(healths)@ == old(healths)@.filter(
            |l: Living| !events@.contains(DeathEvent(l.entity)),
        ),
        forall|i: int|
            0 <= i < final(healths).len() ==> !events@.contains(
                DeathEvent((#[trigger] final(healths)[i]).entity),
            ),
{
    let mut kept: Vec<Living> = Vec::new();
    let n: usize = healths.len();
    let mut i: usize = 0;
    proof {
        reveal(Seq::filter);
        assert(healths@.take(0) =~= Seq::<Living>::empty());
    }
    while i < n
        invariant
            i <= n,
            n == healths.len(),
            healths@ == old(healths)@,
            kept@ == healths@.take(i as int).filter(
                |l: Living| !events@.contains(DeathEvent(l.entity)),
            ),
            forall|j: int|
                0 <= j < kept.len() ==> !events@.contains(DeathEvent((#[trigger] kept[j]).entity)),
        decreases n - i,
    {
        let living: Living = healths[i];
        proof {
            reveal(Seq::filter);
            assert(healths@.take(i + 1).drop_last() =~= healths@.take(i as int));
        }
        if !death_announced(events, living.entity) {
            kept.push(living);
        }
        i += 1;
    }
    proof {
        assert(healths@.take(n as int) =~= healths@);
    }
    *healths = kept;
}

} // verus!
