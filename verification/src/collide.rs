//! Collision groups, and what a contact between two bodies leads to.
use vstd::prelude::*;
use crate::{GROUP_ALL, GROUP_BULLET, GROUP_CIX, GROUP_GROUND, GROUP_STATIC};

verus! {

/// The groups that a body belongs to and the groups that it collides
/// with, each a set of up to 32 groups held as the bits of an integer.
#[derive(Clone, Copy, Debug, PartialEq, Eq, Structural)]
pub struct CollisionGroups {
    pub memberships: u32,
    pub filters: u32,
}

/// Whether the set `groups` holds every group of `other`.
pub open spec fn group_contains(groups: u32, other: u32) -> bool {
    groups & other == other
}

/// Whether the sets `groups` and `other` share a group.
pub open spec fn group_intersects(groups: u32, other: u32) -> bool {
    groups & other != 0
}

impl CollisionGroups {
    pub fn new(memberships: u32, filters: u32) -> (g: Self)
        ensures
            g.memberships == memberships,
            g.filters == filters,
    {
        CollisionGroups { memberships, filters }
    }

    /// The groups of a body that was given none: it belongs to every
    /// group and collides with every group.
    pub fn all() -> (g: Self)
        ensures
            g.memberships == GROUP_ALL,
            g.filters == GROUP_ALL,
    {
        CollisionGroups { memberships: GROUP_ALL, filters: GROUP_ALL }
    }

    /// Whether two bodies with these groups can touch: each belongs to a
    /// group that the other collides with.
    pub open spec fn touches(self, other: CollisionGroups) -> bool {
        group_intersects(self.memberships, other.filters) && group_intersects(
            other.memberships,
            self.filters,
        )
    }
}

/// The groups of the character: it belongs to its own group and
/// collides with every other.
pub fn cix_groups() -> (g: CollisionGroups)
    ensures
        g.memberships == GROUP_CIX,
        g.filters == !GROUP_CIX,
{
    CollisionGroups { memberships: GROUP_CIX, filters: !GROUP_CIX }
}

/// The groups of the cast that looks for ground under a body with the
/// groups `body`: it belongs to what the body belongs to, and meets the
/// ground alone.
pub fn hover_filter(body: CollisionGroups) -> (g: CollisionGroups)
    ensures
        g.memberships == body.memberships,
        g.filters == GROUP_GROUND,
{
    CollisionGroups { memberships: body.memberships, filters: GROUP_GROUND }
}

/// The groups of the ray of a shot: it is a shot, and meets everything
/// but the character.
pub fn laser_filter() -> (g: CollisionGroups)
    ensures
        g.memberships == GROUP_BULLET,
        g.filters == !GROUP_CIX,
{
    CollisionGroups { memberships: GROUP_BULLET, filters: !GROUP_CIX }
}

/// Whether the set `groups` holds every group of `other`.
pub fn contains(groups: u32, other: u32) -> (r: bool)
    ensures
        r == group_contains(groups, other),
{
    groups & other == other
}

/// Whether the sets `groups` and `other` share a group.
pub fn intersects(groups: u32, other: u32) -> (r: bool)
    ensures
        r == group_intersects(groups, other),
{
    groups & other != 0
}

/// What is known of a body in a contact: whether it has health, its
/// collision groups if it has any, and whether it is the flower that ends
/// the game.
#[derive(Clone, Copy, Debug, PartialEq, Eq, Structural)]
pub struct Contact {
    pub health: bool,
    pub groups: Option<CollisionGroups>,
    pub flower: bool,
}

/// What a contact leads to.
#[derive(Clone, Copy, Debug, PartialEq, Eq, Structural)]
pub enum Collided {
    /// The first body loses all its health.
    KillFirst,
    /// The second body loses all its health.
    KillSecond,
    /// The character reached the flower: the game ends.
    Finish,
    /// Nothing.
    Nothing,
}

/// The groups that a body with health is taken to have: its own, or all
/// of them where it has none.
pub open spec fn groups_or_all(groups: Option<CollisionGroups>) -> CollisionGroups {
    match groups {
        Some(g) => g,
        None => CollisionGroups { memberships: GROUP_ALL, filters: GROUP_ALL },
    }
}

/// Whether a body with groups `victim` dies of touching a body with
/// groups `other`: the other is static, and the two can touch.
pub open spec fn deadly(victim: CollisionGroups, other: CollisionGroups) -> bool {
    group_contains(other.memberships, GROUP_STATIC) && victim.touches(other)
}

/// Whether the contact is one of the character with the flower.
pub open spec fn reaches_flower(a: Contact, b: Contact) -> bool {
    &&& a.groups is Some
    &&& b.groups is Some
    &&& ((group_contains(a.groups->Some_0.memberships, GROUP_CIX) && b.flower) || (group_contains(
        b.groups->Some_0.memberships,
        GROUP_CIX,
    ) && a.flower))
}

/// What the start of a contact between `a` and `b` leads to, given
/// whether the game has `ended` already. The body that may die is the
/// first, if it has health and the second has groups; else the second, if
/// it has health and the first has groups.
pub open spec fn collided(a: Contact, b: Contact, ended: bool) -> Collided {
    if a.health && b.groups is Some && deadly(groups_or_all(a.groups), b.groups->Some_0) {
        Collided::KillFirst
    } else if !(a.health && b.groups is Some) && b.health && a.groups is Some && deadly(
        groups_or_all(b.groups),
        a.groups->Some_0,
    ) {
        Collided::KillSecond
    } else if !ended && reaches_flower(a, b) {
        Collided::Finish
    } else {
        Collided::Nothing
    }
}

/// Whether a body with groups `victim` dies of touching a body with
/// groups `other`.
pub fn is_deadly(victim: CollisionGroups, other: CollisionGroups) -> (r: bool)
    ensures
        r == deadly(victim, other),
{
    contains(other.memberships, GROUP_STATIC) && intersects(victim.memberships, other.filters)
        && intersects(other.memberships, victim.filters)
}

/// What the start of a contact between two bodies leads to.
pub fn collide_sys(a: Contact, b: Contact, ended: bool) -> (r: Collided)
    ensures
        r == collided(a, b, ended),
{
    let victim: Option<(bool, CollisionGroups, CollisionGroups)> = match (a.health, b.groups) {
        (true, Some(other)) => Some(
            (
                true,
                match a.groups {
                    Some(g) => g,
                    None => CollisionGroups::all(),
                },
                other,
            ),
        ),
        _ => match (b.health, a.groups) {
            (true, Some(other)) => Some(
                (
                    false,
                    match b.groups {
                        Some(g) => g,
                        None => CollisionGroups::all(),
                    },
                    other,
                ),
            ),
            _ => None,
        },
    };
    match victim {
        Some((first, group, other)) => {
            if is_deadly(group, other) {
                return if first {
                    Collided::KillFirst
                } else {
                    Collided::KillSecond
                };
            }
        },
        None => {},
    }
    if !ended {
        match (a.groups, b.groups) {
            (Some(group), Some(other)) => {
                if (contains(group.memberships, GROUP_CIX) && b.flower) || (contains(
                    other.memberships,
                    GROUP_CIX,
                ) && a.flower) {
                    return Collided::Finish;
                }
            },
            _ => {},
        }
    }
    Collided::Nothing
}

} // verus!
