//! The laser: taking aim, charging, and what a shot hits.
//!
//! Lengths are counted in millionths of a pixel, instants and durations
//! in millionths of a second, angles in millionths of a degree.
use vstd::prelude::*;
use vstd::seq_lib::{to_multiset_build, to_multiset_insert};
use crate::cix::arm::{CixArm, CixArmTarget};
use crate::cix::CixDirection;
use crate::collide::{contains, group_contains, CollisionGroups};
use crate::ext::{clamp_range, AngleExt, HALF_TURN};
use crate::fixed::{bounded, clamp, fits, fx_div, fx_mul, trunc_div, Vec2, ONE};
use crate::health::Living;
use crate::timed::Timed;
use crate::GROUP_STOP_PIERCE;

verus! {

/// Where the player aims: when the attack button went down, and the
/// pointer as seen from the point between the arms.
#[derive(Clone, Copy, Debug, PartialEq, Eq, Structural)]
pub struct CixAttack {
    pub init: i64,
    pub at: Vec2,
}

impl Default for CixAttack {
    fn default() -> (a: Self)
        ensures
            a.init == 0,
            a.at.x == 0,
            a.at.y == 0,
    {
        CixAttack { init: 0, at: Vec2 { x: 0, y: 0 } }
    }
}

/// When the charge of the next shot began.
#[derive(Clone, Copy, Debug, PartialEq, Eq, Structural)]
pub struct CixAttackState {
    pub shoot: i64,
}

impl Default for CixAttackState {
    fn default() -> (s: Self)
        ensures
            s.shoot == 0,
    {
        CixAttackState { shoot: 0 }
    }
}

/// The laser.
#[derive(Clone, Copy, Debug)]
pub struct CixLaser;

impl CixLaser {
    /// How far from the point between the arms the beam leaves.
    pub const ARM_DISTANCE: i64 = 60_000_000;

    /// How far the beam reaches.
    pub const LEN: i64 = 480_000_000;

    /// For how long a beam stays visible.
    pub const LIFE: i64 = 320_000;

    /// How wide a fresh beam is.
    pub const WIDTH: i64 = 16_000_000;

    /// How long the cap at the far end of a beam is.
    pub const CAP_LENGTH: i64 = 64_000_000;

    /// For how long the button has to be held before a shot.
    pub const CHARGE: i64 = 800_000;

    /// How much health a shot takes.
    pub const DAMAGE: i64 = 30_000_000;

    /// How far the aim may stray from straight ahead while the character
    /// stands turned to one side.
    pub const CONE: i64 = 90_000_000;

    /// How much narrower the cone of the aim is in the middle of a turn.
    pub const CONE_SLACK: i64 = 30_000_000;
}

/// A speck of light that gathers at the muzzle while the laser charges.
#[derive(Clone, Copy, Debug, PartialEq, Eq, Structural)]
pub struct CixLaserChargeParticle {
    pub offset: Vec2,
    pub radius: i64,
}

impl Default for CixLaserChargeParticle {
    fn default() -> (p: Self)
        ensures
            p.offset.x == 0,
            p.offset.y == 0,
            p.radius == 0,
    {
        CixLaserChargeParticle { offset: Vec2 { x: 0, y: 0 }, radius: 0 }
    }
}

/// The angle that the character faces: zero while the pose is nearer to
/// facing right, half a turn while it is nearer to facing left.
pub open spec fn cone_center(dir: CixDirection) -> int {
    if dir.facing_spec() >= ONE / 2 {
        0
    } else {
        HALF_TURN as int
    }
}

/// How far the aim may stray from `cone_center`: `CONE` at rest, and up
/// to `CONE_SLACK` less the nearer the turn is to its middle.
pub open spec fn cone_range(dir: CixDirection) -> int {
    CixLaser::CONE - fx_mul(CixLaser::CONE_SLACK as int, dir.turning_spec())
}

/// How much of the charge has gathered `elapsed` after it began, between
/// zero and one.
pub open spec fn charge_fraction(elapsed: int) -> int {
    clamp(fx_div(elapsed, CixLaser::CHARGE as int), 0, ONE as int)
}

/// What the laser does on a tick while the button is held: the angle of
/// the aim, how much of the charge has gathered, and whether a shot
/// leaves.
#[derive(Clone, Copy, Debug, PartialEq, Eq, Structural)]
pub struct CixAim {
    pub angle: i64,
    pub charge: i64,
    pub fire: bool,
}

/// When the charge that counts on this tick began: at the press of the
/// button, if it went down on this tick.
pub open spec fn charge_began(just_pressed: bool, attack: CixAttack, state: CixAttackState) -> i64 {
    if just_pressed {
        attack.init
    } else {
        state.shoot
    }
}

/// One tick of the laser. While the button is held, the aim `aim` is kept
/// within the cone in front of the character; once the charge has lasted
/// `CHARGE`, a shot leaves and the next charge begins. Without the button
/// there is no aim, and the arms hang idle.
pub fn cix_attack_sys(
    pressed: bool,
    just_pressed: bool,
    attack: &CixAttack,
    state: &mut CixAttackState,
    dir: &CixDirection,
    aim: i64,
    now: i64,
) -> (r: Option<CixAim>)
    requires
        dir.wf(),
    ensures
        r is Some <==> pressed,
        !pressed ==> *final(state) == *old(state),
        pressed ==> ({
            let began = charge_began(just_pressed, *attack, *old(state));
            &&& r->Some_0.angle == clamp_range(aim as int, cone_center(*dir), cone_range(*dir))
            &&& r->Some_0.charge == charge_fraction(now - began)
            &&& r->Some_0.fire == (now - began >= CixLaser::CHARGE)
            &&& final(state).shoot == if r->Some_0.fire {
                now
            } else {
                began
            }
        }),
{
    if !pressed {
        return None;
    }
    if just_pressed {
        state.shoot = attack.init;
    }
    let facing: i64 = dir.facing();
    let center: i64 = if facing >= ONE / 2 {
        0
    } else {
        HALF_TURN
    };
    let range: i64 = CixLaser::CONE - 30 * dir.turning();
    proof {
        assert(fx_mul(CixLaser::CONE_SLACK as int, dir.turning_spec()) == 30 * dir.turning_spec())
            by (nonlinear_arith)
            requires
                CixLaser::CONE_SLACK == 30_000_000,
                ONE == 1_000_000,
                0 <= dir.turning_spec(),
        ;
    }
    let angle: i64 = aim.angle_clamp_range(center, range);
    let elapsed: i128 = (now as i128) - (state.shoot as i128);
    proof {
        crate::fixed::lemma_product_bound(
            elapsed as int,
            ONE as int,
            0x1_0000_0000_0000_0000,
            1_000_000,
        );
    }
    let gathered: i128 = (elapsed * (ONE as i128)) / (CixLaser::CHARGE as i128);
    let charge: i64 = if gathered < 0 {
        0
    } else if gathered > ONE as i128 {
        ONE
    } else {
        gathered as i64
    };
    let fire: bool = elapsed >= CixLaser::CHARGE as i128;
    if fire {
        state.shoot = now;
    }
    Some(CixAim { angle, charge, fire })
}

/// Where the beam leaves: `ARM_DISTANCE` along the unit vector `ray_dir`
/// from the point between the arms of a character at `pos`.
pub fn laser_muzzle(pos: Vec2, ray_dir: Vec2) -> (muzzle: Vec2)
    requires
        pos.bounded(),
        ray_dir.bounded(),
    ensures
        muzzle.x == pos.x + CixArm::TARGET_POINT_X + fx_mul(
            ray_dir.x as int,
            CixLaser::ARM_DISTANCE as int,
        ),
        muzzle.y == pos.y + CixArm::TARGET_POINT_Y + fx_mul(
            ray_dir.y as int,
            CixLaser::ARM_DISTANCE as int,
        ),
{
    proof {
        crate::fixed::lemma_product_bound(
            ray_dir.x as int,
            CixLaser::ARM_DISTANCE as int,
            crate::fixed::LIMIT as int,
            60_000_000,
        );
        crate::fixed::lemma_product_bound(
            ray_dir.y as int,
            CixLaser::ARM_DISTANCE as int,
            crate::fixed::LIMIT as int,
            60_000_000,
        );
        crate::fixed::lemma_trunc_div_bound(ray_dir.x * CixLaser::ARM_DISTANCE, ONE as int);
        crate::fixed::lemma_trunc_div_bound(ray_dir.y * CixLaser::ARM_DISTANCE, ONE as int);
    }
    let reach_x: i128 = ((ray_dir.x as i128) * (CixLaser::ARM_DISTANCE as i128)) / (ONE as i128);
    let reach_y: i128 = ((ray_dir.y as i128) * (CixLaser::ARM_DISTANCE as i128)) / (ONE as i128);
    Vec2 {
        x: ((pos.x as i128) + (CixArm::TARGET_POINT_X as i128) + reach_x) as i64,
        y: ((pos.y as i128) + (CixArm::TARGET_POINT_Y as i128) + reach_y) as i64,
    }
}

/// What an arm with its shoulder at `shoulder` reaches for while the
/// laser is aimed: the muzzle, seen from the shoulder.
pub fn arm_target(muzzle: Vec2, shoulder: Vec2) -> (target: CixArmTarget)
    requires
        fits(muzzle.x - shoulder.x),
        fits(muzzle.y - shoulder.y),
    ensures
        target.0 == Some(
            Vec2 { x: (muzzle.x - shoulder.x) as i64, y: (muzzle.y - shoulder.y) as i64 },
        ),
{
    CixArmTarget(Some(Vec2 { x: muzzle.x - shoulder.x, y: muzzle.y - shoulder.y }))
}

/// Something that the ray of a shot went through: what it was, how far
/// along the ray, and its collision groups if it has any.
#[derive(Clone, Copy, Debug, PartialEq, Eq, Structural)]
pub struct LaserHit {
    pub entity: u64,
    pub toi: i64,
    pub groups: Option<CollisionGroups>,
}

impl LaserHit {
    /// Whether the beam ends here: the hit belongs to the group that
    /// shots do not pass through.
    pub open spec fn stops_spec(self) -> bool {
        self.groups is Some && group_contains(self.groups->Some_0.memberships, GROUP_STOP_PIERCE)
    }

    /// Whether the beam ends here.
    pub fn stops(&self) -> (s: bool)
        ensures
            s == self.stops_spec(),
    {
        match self.groups {
            Some(groups) => contains(groups.memberships, GROUP_STOP_PIERCE),
            None => false,
        }
    }
}

/// Whether the hits come nearest first.
pub open spec fn sorted_by_toi(hits: Seq<LaserHit>) -> bool {
    forall|i: int, j: int| 0 <= i <= j < hits.len() ==> hits[i].toi <= hits[j].toi
}

/// Where a hit at distance `toi` goes among hits that come nearest first:
/// before the first hit that is farther, and so behind every hit at the
/// same distance.
pub open spec fn slot(sorted: Seq<LaserHit>, toi: int) -> int
    decreases sorted.len(),
{
    if sorted.len() == 0 || sorted[0].toi > toi {
        0
    } else {
        1 + slot(sorted.drop_first(), toi)
    }
}

/// The hits in order of their distance, nearest first, where hits at the
/// same distance keep the order in which they came: each hit in turn
/// takes its slot among those that came before it.
pub open spec fn nearest_first(hits: Seq<LaserHit>) -> Seq<LaserHit>
    decreases hits.len(),
{
    if hits.len() == 0 {
        hits
    } else {
        let before = nearest_first(hits.drop_last());
        before.insert(slot(before, hits.last().toi as int), hits.last())
    }
}

/// The slot of a hit is the one index behind which no hit is nearer or as
/// near, and before which none is farther.
pub proof fn lemma_slot(sorted: Seq<LaserHit>, toi: int, k: int)
    requires
        0 <= k <= sorted.len(),
        forall|j: int| 0 <= j < k ==> sorted[j].toi <= toi,
        k < sorted.len() ==> sorted[k].toi > toi,
    ensures
        slot(sorted, toi) == k,
    decreases sorted.len(),
{
    if k > 0 {
        let rest = sorted.drop_first();
        assert forall|j: int| 0 <= j < k - 1 implies rest[j].toi <= toi by {
            assert(rest[j] == sorted[j + 1]);
        }
        if k - 1 < rest.len() {
            assert(rest[k - 1] == sorted[k]);
        }
        lemma_slot(rest, toi, k - 1);
    }
}

/// Whether `end` is where the beam ends among `hits`: the index of the
/// first hit that stops it, or the number of hits where none does.
pub open spec fn beam_ends_at(hits: Seq<LaserHit>, end: int) -> bool {
    &&& 0 <= end <= hits.len()
    &&& forall|i: int| 0 <= i < end ==> !(#[trigger] hits[i]).stops_spec()
    &&& end < hits.len() ==> hits[end].stops_spec()
}

/// How often `entity` occurs among `hits`.
pub open spec fn hits_on(hits: Seq<LaserHit>, entity: u64) -> nat {
    hits.filter(|h: LaserHit| h.entity == entity).len()
}

/// What a shot did: the hits along the ray, nearest first; how many of
/// them, from the start, the beam went through; and how long the beam is.
#[derive(Debug)]
pub struct LaserShot {
    pub hits: Vec<LaserHit>,
    pub end: usize,
    pub length: i64,
}

impl LaserShot {
    /// The hits that take damage: those before the end of the beam.
    pub open spec fn pierced(self) -> Seq<LaserHit> {
        self.hits@.take(self.end as int)
    }

    /// The shot is what a ray of length `range` makes of `hits`: the same
    /// hits, nearest first, the beam ending at the first that stops it,
    /// or at `range` where none does.
    pub open spec fn resolves(self, hits: Seq<LaserHit>, range: i64) -> bool {
        &&& self.hits@ == nearest_first(hits)
        &&& self.hits@.to_multiset() == hits.to_multiset()
        &&& sorted_by_toi(self.hits@)
        &&& beam_ends_at(self.hits@, self.end as int)
        &&& self.length == if self.end < self.hits.len() {
            self.hits[self.end as int].toi
        } else {
            range
        }
    }
}

/// The hits in order of their distance along the ray, nearest first.
/// Hits at the same distance keep the order in which they came.
pub fn sort_hits(hits: &Vec<LaserHit>) -> (sorted: Vec<LaserHit>)
    ensures
        sorted@ == nearest_first(hits@),
        sorted@.to_multiset() == hits@.to_multiset(),
        sorted_by_toi(sorted@),
        sorted.len() == hits.len(),
{
    let mut sorted: Vec<LaserHit> = Vec::new();
    let mut i: usize = 0;
    proof {
        assert(hits@.take(0) =~= Seq::<LaserHit>::empty());
    }
    while i < hits.len()
        invariant
            i <= hits.len(),
            sorted.len() == i,
            sorted_by_toi(sorted@),
            sorted@.to_multiset() == hits@.take(i as int).to_multiset(),
            sorted@ == nearest_first(hits@.take(i as int)),
        decreases hits.len() - i,
    {
        let hit: LaserHit = hits[i];
        let mut k: usize = 0;
        while k < sorted.len() && sorted[k].toi <= hit.toi
            invariant
                k <= sorted.len(),
                forall|j: int| 0 <= j < k ==> sorted[j].toi <= hit.toi,
            decreases sorted.len() - k,
        {
            k += 1;
        }
        let ghost before = sorted@;
        sorted.insert(k, hit);
        proof {
            lemma_slot(before, hit.toi as int, k as int);
            assert(hits@.take(i + 1).drop_last() =~= hits@.take(i as int));
            assert(hits@.take(i + 1).last() == hit);
            to_multiset_insert(before, k as int, hit);
            to_multiset_build(hits@.take(i as int), hit);
            assert(hits@.take(i + 1) =~= hits@.take(i as int).push(hit));
            assert forall|a: int, b: int| 0 <= a <= b < sorted.len() implies sorted[a].toi
                <= sorted[b].toi by {
                if b < k {
                    assert(sorted[a] == before[a] && sorted[b] == before[b]);
                } else if b == k {
                    if a < k {
                        assert(sorted[a] == before[a]);
                    }
                } else if a < k {
                    assert(sorted[a] == before[a] && sorted[b] == before[b - 1]);
                } else if a == k {
                    assert(sorted[b] == before[b - 1]);
                    assert(before[k as int].toi <= before[b - 1].toi);
                } else {
                    assert(sorted[a] == before[a - 1] && sorted[b] == before[b - 1]);
                }
            }
        }
        i += 1;
    }
    proof {
        assert(hits@.take(hits.len() as int) =~= hits@);
    }
    sorted
}

/// What a shot along a ray of length `range` does, given everything that
/// the ray went through, in any order: the beam ends at the nearest hit
/// that stops it, and every hit before that takes damage.
pub fn laser_shot(hits: &Vec<LaserHit>, range: i64) -> (shot: LaserShot)
    ensures
        shot.resolves(hits@, range),
{
    let sorted: Vec<LaserHit> = sort_hits(hits);
    let mut end: usize = 0;
    while end < sorted.len() && !sorted[end].stops()
        invariant
            end <= sorted.len(),
            forall|i: int| 0 <= i < end ==> !(#[trigger] sorted[i]).stops_spec(),
        decreases sorted.len() - end,
    {
        end += 1;
    }
    let length: i64 = if end < sorted.len() {
        sorted[end].toi
    } else {
        range
    };
    LaserShot { hits: sorted, end, length }
}

/// The health left after `count` shots: unchanged after none, else what
/// is left of it, and not below zero.
pub open spec fn amount_after_shots(amount: i64, count: nat) -> int {
    if count == 0 {
        amount as int
    } else {
        clamp(amount - count * CixLaser::DAMAGE, 0, i64::MAX as int)
    }
}

/// Takes `DAMAGE` off the health of an enemy for each time the beam went
/// through it. A hit on something that is not among `enemies` does
/// nothing.
pub fn laser_damage(shot: &LaserShot, enemies: &mut Vec<Living>)
    requires
        shot.end <= shot.hits.len(),
    ensures
        final(enemies).len() == old(enemies).len(),
        forall|i: int|
            0 <= i < old(enemies).len() ==> {
                &&& (#[trigger] final(enemies)[i]).entity == old(enemies)[i].entity
                &&& final(enemies)[i].health.max == old(enemies)[i].health.max
                &&& final(enemies)[i].health.amount == amount_after_shots(
                    old(enemies)[i].health.amount,
                    hits_on(shot.pierced(), old(enemies)[i].entity),
                )
            },
{
    let n: usize = enemies.len();
    let mut i: usize = 0;
    while i < n
        invariant
            i <= n,
            n == enemies.len(),
            n == old(enemies).len(),
            shot.end <= shot.hits.len(),
            forall|j: int|
                0 <= j < i ==> {
                    &&& (#[trigger] enemies[j]).entity == old(enemies)[j].entity
                    &&& enemies[j].health.max == old(enemies)[j].health.max
                    &&& enemies[j].health.amount == amount_after_shots(
                        old(enemies)[j].health.amount,
                        hits_on(shot.pierced(), old(enemies)[j].entity),
                    )
                },
            forall|j: int| i <= j < n ==> enemies[j] == old(enemies)[j],
        decreases n - i,
    {
        let mut enemy: Living = enemies[i];
        let ghost start = enemy.health.amount;
        let mut k: usize = 0;
        proof {
            reveal(Seq::filter);
            assert(shot.pierced().take(0) =~= Seq::<LaserHit>::empty());
        }
        while k < shot.end
            invariant
                k <= shot.end <= shot.hits.len(),
                enemy.entity == old(enemies)[i as int].entity,
                enemy.health.max == old(enemies)[i as int].health.max,
                start == old(enemies)[i as int].health.amount,
                enemy.health.amount == amount_after_shots(
                    start,
                    hits_on(shot.pierced().take(k as int), enemy.entity),
                ),
            decreases shot.end - k,
        {
            let ghost seen = shot.pierced().take(k as int);
            let ghost count = hits_on(seen, enemy.entity);
            proof {
                reveal(Seq::filter);
                let next = shot.pierced().take(k + 1);
                assert(next.drop_last() =~= seen);
                assert(next.last() == shot.hits[k as int]);
                seen.lemma_filter_len(|h: LaserHit| h.entity == enemy.entity);
                assert(count * CixLaser::DAMAGE >= 0) by (nonlinear_arith)
                    requires
                        count >= 0,
                        CixLaser::DAMAGE == 30_000_000,
                ;
                assert((count + 1) * CixLaser::DAMAGE == count * CixLaser::DAMAGE
                    + CixLaser::DAMAGE) by (nonlinear_arith);
            }
            if shot.hits[k].entity == enemy.entity {
                enemy.health.damage(CixLaser::DAMAGE);
            }
            k += 1;
        }
        proof {
            assert(shot.pierced().take(shot.end as int) =~= shot.pierced());
        }
        enemies.set(i, enemy);
        i += 1;
    }
}

/// A beam as it appears: where it leaves and at which angle; its three
/// parts, the cap at the muzzle, the body and the cap at the far end, each
/// with its size along and across the beam; where along the beam the far
/// cap sits; and the timer that ends the beam.
#[derive(Clone, Copy, Debug, PartialEq, Eq, Structural)]
pub struct LaserBeam {
    pub origin: Vec2,
    pub angle: i64,
    pub cap: Vec2,
    pub body: Vec2,
    pub far_cap: Vec2,
    pub far_at: i64,
    pub timed: Timed,
}

/// The beam of a shot that leaves `origin` at `angle` and reaches
/// `length`. It lives for `LIFE`.
pub fn laser_beam(origin: Vec2, angle: i64, length: i64) -> (beam: LaserBeam)
    requires
        fits(length + ONE),
    ensures
        beam.origin == origin,
        beam.angle == angle,
        beam.cap == (Vec2 { x: CixLaser::WIDTH, y: CixLaser::WIDTH }),
        beam.body == (Vec2 { x: (length + ONE) as i64, y: CixLaser::WIDTH }),
        beam.far_cap == (Vec2 { x: CixLaser::CAP_LENGTH, y: CixLaser::WIDTH }),
        beam.far_at == length + ONE / 2,
        beam.timed == (Timed { life: 0, lifetime: CixLaser::LIFE, backwards: false, scale: ONE }),
{
    LaserBeam {
        origin,
        angle,
        cap: Vec2 { x: CixLaser::WIDTH, y: CixLaser::WIDTH },
        body: Vec2 { x: length + ONE, y: CixLaser::WIDTH },
        far_cap: Vec2 { x: CixLaser::CAP_LENGTH, y: CixLaser::WIDTH },
        far_at: length + ONE / 2,
        timed: Timed::new(CixLaser::LIFE),
    }
}

/// How a beam looks at a moment of its life: how far its colour has
/// faded, and how wide it still is.
#[derive(Clone, Copy, Debug, PartialEq, Eq, Structural)]
pub struct LaserGlow {
    pub fade: i64,
    pub width: i64,
}

/// How far the colour of a beam has faded when the fraction `f` of its
/// life has passed: fast at first, then slowly.
pub open spec fn beam_fade(f: int) -> int {
    ONE - fx_mul(f - ONE, f - ONE)
}

/// How wide a beam still is when the fraction `f` of its life has passed:
/// it thins slowly at first, then fast.
pub open spec fn beam_width(f: int) -> int {
    fx_mul(CixLaser::WIDTH as int, ONE - fx_mul(f, f))
}

/// How the beam with the timer `timed` looks now.
pub fn cix_attack_update_sys(timed: Timed) -> (glow: LaserGlow)
    ensures
        glow.fade == beam_fade(timed.fin_spec()),
        glow.width == beam_width(timed.fin_spec()),
        0 <= glow.fade <= ONE,
        0 <= glow.width <= CixLaser::WIDTH,
{
    let f: i64 = timed.fin();
    proof {
        crate::fixed::lemma_fx_mul_fraction(f as int, f as int);
        crate::fixed::lemma_fx_mul_fraction(ONE - f, ONE - f);
        assert((f - ONE) * (f - ONE) == (ONE - f) * (ONE - f)) by (nonlinear_arith);
        assert(0 <= f * f <= ONE * ONE) by (nonlinear_arith)
            requires
                0 <= f <= ONE,
        ;
        assert(0 <= (ONE - f) * (ONE - f) <= ONE * ONE) by (nonlinear_arith)
            requires
                0 <= f <= ONE,
        ;
        crate::fixed::lemma_fx_mul_fraction(CixLaser::WIDTH as int, ONE - fx_mul(f as int, f as int));
        assert(0 <= CixLaser::WIDTH * (ONE - fx_mul(f as int, f as int)) <= CixLaser::WIDTH * ONE)
            by (nonlinear_arith)
            requires
                0 <= ONE - fx_mul(f as int, f as int) <= ONE,
                CixLaser::WIDTH == 16_000_000,
        ;
    }
    let rest: i64 = f - ONE;
    let fade: i64 = ONE - (rest * rest) / ONE;
    let thin: i64 = ONE - (f * f) / ONE;
    let width: i64 = (CixLaser::WIDTH * thin) / ONE;
    LaserGlow { fade, width }
}

} // verus!
