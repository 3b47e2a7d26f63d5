//! What the character wears, and how it follows a turn.
//!
//! Lengths are counted in millionths of a pixel.
use vstd::prelude::*;
use crate::cix::CixDirection;
use crate::fixed::{fx_mul, ONE};

verus! {

/// A piece of attire.
#[derive(Clone, Copy, Debug, PartialEq, Eq, Structural)]
pub enum CixAttire {
    RedCollar,
    BlueCape,
    PinkCollar,
    RedScarf,
    PinkScarf,
}

/// Where a sprite that hangs on the body sits and how it is drawn while
/// the character turns: its place across the body, how much of its size
/// it keeps, and whether it is mirrored.
#[derive(Clone, Copy, Debug, PartialEq, Eq, Structural)]
pub struct TurnPose {
    pub x: i64,
    pub scale: i64,
    pub flip: bool,
}

/// How much of its size a sprite keeps: all of it at either end of a
/// turn, and `ROTATE_SHRINK` less in the middle.
pub open spec fn turn_scale(dir: CixDirection) -> int {
    ONE - fx_mul(dir.turning_spec(), CixAttire::ROTATE_SHRINK as int)
}

/// Where across the body a sprite sits whose place at rest is `offset_x`.
pub open spec fn turn_x(dir: CixDirection, offset_x: int) -> int {
    fx_mul(offset_x, dir.anchor_spec())
}

/// The pose of a sprite whose place at rest is `offset_x`.
pub fn turn_pose(dir: &CixDirection, offset_x: i64) -> (pose: TurnPose)
    requires
        dir.wf(),
        crate::fixed::bounded(offset_x as int),
    ensures
        pose.x == turn_x(*dir, offset_x as int),
        pose.scale == turn_scale(*dir),
        pose.flip == dir.flipped_spec(),
        ONE - CixAttire::ROTATE_SHRINK <= pose.scale <= ONE,
        crate::fixed::abs(pose.x as int) <= crate::fixed::abs(offset_x as int),
{
    let anchor: i64 = dir.anchor();
    let turning: i64 = dir.turning();
    proof {
        crate::fixed::lemma_fx_mul_fraction(
            CixAttire::ROTATE_SHRINK as int,
            turning as int,
        );
        assert(turning * CixAttire::ROTATE_SHRINK == CixAttire::ROTATE_SHRINK * turning)
            by (nonlinear_arith);
        assert(0 <= turning * CixAttire::ROTATE_SHRINK <= ONE * 400_000) by (nonlinear_arith)
            requires
                0 <= turning <= ONE,
                CixAttire::ROTATE_SHRINK == 400_000,
        ;
        crate::fixed::lemma_product_bound(
            offset_x as int,
            anchor as int,
            crate::fixed::LIMIT as int,
            ONE as int,
        );
        if anchor >= 0 {
            crate::fixed::lemma_fx_mul_fraction(offset_x as int, anchor as int);
        } else {
            crate::fixed::lemma_fx_mul_fraction(offset_x as int, -anchor);
            assert(offset_x * (-anchor) == -(offset_x * anchor)) by (nonlinear_arith);
            crate::fixed::lemma_trunc_div_bound(offset_x * anchor, ONE as int);
        }
    }
    let x: i128 = ((offset_x as i128) * (anchor as i128)) / (ONE as i128);
    TurnPose {
        x: x as i64,
        scale: ONE - (turning * CixAttire::ROTATE_SHRINK) / ONE,
        flip: dir.flipped(),
    }
}

impl CixAttire {
    /// How far below the centre of the head the collar sits.
    pub const OFFSET: i64 = 27_000_000;

    /// How much narrower a sprite gets in the middle of a turn.
    pub const ROTATE_SHRINK: i64 = 400_000;

    /// Every piece of attire, the one drawn on top first.
    pub const ALL: [CixAttire; 5] = [
        CixAttire::RedCollar,
        CixAttire::BlueCape,
        CixAttire::PinkCollar,
        CixAttire::RedScarf,
        CixAttire::PinkScarf,
    ];

    /// Where the piece sits, measured from the collar.
    pub open spec fn offset_spec(self) -> (int, int) {
        match self {
            CixAttire::RedCollar => (0, 0),
            CixAttire::BlueCape => (-14_000_000, -12_000_000),
            CixAttire::PinkCollar => (1_000_000, 0),
            CixAttire::RedScarf => (14_000_000, -26_000_000),
            CixAttire::PinkScarf => (8_000_000, -25_000_000),
        }
    }

    /// Where the piece sits, measured from the collar.
    pub fn offset(self) -> (v: crate::fixed::Vec2)
        ensures
            v.x == self.offset_spec().0,
            v.y == self.offset_spec().1,
    {
        match self {
            CixAttire::RedCollar => crate::fixed::Vec2 { x: 0, y: 0 },
            CixAttire::BlueCape => crate::fixed::Vec2 { x: -14_000_000, y: -12_000_000 },
            CixAttire::PinkCollar => crate::fixed::Vec2 { x: 1_000_000, y: 0 },
            CixAttire::RedScarf => crate::fixed::Vec2 { x: 14_000_000, y: -26_000_000 },
            CixAttire::PinkScarf => crate::fixed::Vec2 { x: 8_000_000, y: -25_000_000 },
        }
    }

    /// How tall the piece is.
    pub fn height(self) -> (h: i64)
        ensures
            h == match self {
                CixAttire::RedCollar => 16_000_000i64,
                CixAttire::BlueCape => 26_000_000i64,
                CixAttire::PinkCollar => 13_000_000i64,
                CixAttire::RedScarf => 55_000_000i64,
                CixAttire::PinkScarf => 36_000_000i64,
            },
    {
        match self {
            CixAttire::RedCollar => 16_000_000,
            CixAttire::BlueCape => 26_000_000,
            CixAttire::PinkCollar => 13_000_000,
            CixAttire::RedScarf => 55_000_000,
            CixAttire::PinkScarf => 36_000_000,
        }
    }
}

/// The pose of a piece of attire while the character turns: it crosses
/// the body with the turn, gets narrower in the middle of it, and is
/// mirrored while the character is nearer to facing left.
pub fn cix_direct_attire_sys(dir: &CixDirection, attire: CixAttire) -> (pose: TurnPose)
    requires
        dir.wf(),
    ensures
        pose.x == turn_x(*dir, attire.offset_spec().0),
        pose.scale == turn_scale(*dir),
        pose.flip == dir.flipped_spec(),
{
    turn_pose(dir, attire.offset().x)
}

} // verus!
