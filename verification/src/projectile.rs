//! Projectiles and the overlap test that decides a hit.

use vstd::prelude::*;
use crate::coords::{Dimensions, Point};
use crate::units::{advance, moved, Vector};

verus! {

/// Who fired a projectile, and how.
#[derive(Clone, Copy, Debug, PartialEq, Eq)]
pub enum ProjType {
    /// Fired straight down by an enemy.
    Basic,
    /// Fired by an enemy at the player.
    Aimed,
    /// Fired by the player.
    PlayerShoot,
}

/// A shot in flight. It keeps its velocity for as long as it exists.
#[derive(Clone, Copy, Debug, PartialEq, Eq)]
pub struct Projectile {
    pub pos: Point<i32>,
    pub vel: Vector,
    pub variant: ProjType,
}

/// Side of the square box of every projectile.
pub const PROJECTILE_SIDE: i32 = 10_000;

/// The box of every projectile.
pub open spec fn projectile_box() -> Dimensions<i32> {
    Dimensions { w: PROJECTILE_SIDE, h: PROJECTILE_SIDE }
}

/// Whether two boxes, each given by its centre and full size, overlap: on
/// each axis the two intervals share a point. Stated on doubled coordinates,
/// so that half a side is exact.
pub open spec fn overlaps(
    pos_a: Point<i32>,
    pos_b: Point<i32>,
    size_a: Dimensions<i32>,
    size_b: Dimensions<i32>,
) -> bool {
    &&& 2 * pos_a.x - size_a.w <= 2 * pos_b.x + size_b.w
    &&& 2 * pos_b.x - size_b.w <= 2 * pos_a.x + size_a.w
    &&& 2 * pos_a.y - size_a.h <= 2 * pos_b.y + size_b.h
    &&& 2 * pos_b.y - size_b.h <= 2 * pos_a.y + size_a.h
}

/// Whether two boxes, each given by its centre and full size, overlap.
pub fn collide_rectangle(
    pos_a: Point<i32>,
    pos_b: Point<i32>,
    size_a: Dimensions<i32>,
    size_b: Dimensions<i32>,
) -> (hit: bool)
    ensures
        hit == overlaps(pos_a, pos_b, size_a, size_b),
{
    let ax: i64 = 2 * (pos_a.x as i64);
    let ay: i64 = 2 * (pos_a.y as i64);
    let bx: i64 = 2 * (pos_b.x as i64);
    let by: i64 = 2 * (pos_b.y as i64);
    let aw: i64 = size_a.w as i64;
    let ah: i64 = size_a.h as i64;
    let bw: i64 = size_b.w as i64;
    let bh: i64 = size_b.h as i64;
    ax - aw <= bx + bw && bx - bw <= ax + aw && ay - ah <= by + bh && by - bh <= ay + ah
}

/// Overlap does not depend on which box is named first.
pub proof fn lemma_overlap_symmetric(
    pos_a: Point<i32>,
    pos_b: Point<i32>,
    size_a: Dimensions<i32>,
    size_b: Dimensions<i32>,
)
    ensures
        overlaps(pos_a, pos_b, size_a, size_b) == overlaps(pos_b, pos_a, size_b, size_a),
{
}

/// A box of sides that are not negative overlaps itself.
pub proof fn lemma_overlap_reflexive(pos: Point<i32>, size: Dimensions<i32>)
    requires
        size.w >= 0,
        size.h >= 0,
    ensures
        overlaps(pos, pos, size, size),
{
}

impl Projectile {
    /// Whether the player fired it.
    pub open spec fn from_player(self) -> bool {
        self.variant == ProjType::PlayerShoot
    }

    /// The projectile after `dt` microseconds of flight.
    pub open spec fn flown(self, dt: u64) -> Projectile {
        Projectile {
            pos: Point {
                x: moved(self.pos.x as int, self.vel.x as int, dt as int) as i32,
                y: moved(self.pos.y as int, self.vel.y as int, dt as int) as i32,
            },
            vel: self.vel,
            variant: self.variant,
        }
    }

    /// Whether the player fired it.
    pub fn is_player_shot(&self) -> (mine: bool)
        ensures
            mine == self.from_player(),
    {
        match self.variant {
            ProjType::PlayerShoot => true,
            _ => false,
        }
    }

    /// Moves the projectile along its velocity for `dt` microseconds.
    pub fn update_pos(&mut self, dt: u64)
        ensures
            *final(self) == old(self).flown(dt),
    {
        self.pos = Point {
            x: advance(self.pos.x, self.vel.x, dt),
            y: advance(self.pos.y, self.vel.y, dt),
        };
    }
}

} // verus!
