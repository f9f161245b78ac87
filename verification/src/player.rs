//! The player's ship: steering inside the field, shooting, taking hits.

use vstd::prelude::*;
use crate::cooldown::Cooldown;
use crate::coords::{Dimensions, Point, RectI};
use crate::projectile::{overlaps, projectile_box, collide_rectangle, Projectile, ProjType, PROJECTILE_SIDE};
use crate::units::{advance, clamped, half, halved, moved, shifted, Vector};

verus! {

/// What the player holds down during one tick.
#[derive(Clone, Copy, Debug, PartialEq, Eq)]
pub struct Inputs {
    pub up: bool,
    pub down: bool,
    pub left: bool,
    pub right: bool,
    pub shoot: bool,
}

/// The player's ship.
#[derive(Clone, Copy, Debug, PartialEq, Eq)]
pub struct Player {
    pub pos: Point<i32>,
    pub vel: Vector,
    pub size: Dimensions<i32>,
    pub size_hit: Dimensions<i32>,
    pub hp: u32,
    /// Runs while the ship cannot be hurt again.
    pub hp_cd: Cooldown,
    /// Runs while the ship cannot shoot again.
    pub proj_cd: Cooldown,
}

/// Units the ship covers on an axis in one reference frame.
pub const PLAYER_SPEED: i32 = 5_000;

/// Units the ship's shots climb in one reference frame.
pub const PLAYER_SHOT_SPEED: i32 = 10_000;

/// Hit points of a new ship.
pub const PLAYER_HP: u32 = 5;

/// Microseconds during which a ship that was hit cannot be hurt again.
pub const PLAYER_HIT_COOLDOWN: u64 = 2_000_000;

/// Microseconds between two shots of the ship.
pub const PLAYER_SHOT_COOLDOWN: u64 = 250_000;

/// The velocity that the held keys ask for. Opposite keys cancel; keys of
/// the two axes add up, so a diagonal is faster than a straight line.
pub open spec fn heading(inputs: Inputs) -> Vector {
    Vector {
        x: ((if inputs.right { PLAYER_SPEED as int } else { 0 }) - (if inputs.left {
            PLAYER_SPEED as int
        } else {
            0
        })) as i32,
        y: ((if inputs.down { PLAYER_SPEED as int } else { 0 }) - (if inputs.up {
            PLAYER_SPEED as int
        } else {
            0
        })) as i32,
    }
}

/// Where a coordinate ends up on an axis of length `limit`: at `candidate`
/// if that lies on the axis, else where it was.
pub open spec fn slide(pos: int, candidate: int, limit: int) -> int {
    if 0 <= candidate <= limit {
        candidate
    } else {
        pos
    }
}

impl Player {
    /// The ship as a session starts.
    pub open spec fn initial() -> Player {
        Player {
            pos: Point { x: 75_000, y: 200_000 },
            vel: Vector { x: 0, y: 0 },
            size: Dimensions { w: 48_000, h: 48_000 },
            size_hit: Dimensions { w: 10_000, h: 10_000 },
            hp: PLAYER_HP,
            hp_cd: Cooldown::fresh(PLAYER_HIT_COOLDOWN),
            proj_cd: Cooldown::fresh(PLAYER_SHOT_COOLDOWN),
        }
    }

    /// Whether the ship stands in the field: on each axis between zero and
    /// the length of the field, both included.
    pub open spec fn in_field(self, bounds: RectI) -> bool {
        &&& 0 <= self.pos.x <= bounds.dims.w
        &&& 0 <= self.pos.y <= bounds.dims.h
    }

    /// The ship after steering for `dt` microseconds. Each axis moves on its
    /// own: where the step would leave the field on an axis, the ship keeps
    /// its place on that axis and still moves on the other.
    pub open spec fn steered(self, inputs: Inputs, bounds: RectI, dt: u64) -> Player {
        let vel = heading(inputs);
        Player {
            pos: Point {
                x: slide(
                    self.pos.x as int,
                    moved(self.pos.x as int, vel.x as int, dt as int),
                    bounds.dims.w as int,
                ) as i32,
                y: slide(
                    self.pos.y as int,
                    moved(self.pos.y as int, vel.y as int, dt as int),
                    bounds.dims.h as int,
                ) as i32,
            },
            vel,
            ..self
        }
    }

    /// Whether the ship shoots at `now`: the key is held and the timer is over.
    pub open spec fn shoots(self, inputs: Inputs, now: u64) -> bool {
        inputs.shoot && self.proj_cd.ready_at(now)
    }

    /// The shot that the ship fires: from the top edge of the ship, straight up.
    pub open spec fn shot(self) -> Projectile {
        Projectile {
            pos: Point {
                x: self.pos.x,
                y: clamped(self.pos.y - half(self.size.h as int)) as i32,
            },
            vel: Vector { x: 0, y: (-PLAYER_SHOT_SPEED) as i32 },
            variant: ProjType::PlayerShoot,
        }
    }

    /// The ship after shooting at `now`.
    pub open spec fn reloading(self, now: u64) -> Player {
        Player { proj_cd: self.proj_cd.marked(now), ..self }
    }

    /// Whether the projectile hurts the ship at `now`: an enemy fired it, the
    /// ship can be hurt, and the projectile's box overlaps the ship's hit box.
    pub open spec fn struck_by(self, proj: Projectile, now: u64) -> bool {
        &&& !proj.from_player()
        &&& self.hp_cd.ready_at(now)
        &&& overlaps(self.pos, proj.pos, self.size_hit, projectile_box())
    }

    /// The ship after a hit at `now`: one hit point less, but never below
    /// zero, and it cannot be hurt again for a while.
    pub open spec fn wounded(self, now: u64) -> Player {
        Player {
            hp: if self.hp > 0 {
                (self.hp - 1) as u32
            } else {
                0
            },
            hp_cd: self.hp_cd.marked(now),
            ..self
        }
    }

    /// The ship after a run of ticks, each with the keys held in it and the
    /// microseconds it lasted.
    pub open spec fn driven(self, steps: Seq<(Inputs, u64)>, bounds: RectI) -> Player
        decreases steps.len(),
    {
        if steps.len() == 0 {
            self
        } else {
            self.driven(steps.drop_last(), bounds).steered(steps.last().0, bounds, steps.last().1)
        }
    }

    /// The ship as a session starts.
    pub fn new() -> (p: Player)
        ensures
            p == Player::initial(),
    {
        Player {
            pos: Point { x: 75_000, y: 200_000 },
            vel: Vector { x: 0, y: 0 },
            size: Dimensions { w: 48_000, h: 48_000 },
            size_hit: Dimensions { w: 10_000, h: 10_000 },
            hp: PLAYER_HP,
            hp_cd: Cooldown::with_duration(PLAYER_HIT_COOLDOWN),
            proj_cd: Cooldown::with_duration(PLAYER_SHOT_COOLDOWN),
        }
    }

    /// Whether the ship can be hurt at `now`.
    pub fn hp_cd_over(&self, now: u64) -> (over: bool)
        ensures
            over == self.hp_cd.ready_at(now),
    {
        self.hp_cd.is_over(now)
    }

    /// Steers the ship for `dt` microseconds. A ship in the field stays in it.
    pub fn update_pos(&mut self, inputs: &Inputs, bounds: RectI, dt: u64)
        ensures
            *final(self) == old(self).steered(*inputs, bounds, dt),
            old(self).in_field(bounds) ==> final(self).in_field(bounds),
    {
        let mut vel = Vector { x: 0, y: 0 };
        if inputs.left {
            vel.x = vel.x - PLAYER_SPEED;
        }
        if inputs.right {
            vel.x = vel.x + PLAYER_SPEED;
        }
        if inputs.up {
            vel.y = vel.y - PLAYER_SPEED;
        }
        if inputs.down {
            vel.y = vel.y + PLAYER_SPEED;
        }
        self.vel = vel;
        let x: i32 = advance(self.pos.x, vel.x, dt);
        if 0 <= x && x <= bounds.dims.w {
            self.pos.x = x;
        }
        let y: i32 = advance(self.pos.y, vel.y, dt);
        if 0 <= y && y <= bounds.dims.h {
            self.pos.y = y;
        }
    }

    /// Fires a shot if the key is held and the timer is over, and marks the timer.
    pub fn fire(&mut self, inputs: &Inputs, now: u64) -> (fired: Option<Projectile>)
        ensures
            old(self).shoots(*inputs, now) ==> fired == Some(old(self).shot()) && *final(self)
                == old(self).reloading(now),
            !old(self).shoots(*inputs, now) ==> fired.is_none() && *final(self) == *old(self),
    {
        if inputs.shoot && self.proj_cd.is_over(now) {
            let proj = Projectile {
                pos: Point { x: self.pos.x, y: shifted(self.pos.y, -halved(self.size.h)) },
                vel: Vector { x: 0, y: -PLAYER_SHOT_SPEED },
                variant: ProjType::PlayerShoot,
            };
            self.proj_cd.emit(now);
            Some(proj)
        } else {
            None
        }
    }

    /// Whether the projectile hurts the ship at `now`.
    pub fn is_struck_by(&self, proj: &Projectile, now: u64) -> (struck: bool)
        ensures
            struck == self.struck_by(*proj, now),
    {
        !proj.is_player_shot() && self.hp_cd.is_over(now) && collide_rectangle(
            self.pos,
            proj.pos,
            self.size_hit,
            Dimensions { w: PROJECTILE_SIDE, h: PROJECTILE_SIDE },
        )
    }

    /// Takes one hit at `now`.
    pub fn take_hit(&mut self, now: u64)
        ensures
            *final(self) == old(self).wounded(now),
    {
        if self.hp > 0 {
            self.hp = self.hp - 1;
        }
        self.hp_cd.emit(now);
    }
}

/// Steering never takes a ship out of the field, whatever keys are held and
/// however long the tick lasts.
pub proof fn lemma_steering_stays_in_field(p: Player, inputs: Inputs, bounds: RectI, dt: u64)
    requires
        p.in_field(bounds),
    ensures
        p.steered(inputs, bounds, dt).in_field(bounds),
{
}

/// A ship that starts in the field is in the field after any run of ticks.
pub proof fn lemma_player_stays_in_field(p: Player, steps: Seq<(Inputs, u64)>, bounds: RectI)
    requires
        p.in_field(bounds),
    ensures
        p.driven(steps, bounds).in_field(bounds),
    decreases steps.len(),
{
    if steps.len() > 0 {
        lemma_player_stays_in_field(p, steps.drop_last(), bounds);
        lemma_steering_stays_in_field(
            p.driven(steps.drop_last(), bounds),
            steps.last().0,
            bounds,
            steps.last().1,
        );
    }
}

/// Shooting and being hit leave a ship where it is.
pub proof fn lemma_ship_keeps_its_place(p: Player, now: u64)
    ensures
        p.reloading(now).pos == p.pos,
        p.wounded(now).pos == p.pos,
{
}

} // verus!
