//! Enemies: their kinds, the states they pass through, how they move and shoot.

use vstd::prelude::*;
use crate::cooldown::Cooldown;
use crate::coords::{Dimensions, Point, RectI};
use crate::projectile::{overlaps, projectile_box, collide_rectangle, Projectile, ProjType, PROJECTILE_SIDE};
use crate::units::{
    advance, clamp_to_i32, clamped, div_toward_zero, lemma_scaled_bounded, moved, scaled,
    scaled_direction, shifted, trunc_div, Vector,
};

verus! {

/// The kinds of enemy.
#[derive(Clone, Copy, Debug, PartialEq, Eq)]
pub enum EnemyType {
    Basic,
    Sniper,
}

/// How an enemy on screen picks its velocity.
#[derive(Clone, Copy, Debug, PartialEq, Eq)]
pub enum Behavior {
    /// Down and to the left: toward the vertical centre line of the field for
    /// an enemy beyond it, away from it for an enemy on it or before it.
    Funnel,
    /// Across, at a right angle to the line toward the middle of the top edge.
    Sweep,
}

/// Where an enemy is in its life. It only ever moves forward through these.
#[derive(Clone, Copy, Debug, PartialEq, Eq)]
pub enum EnemyState {
    /// Still on its way into the field.
    NotSpawned,
    /// In the field, moving as the behavior says that was bound on entry.
    OnScreen(Behavior),
    /// Left the field; to be removed.
    OffScreen,
}

/// An enemy.
#[derive(Clone, Copy, Debug, PartialEq, Eq)]
pub struct Enemy {
    pub pos: Point<i32>,
    pub vel: Vector,
    pub size: Dimensions<i32>,
    pub hp: i32,
    /// Runs while the enemy cannot shoot again.
    pub proj_cd: Cooldown,
    pub variant: EnemyType,
    pub state: EnemyState,
}

/// Units an enemy falls in one reference frame, before and after it enters.
pub const ENEMY_SPEED: i32 = 500;

/// Units a sweeping enemy covers in one reference frame.
pub const SWEEP_SPEED: i32 = 2_500;

/// Units an enemy's shot covers in one reference frame.
pub const ENEMY_SHOT_SPEED: i32 = 10_000;

/// Microseconds between two shots of a basic enemy: twenty-five reference frames.
pub const BASIC_SHOT_COOLDOWN: u64 = 416_666;

/// Microseconds between two shots of a sniper: forty reference frames.
pub const SNIPER_SHOT_COOLDOWN: u64 = 666_666;

/// Hit points that one shot of the player takes.
pub const SHOT_DAMAGE: i32 = 2;

/// Size of an enemy of the kind.
pub open spec fn size_of(variant: EnemyType) -> Dimensions<i32> {
    match variant {
        EnemyType::Basic => Dimensions { w: 48_000, h: 48_000 },
        EnemyType::Sniper => Dimensions { w: 32_000, h: 48_000 },
    }
}

/// Microseconds between two shots of an enemy of the kind.
pub open spec fn shot_cooldown_of(variant: EnemyType) -> u64 {
    match variant {
        EnemyType::Basic => BASIC_SHOT_COOLDOWN,
        EnemyType::Sniper => SNIPER_SHOT_COOLDOWN,
    }
}

/// The behavior that an enemy of the kind takes up when it enters the field.
pub open spec fn behavior_of(variant: EnemyType) -> Behavior {
    match variant {
        EnemyType::Basic => Behavior::Funnel,
        EnemyType::Sniper => Behavior::Sweep,
    }
}

/// How far below its origin an enemy of height `h` lets its shots go: three
/// fifths of the height.
pub open spec fn muzzle_drop(h: int) -> int {
    trunc_div(3 * h, 5)
}

impl Behavior {
    /// The velocity of an enemy at `pos` in a field of the given bounds.
    pub open spec fn steer(self, pos: Point<i32>, bounds: RectI) -> Vector {
        match self {
            Behavior::Funnel => Vector { x: (-ENEMY_SPEED) as i32, y: ENEMY_SPEED },
            Behavior::Sweep => {
                let to_mid = scaled(bounds.dims.w - 2 * pos.x, -2 * pos.y, SWEEP_SPEED as int);
                Vector { x: to_mid.y, y: (-to_mid.x) as i32 }
            },
        }
    }

    /// The velocity of an enemy at `pos` in a field of the given bounds.
    pub fn velocity(self, pos: Point<i32>, bounds: RectI) -> (v: Vector)
        ensures
            v == self.steer(pos, bounds),
    {
        match self {
            Behavior::Funnel => Vector { x: -ENEMY_SPEED, y: ENEMY_SPEED },
            Behavior::Sweep => {
                let to_mid = scaled_direction(
                    bounds.dims.w as i64 - 2 * (pos.x as i64),
                    0 - 2 * (pos.y as i64),
                    SWEEP_SPEED,
                );
                Vector { x: to_mid.y, y: -to_mid.x }
            },
        }
    }
}

impl EnemyState {
    /// How far along its life the state is.
    pub open spec fn rank(self) -> int {
        match self {
            EnemyState::NotSpawned => 0,
            EnemyState::OnScreen(_) => 1,
            EnemyState::OffScreen => 2,
        }
    }
}

impl Enemy {
    /// Hit points of a new enemy of the kind.
    pub open spec fn spec_max_hp(variant: EnemyType) -> i32 {
        match variant {
            EnemyType::Basic => 15,
            EnemyType::Sniper => 8,
        }
    }

    /// A new enemy of the kind at `pos`, at rest and not yet in the field.
    pub open spec fn spawned(pos: Point<i32>, variant: EnemyType) -> Enemy {
        Enemy {
            pos,
            vel: Vector { x: 0, y: 0 },
            size: size_of(variant),
            hp: Enemy::spec_max_hp(variant),
            proj_cd: Cooldown::fresh(shot_cooldown_of(variant)),
            variant,
            state: EnemyState::NotSpawned,
        }
    }

    /// The enemy moved along `vel` for `dt` microseconds, keeping `vel`.
    pub open spec fn carried(self, vel: Vector, dt: u64) -> Enemy {
        Enemy {
            pos: Point {
                x: moved(self.pos.x as int, vel.x as int, dt as int) as i32,
                y: moved(self.pos.y as int, vel.y as int, dt as int) as i32,
            },
            vel,
            ..self
        }
    }

    /// The enemy after one tick of `dt` microseconds.
    ///
    /// On its way in it falls at the entry speed, and enters the field, bound
    /// to the behavior of its kind, as soon as that step lands inside. In the
    /// field it takes the velocity that its behavior gives, and has left once
    /// it stands outside. In every state it then moves along its velocity.
    pub open spec fn stepped(self, bounds: RectI, dt: u64) -> Enemy {
        match self.state {
            EnemyState::NotSpawned => {
                let fallen = self.carried(Vector { x: 0, y: ENEMY_SPEED }, dt);
                let state = if bounds.spec_contains(fallen.pos) {
                    EnemyState::OnScreen(behavior_of(self.variant))
                } else {
                    EnemyState::NotSpawned
                };
                (Enemy { state, ..fallen }).carried(fallen.vel, dt)
            },
            EnemyState::OnScreen(behavior) => {
                let state = if bounds.spec_contains(self.pos) {
                    EnemyState::OnScreen(behavior)
                } else {
                    EnemyState::OffScreen
                };
                (Enemy { state, ..self }).carried(behavior.steer(self.pos, bounds), dt)
            },
            EnemyState::OffScreen => self.carried(self.vel, dt),
        }
    }

    /// Whether the enemy shoots at `now`: it stands in the field and its timer
    /// is over, whatever its state.
    pub open spec fn shoots(self, bounds: RectI, now: u64) -> bool {
        self.proj_cd.ready_at(now) && bounds.spec_contains(self.pos)
    }

    /// Where the enemy's shots start.
    pub open spec fn muzzle(self) -> Point<i32> {
        Point {
            x: self.pos.x,
            y: clamped(self.pos.y + muzzle_drop(self.size.h as int)) as i32,
        }
    }

    /// The shot that the enemy fires with the player at `target`: a basic
    /// enemy shoots straight down, a sniper at the player, and not at all
    /// sideways or down where the player stands on the muzzle.
    pub open spec fn shot(self, target: Point<i32>) -> Projectile {
        let pos = self.muzzle();
        match self.variant {
            EnemyType::Basic => Projectile {
                pos,
                vel: Vector { x: 0, y: ENEMY_SHOT_SPEED },
                variant: ProjType::Basic,
            },
            EnemyType::Sniper => Projectile {
                pos,
                vel: scaled(target.x - pos.x, target.y - pos.y, ENEMY_SHOT_SPEED as int),
                variant: ProjType::Aimed,
            },
        }
    }

    /// The enemy after shooting at `now`.
    pub open spec fn reloading(self, now: u64) -> Enemy {
        Enemy { proj_cd: self.proj_cd.marked(now), ..self }
    }

    /// Whether the projectile hits the enemy: the player fired it and its box
    /// overlaps the enemy's.
    pub open spec fn hit_by(self, proj: Projectile) -> bool {
        proj.from_player() && overlaps(self.pos, proj.pos, self.size, projectile_box())
    }

    /// The enemy after one shot of the player has hit it.
    pub open spec fn damaged(self) -> Enemy {
        Enemy { hp: clamped(self.hp - SHOT_DAMAGE) as i32, ..self }
    }

    /// Whether the enemy has no hit points left.
    pub open spec fn dead(self) -> bool {
        self.hp <= 0
    }

    /// The enemy after a run of ticks, each with the bounds of the field
    /// during it and the microseconds it lasted.
    pub open spec fn lived(self, steps: Seq<(RectI, u64)>) -> Enemy
        decreases steps.len(),
    {
        if steps.len() == 0 {
            self
        } else {
            self.lived(steps.drop_last()).stepped(steps.last().0, steps.last().1)
        }
    }

    /// A new enemy of the kind at `pos`, at rest and not yet in the field.
    pub fn spawn(pos: Point<i32>, variant: EnemyType) -> (e: Enemy)
        ensures
            e == Enemy::spawned(pos, variant),
    {
        let (size, proj_cd) = match variant {
            EnemyType::Basic => (
                Dimensions { w: 48_000, h: 48_000 },
                Cooldown::with_duration(BASIC_SHOT_COOLDOWN),
            ),
            EnemyType::Sniper => (
                Dimensions { w: 32_000, h: 48_000 },
                Cooldown::with_duration(SNIPER_SHOT_COOLDOWN),
            ),
        };
        Enemy {
            pos,
            vel: Vector { x: 0, y: 0 },
            size,
            hp: Enemy::max_hp(variant),
            proj_cd,
            variant,
            state: EnemyState::NotSpawned,
        }
    }

    /// Hit points of a new enemy of the kind.
    #[verifier::when_used_as_spec(spec_max_hp)]
    pub fn max_hp(variant: EnemyType) -> (hp: i32)
        ensures
            hp == Enemy::spec_max_hp(variant),
    {
        match variant {
            EnemyType::Basic => 15,
            EnemyType::Sniper => 8,
        }
    }

    /// The behavior that the enemy takes up on entering the field.
    pub fn enemy_func(&self) -> (b: Behavior)
        ensures
            b == behavior_of(self.variant),
    {
        match self.variant {
            EnemyType::Basic => Behavior::Funnel,
            EnemyType::Sniper => Behavior::Sweep,
        }
    }

    fn carry(&mut self, dt: u64)
        ensures
            *final(self) == old(self).carried(old(self).vel, dt),
    {
        self.pos = Point {
            x: advance(self.pos.x, self.vel.x, dt),
            y: advance(self.pos.y, self.vel.y, dt),
        };
    }

    /// Advances the enemy by one tick of `dt` microseconds. Its state stays
    /// or moves one step forward, never back.
    pub fn update_pos(&mut self, bounds: RectI, dt: u64)
        ensures
            *final(self) == old(self).stepped(bounds, dt),
            old(self).state.rank() <= final(self).state.rank() <= old(self).state.rank() + 1,
    {
        match self.state {
            EnemyState::NotSpawned => {
                self.vel = Vector { x: 0, y: ENEMY_SPEED };
                self.carry(dt);
                if bounds.contains(self.pos) {
                    self.state = EnemyState::OnScreen(self.enemy_func());
                }
            },
            EnemyState::OnScreen(behavior) => {
                self.vel = behavior.velocity(self.pos, bounds);
                if !bounds.contains(self.pos) {
                    self.state = EnemyState::OffScreen;
                }
            },
            EnemyState::OffScreen => {},
        }
        self.carry(dt);
    }

    /// Fires a shot if the enemy stands in the field and its timer is over,
    /// and marks the timer.
    pub fn fire(&mut self, bounds: RectI, target: Point<i32>, now: u64) -> (fired: Option<
        Projectile,
    >)
        ensures
            old(self).shoots(bounds, now) ==> fired == Some(old(self).shot(target)) && *final(self)
                == old(self).reloading(now),
            !old(self).shoots(bounds, now) ==> fired.is_none() && *final(self) == *old(self),
    {
        if self.proj_cd.is_over(now) && bounds.contains(self.pos) {
            let drop: i128 = div_toward_zero(3 * (self.size.h as i128), 5);
            let pos = Point { x: self.pos.x, y: clamp_to_i32(self.pos.y as i128 + drop) };
            let proj = match self.variant {
                EnemyType::Basic => Projectile {
                    pos,
                    vel: Vector { x: 0, y: ENEMY_SHOT_SPEED },
                    variant: ProjType::Basic,
                },
                EnemyType::Sniper => Projectile {
                    pos,
                    vel: scaled_direction(
                        target.x as i64 - pos.x as i64,
                        target.y as i64 - pos.y as i64,
                        ENEMY_SHOT_SPEED,
                    ),
                    variant: ProjType::Aimed,
                },
            };
            self.proj_cd.emit(now);
            Some(proj)
        } else {
            None
        }
    }

    /// Whether the projectile hits the enemy.
    pub fn is_hit_by(&self, proj: &Projectile) -> (hit: bool)
        ensures
            hit == self.hit_by(*proj),
    {
        proj.is_player_shot() && collide_rectangle(
            self.pos,
            proj.pos,
            self.size,
            Dimensions { w: PROJECTILE_SIDE, h: PROJECTILE_SIDE },
        )
    }

    /// Takes the damage of one shot of the player.
    pub fn take_hit(&mut self)
        ensures
            *final(self) == old(self).damaged(),
    {
        self.hp = shifted(self.hp, -SHOT_DAMAGE);
    }

    /// Whether the enemy has no hit points left.
    pub fn is_dead(&self) -> (gone: bool)
        ensures
            gone == self.dead(),
    {
        self.hp <= 0
    }
}

/// An enemy that funnels falls at the entry speed. Sideways it heads for the
/// vertical centre line of the field while it is beyond the line, and away
/// from the line while it is on it or before it.
pub proof fn lemma_funnel_heading(pos: Point<i32>, bounds: RectI)
    ensures
        Behavior::Funnel.steer(pos, bounds).y == ENEMY_SPEED,
        2 * pos.x > bounds.dims.w ==> 2 * (pos.x + Behavior::Funnel.steer(pos, bounds).x)
            - bounds.dims.w < 2 * pos.x - bounds.dims.w,
        2 * pos.x <= bounds.dims.w ==> bounds.dims.w - 2 * (pos.x + Behavior::Funnel.steer(
            pos,
            bounds,
        ).x) > bounds.dims.w - 2 * pos.x,
{
}

/// An enemy that sweeps moves at a right angle to the line from where it is
/// to the middle of the top edge, and on neither axis faster than the sweep
/// speed.
pub proof fn lemma_sweep_heading(pos: Point<i32>, bounds: RectI)
    ensures
        ({
            let to_mid = scaled(bounds.dims.w - 2 * pos.x, -2 * pos.y, SWEEP_SPEED as int);
            let v = Behavior::Sweep.steer(pos, bounds);
            &&& v.x * to_mid.x + v.y * to_mid.y == 0
            &&& -SWEEP_SPEED <= v.x <= SWEEP_SPEED
            &&& -SWEEP_SPEED <= v.y <= SWEEP_SPEED
        }),
{
    lemma_scaled_bounded(bounds.dims.w - 2 * pos.x, -2 * pos.y, SWEEP_SPEED as int);
    let to_mid = scaled(bounds.dims.w - 2 * pos.x, -2 * pos.y, SWEEP_SPEED as int);
    assert(to_mid.y * to_mid.x + (-to_mid.x) * to_mid.y == 0) by (nonlinear_arith);
}

/// One tick leaves the state of an enemy where it is or takes it one step
/// forward. An enemy that enters the field is bound to the behavior of its
/// kind, and keeps that behavior for as long as it is on screen. Its kind,
/// size and hit points do not change.
pub proof fn lemma_step_moves_forward(e: Enemy, bounds: RectI, dt: u64)
    ensures
        e.state.rank() <= e.stepped(bounds, dt).state.rank() <= e.state.rank() + 1,
        e.state is NotSpawned && e.stepped(bounds, dt).state is OnScreen ==> e.stepped(
            bounds,
            dt,
        ).state == EnemyState::OnScreen(behavior_of(e.variant)),
        e.state is OnScreen && e.stepped(bounds, dt).state is OnScreen ==> e.stepped(
            bounds,
            dt,
        ).state == e.state,
        e.stepped(bounds, dt).variant == e.variant,
        e.stepped(bounds, dt).size == e.size,
        e.stepped(bounds, dt).hp == e.hp,
        e.stepped(bounds, dt).proj_cd == e.proj_cd,
{
}

/// Over any run of ticks the state of an enemy never goes back: what it was
/// after the first `k` ticks is no further along than what it is at the end,
/// and if it was on screen then and is on screen at the end, it has kept its
/// behavior.
pub proof fn lemma_state_never_returns(e: Enemy, steps: Seq<(RectI, u64)>, k: int)
    requires
        0 <= k <= steps.len(),
    ensures
        e.lived(steps.take(k)).state.rank() <= e.lived(steps).state.rank(),
        e.lived(steps.take(k)).state is OnScreen && e.lived(steps).state is OnScreen ==> e.lived(
            steps.take(k),
        ).state == e.lived(steps).state,
    decreases steps.len(),
{
    if k == steps.len() {
        assert(steps.take(k) == steps);
    } else {
        let earlier = steps.drop_last();
        assert(earlier.take(k) == steps.take(k));
        lemma_state_never_returns(e, earlier, k);
        lemma_step_moves_forward(e.lived(earlier), steps.last().0, steps.last().1);
    }
}

/// A hit and a shot leave the state of an enemy as it is.
pub proof fn lemma_state_kept_otherwise(e: Enemy, now: u64)
    ensures
        e.damaged().state == e.state,
        e.reloading(now).state == e.state,
{
}

} // verus!
