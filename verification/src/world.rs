//! The world: every entity of a session, and the steps of one tick.
//!
//! A tick fires the events that are due, moves the player and the enemies and
//! lets them shoot, moves the projectiles and settles their hits, and then
//! says whether the session goes on.

use vstd::prelude::*;
use crate::cooldown::Cooldown;
use crate::coords::{Dimensions, Point, RectI};
use crate::enemy::{Enemy, EnemyState};
use crate::events::{due_at, recorded, resolving, waiting_at, Event, EventSystem};
use crate::player::{Inputs, Player};
use crate::projectile::Projectile;

verus! {

/// What a tick says of the session.
#[derive(Clone, Copy, Debug, PartialEq, Eq)]
pub enum Outcome {
    /// The session goes on.
    Continue,
    /// No enemy is left and none is to come; with the final score.
    Win(u64),
    /// The player has no hit points left; with the final score.
    Lose(u64),
}

/// Score for an enemy shot down.
pub const KILL_SCORE: u64 = 100;

/// Microseconds between two readings of the frame rate.
pub const FPS_SAMPLING: u64 = 100_000;

/// Everything that a session holds.
pub struct World {
    pub player: Player,
    pub projectiles: Vec<Projectile>,
    pub enemies: Vec<Enemy>,
    /// The field. It does not change during a session.
    pub rect: RectI,
    /// Runs while the frame rate is not to be read again.
    pub fps_cd: Cooldown,
    pub fps: u32,
    pub score: u64,
    pub event_syst: EventSystem,
}

/// A world as contracts see it.
pub struct WorldView {
    pub player: Player,
    pub projectiles: Seq<Projectile>,
    pub enemies: Seq<Enemy>,
    pub rect: RectI,
    pub fps_cd: Cooldown,
    pub fps: u32,
    pub score: u64,
    /// The events that have not fired.
    pub pending: Seq<Event>,
    /// For each event that fired, by id, the time it was set for.
    pub history: Map<u32, u64>,
    pub latest_id: u32,
}

impl View for World {
    type V = WorldView;

    open spec fn view(&self) -> WorldView {
        WorldView {
            player: self.player,
            projectiles: self.projectiles@,
            enemies: self.enemies@,
            rect: self.rect,
            fps_cd: self.fps_cd,
            fps: self.fps,
            score: self.score,
            pending: self.event_syst.list@,
            history: self.event_syst.history@,
            latest_id: self.event_syst.latest_id,
        }
    }
}

/// The enemies that the events bring, in the order of the events.
pub open spec fn arrivals(fired: Seq<Event>) -> Seq<Enemy>
    decreases fired.len(),
{
    if fired.len() == 0 {
        Seq::empty()
    } else {
        let earlier = arrivals(fired.drop_last());
        match fired.last().brings() {
            Some(e) => earlier.push(e),
            None => earlier,
        }
    }
}

/// An enemy after its part of a tick: moved, and reloading if it shot.
pub open spec fn acted(e: Enemy, rect: RectI, dt: u64, now: u64) -> Enemy {
    let moved = e.stepped(rect, dt);
    if moved.shoots(rect, now) {
        moved.reloading(now)
    } else {
        moved
    }
}

/// An enemy's part of a tick, as a function of the enemy.
pub open spec fn acting(rect: RectI, dt: u64, now: u64) -> spec_fn(Enemy) -> Enemy {
    |e: Enemy| acted(e, rect, dt, now)
}

/// Not having left the field, as a predicate on enemies.
pub open spec fn on_stage() -> spec_fn(Enemy) -> bool {
    |e: Enemy| e.state != EnemyState::OffScreen
}

/// The shots that the enemies fire during a tick with the player at
/// `target`, in the order of the enemies. An enemy shoots from where the tick
/// has moved it.
pub open spec fn volley(enemies: Seq<Enemy>, rect: RectI, dt: u64, now: u64, target: Point<i32>) -> Seq<
    Projectile,
>
    decreases enemies.len(),
{
    if enemies.len() == 0 {
        Seq::empty()
    } else {
        let earlier = volley(enemies.drop_last(), rect, dt, now, target);
        let moved = enemies.last().stepped(rect, dt);
        if moved.shoots(rect, now) {
            earlier.push(moved.shot(target))
        } else {
            earlier
        }
    }
}

/// What a projectile can change: the enemies, the player and the score.
pub struct Field {
    pub enemies: Seq<Enemy>,
    pub player: Player,
    pub score: u64,
}

/// How one projectile fared in a tick.
pub struct Settled {
    pub field: Field,
    /// The projectile where it now is, unless it left the field or hit something.
    pub kept: Option<Projectile>,
    /// Whether the player lost the last hit point, which ends the tick for
    /// the projectiles that follow.
    pub halt: bool,
}

/// How all the projectiles fared in a tick.
pub struct Aftermath {
    pub field: Field,
    pub projectiles: Seq<Projectile>,
}

/// The place of the first enemy from `from` on that the projectile hits, or
/// the number of enemies if it hits none of them.
pub open spec fn first_hit(enemies: Seq<Enemy>, proj: Projectile, from: int) -> int
    decreases enemies.len() - from,
{
    if from >= enemies.len() {
        enemies.len() as int
    } else if enemies[from].hit_by(proj) {
        from
    } else {
        first_hit(enemies, proj, from + 1)
    }
}

/// The enemy after the projectile has passed it: hurt if it was hit.
pub open spec fn grazed(e: Enemy, proj: Projectile) -> Enemy {
    if e.hit_by(proj) {
        e.damaged()
    } else {
        e
    }
}

/// Whether the projectile hits the enemy and leaves it without hit points.
pub open spec fn felled(e: Enemy, proj: Projectile) -> bool {
    e.hit_by(proj) && e.damaged().dead()
}

/// The place of the first enemy from `from` on that the projectile leaves
/// without hit points, or the number of enemies if there is none.
pub open spec fn first_kill(enemies: Seq<Enemy>, proj: Projectile, from: int) -> int
    decreases enemies.len() - from,
{
    if from >= enemies.len() {
        enemies.len() as int
    } else if felled(enemies[from], proj) {
        from
    } else {
        first_kill(enemies, proj, from + 1)
    }
}

/// The enemies after the projectile has passed the first `upto` of them.
pub open spec fn raked(enemies: Seq<Enemy>, proj: Projectile, upto: int) -> Seq<Enemy> {
    Seq::new(
        enemies.len(),
        |i: int|
            if i < upto {
                grazed(enemies[i], proj)
            } else {
                enemies[i]
            },
    )
}

/// The score after one more enemy was shot down. It stops at the largest
/// score there is.
pub open spec fn rewarded(score: u64) -> u64 {
    if score + KILL_SCORE > u64::MAX {
        u64::MAX
    } else {
        (score + KILL_SCORE) as u64
    }
}

impl Field {
    /// Whether the projectile hits an enemy.
    pub open spec fn reaches_enemy(self, proj: Projectile) -> bool {
        first_hit(self.enemies, proj, 0) < self.enemies.len()
    }

    /// The field after the projectile has met the enemies, one after the
    /// other in order. Every enemy it hits takes the damage. The first that is
    /// left without hit points is removed and the score rises; the enemies
    /// behind that one are not met.
    pub open spec fn shot_at(self, proj: Projectile) -> Field {
        let k = first_kill(self.enemies, proj, 0);
        let hurt = raked(self.enemies, proj, k);
        if k < self.enemies.len() {
            Field { enemies: hurt.remove(k), score: rewarded(self.score), ..self }
        } else {
            Field { enemies: hurt, ..self }
        }
    }

    /// How the projectile fares in a tick of `dt` microseconds at `now`.
    ///
    /// It flies on. If that takes it out of the field, it is gone. Else it
    /// meets the enemies and then the player; the player, if hurt, loses a
    /// hit point. A projectile that hit an enemy or hurt the player is gone.
    pub open spec fn settled(self, proj: Projectile, rect: RectI, dt: u64, now: u64) -> Settled {
        let flown = proj.flown(dt);
        if !rect.spec_contains(flown.pos) {
            Settled { field: self, kept: None, halt: false }
        } else {
            let after = self.shot_at(flown);
            let struck = self.player.struck_by(flown, now);
            let player = if struck {
                self.player.wounded(now)
            } else {
                self.player
            };
            Settled {
                field: Field { player, ..after },
                kept: if self.reaches_enemy(flown) || struck {
                    None
                } else {
                    Some(flown)
                },
                halt: struck && player.hp == 0,
            }
        }
    }

    /// How the projectiles fare in a tick, taken one after the other in
    /// order, each on the field as the ones before it left it. Once the
    /// player has lost the last hit point the projectiles that follow are
    /// left as they are.
    pub open spec fn resolved(self, projs: Seq<Projectile>, rect: RectI, dt: u64, now: u64) -> Aftermath
        decreases projs.len(),
    {
        if projs.len() == 0 {
            Aftermath { field: self, projectiles: Seq::empty() }
        } else {
            let first = self.settled(projs[0], rect, dt, now);
            let head = match first.kept {
                Some(p) => seq![p],
                None => Seq::empty(),
            };
            if first.halt {
                Aftermath { field: first.field, projectiles: head + projs.skip(1) }
            } else {
                let rest = first.field.resolved(projs.skip(1), rect, dt, now);
                Aftermath { field: rest.field, projectiles: head + rest.projectiles }
            }
        }
    }
}

impl WorldView {
    /// The part of the world that a projectile can change.
    pub open spec fn field(self) -> Field {
        Field { enemies: self.enemies, player: self.player, score: self.score }
    }

    /// The world with that part replaced.
    pub open spec fn with_field(self, field: Field) -> WorldView {
        WorldView { enemies: field.enemies, player: field.player, score: field.score, ..self }
    }

    /// The world after the projectiles have moved and their hits are settled.
    pub open spec fn projectiles_updated(self, dt: u64, now: u64) -> WorldView {
        let end = self.field().resolved(self.projectiles, self.rect, dt, now);
        WorldView { projectiles: end.projectiles, ..self.with_field(end.field) }
    }

    /// The world as a session starts at `now` in a field of the given size.
    pub open spec fn opening(dims: Dimensions<i32>, events: Seq<Event>, now: u64) -> WorldView {
        WorldView {
            player: Player::initial(),
            projectiles: Seq::empty(),
            enemies: Seq::empty(),
            rect: (RectI { top_left: Point { x: 0, y: 0 }, dims }),
            fps_cd: Cooldown::fresh(FPS_SAMPLING),
            fps: 60,
            score: 0,
            pending: events.map_values(resolving(now)),
            history: Map::empty(),
            latest_id: 0,
        }
    }

    /// The world after the events that are due at `now` have fired: each
    /// leaves the timeline and enters the history, and the enemies they bring
    /// join the others, in the order of the events.
    pub open spec fn events_fired(self, now: u64) -> WorldView {
        let fired = self.pending.filter(due_at(now));
        WorldView {
            enemies: self.enemies + arrivals(fired),
            pending: self.pending.filter(waiting_at(now)),
            history: recorded(self.history, fired),
            ..self
        }
    }

    /// The world after the player and the enemies have moved and shot.
    ///
    /// The player steers, then shoots if the key is held and the timer is
    /// over. Every enemy then takes its step and shoots, if it can, at the
    /// place the player has reached. The shots join the projectiles, the
    /// player's first. At the end the enemies that have left the field are
    /// taken out; the others keep their order.
    pub open spec fn entities_updated(self, dt: u64, inputs: Inputs, now: u64) -> WorldView {
        let steered = self.player.steered(inputs, self.rect, dt);
        let shoots = steered.shoots(inputs, now);
        let player = if shoots {
            steered.reloading(now)
        } else {
            steered
        };
        let own = if shoots {
            self.projectiles.push(steered.shot())
        } else {
            self.projectiles
        };
        WorldView {
            player,
            projectiles: own + volley(self.enemies, self.rect, dt, now, player.pos),
            enemies: self.enemies.map_values(acting(self.rect, dt, now)).filter(on_stage()),
            ..self
        }
    }

    /// The world after one tick: the due events fire, the player and the
    /// enemies move and shoot, the projectiles move and their hits are settled.
    pub open spec fn ticked(self, dt: u64, inputs: Inputs, now: u64) -> WorldView {
        self.events_fired(now).entities_updated(dt, inputs, now).projectiles_updated(dt, now)
    }

    /// What is to be said of the session. A player without hit points has
    /// lost, whatever else holds; otherwise a world without enemies and
    /// without events to come is won.
    pub open spec fn verdict(self) -> Outcome {
        if self.player.hp == 0 {
            Outcome::Lose(self.score)
        } else if self.enemies.len() == 0 && self.pending.len() == 0 {
            Outcome::Win(self.score)
        } else {
            Outcome::Continue
        }
    }

    /// The world with a reading of the frame rate taken at `now`, if it was
    /// time for one.
    pub open spec fn fps_sampled(self, measured: u32, now: u64) -> WorldView {
        if self.fps_cd.ready_at(now) {
            WorldView { fps: measured, fps_cd: self.fps_cd.marked(now), ..self }
        } else {
            self
        }
    }
}

impl World {
    /// Starts a session at `now` in a field of the given size, with the
    /// given timeline.
    pub fn start(dims: Dimensions<i32>, evt_list: Vec<Event>, now: u64) -> (w: World)
        ensures
            w@ == WorldView::opening(dims, evt_list@, now),
    {
        World {
            player: Player::new(),
            projectiles: Vec::new(),
            enemies: Vec::new(),
            rect: dims.into_rect(),
            fps_cd: Cooldown::with_duration(FPS_SAMPLING),
            fps: 60,
            score: 0,
            event_syst: EventSystem::new(evt_list, now),
        }
    }

    /// Says whether the session goes on, is won or is lost.
    pub fn check_end(&self) -> (outcome: Outcome)
        ensures
            outcome == self@.verdict(),
            outcome is Lose <==> self.player.hp == 0,
            outcome is Win <==> self.player.hp != 0 && self.enemies@.len() == 0
                && self.event_syst.list@.len() == 0,
    {
        if self.player.hp == 0 {
            Outcome::Lose(self.score)
        } else if self.enemies.len() == 0 && self.event_syst.is_empty() {
            Outcome::Win(self.score)
        } else {
            Outcome::Continue
        }
    }

    /// Fires the events that are due at `now`.
    pub fn process_events(&mut self, now: u64)
        ensures
            final(self)@ == old(self)@.events_fired(now),
    {
        let ghost before = self@;
        let fired = self.event_syst.take_due(now);
        let mut i: usize = 0;
        while i < fired.len()
            invariant
                i <= fired.len(),
                self@ == (WorldView {
                    enemies: before.enemies + arrivals(fired@.take(i as int)),
                    ..before.events_fired(now)
                }),
                fired@ == before.pending.filter(due_at(now)),
            decreases fired.len() - i,
        {
            proof {
                assert(fired@.take(i + 1).drop_last() == fired@.take(i as int));
            }
            match fired[i].spawn() {
                Some(enemy) => {
                    self.enemies.push(enemy);
                },
                None => {},
            }
            proof {
                assert(self.enemies@ == before.enemies + arrivals(fired@.take(i + 1)));
            }
            i = i + 1;
        }
        proof {
            assert(fired@.take(i as int) == fired@);
        }
    }

    /// Moves the player and the enemies for `dt` microseconds and lets them
    /// shoot at `now`; takes out the enemies that have left the field.
    pub fn update_entities(&mut self, dt: u64, inputs: &Inputs, now: u64)
        ensures
            final(self)@ == old(self)@.entities_updated(dt, *inputs, now),
    {
        let ghost start = self@;
        self.player.update_pos(inputs, self.rect, dt);
        match self.player.fire(inputs, now) {
            Some(proj) => {
                self.projectiles.push(proj);
            },
            None => {},
        }
        let ghost own = self.projectiles@;
        let ghost before = self.enemies@;
        let ghost goal = start.entities_updated(dt, *inputs, now);
        let rect = self.rect;
        let target = self.player.pos;
        let mut kept: Vec<Enemy> = Vec::new();
        let mut i: usize = 0;
        while i < self.enemies.len()
            invariant
                i <= self.enemies.len(),
                before == start.enemies,
                rect == start.rect,
                goal == start.entities_updated(dt, *inputs, now),
                target == goal.player.pos,
                self@ == (WorldView {
                    projectiles: own + volley(before.take(i as int), rect, dt, now, target),
                    enemies: before,
                    ..goal
                }),
                goal.projectiles == own + volley(before, rect, dt, now, target),
                kept@ == before.take(i as int).map_values(acting(rect, dt, now)).filter(
                    on_stage(),
                ),
            decreases self.enemies.len() - i,
        {
            let mut enemy = self.enemies[i];
            proof {
                let seen = before.take(i as int);
                assert(before.take(i + 1) == seen.push(enemy));
                assert(before.take(i + 1).drop_last() == seen);
                seen.lemma_push_map_commute(acting(rect, dt, now), enemy);
                seen.map_values(acting(rect, dt, now)).lemma_filter_push(
                    acted(enemy, rect, dt, now),
                    on_stage(),
                );
            }
            enemy.update_pos(rect, dt);
            match enemy.fire(rect, target, now) {
                Some(proj) => {
                    self.projectiles.push(proj);
                },
                None => {},
            }
            match enemy.state {
                EnemyState::OffScreen => {},
                _ => {
                    kept.push(enemy);
                },
            }
            proof {
                assert(self.projectiles@ == own + volley(
                    before.take(i + 1),
                    rect,
                    dt,
                    now,
                    target,
                ));
            }
            i = i + 1;
        }
        proof {
            assert(before.take(i as int) == before);
        }
        self.enemies = kept;
    }

    /// Lets the projectile meet the enemies in order: every enemy it hits
    /// takes the damage, and the first that is left without hit points is
    /// removed for a score and ends the round. Says whether an enemy was hit.
    fn strike_enemies(&mut self, proj: &Projectile) -> (hit: bool)
        ensures
            final(self)@ == old(self)@.with_field(old(self)@.field().shot_at(*proj)),
            hit == old(self)@.field().reaches_enemy(*proj),
    {
        let ghost start = self@;
        let mut hit = false;
        let mut j: usize = 0;
        proof {
            assert(self.enemies@ == raked(start.enemies, *proj, 0));
        }
        while j < self.enemies.len()
            invariant
                j <= self.enemies.len(),
                start == old(self)@,
                self.enemies@ == raked(start.enemies, *proj, j as int),
                self@ == start.with_field(
                    (Field { enemies: self.enemies@, player: start.player, score: start.score }),
                ),
                first_kill(start.enemies, *proj, 0) == first_kill(start.enemies, *proj, j as int),
                !hit ==> first_hit(start.enemies, *proj, 0) == first_hit(
                    start.enemies,
                    *proj,
                    j as int,
                ),
                hit ==> first_hit(start.enemies, *proj, 0) < j,
            decreases self.enemies.len() - j,
        {
            if self.enemies[j].is_hit_by(proj) {
                hit = true;
                let mut enemy = self.enemies[j];
                enemy.take_hit();
                if enemy.is_dead() {
                    self.enemies.remove(j);
                    self.score = if self.score <= u64::MAX - KILL_SCORE {
                        self.score + KILL_SCORE
                    } else {
                        u64::MAX
                    };
                    proof {
                        assert(first_kill(start.enemies, *proj, 0) == j);
                        assert(self.enemies@ == raked(start.enemies, *proj, j as int).remove(
                            j as int,
                        ));
                    }
                    return true;
                }
                self.enemies.set(j, enemy);
            }
            proof {
                assert(self.enemies@ == raked(start.enemies, *proj, j + 1));
            }
            j = j + 1;
        }
        hit
    }

    /// Moves the projectiles for `dt` microseconds and settles their hits at
    /// `now`; takes out those that left the field or hit something.
    pub fn update_projectiles(&mut self, dt: u64, now: u64)
        ensures
            final(self)@ == old(self)@.projectiles_updated(dt, now),
    {
        let ghost start = self@;
        let ghost goal = start.field().resolved(start.projectiles, start.rect, dt, now);
        let rect = self.rect;
        let mut kept: Vec<Projectile> = Vec::new();
        let mut halted = false;
        let mut i: usize = 0;
        proof {
            assert(start.projectiles.skip(0) == start.projectiles);
            assert(kept@ + goal.projectiles == goal.projectiles);
        }
        while i < self.projectiles.len()
            invariant
                i <= self.projectiles.len(),
                rect == start.rect,
                self.projectiles@ == start.projectiles,
                self@ == start.with_field(self@.field()),
                goal == start.field().resolved(start.projectiles, start.rect, dt, now),
                !halted ==> goal.field == self@.field().resolved(
                    start.projectiles.skip(i as int),
                    rect,
                    dt,
                    now,
                ).field,
                !halted ==> goal.projectiles == kept@ + self@.field().resolved(
                    start.projectiles.skip(i as int),
                    rect,
                    dt,
                    now,
                ).projectiles,
                halted ==> goal.field == self@.field(),
                halted ==> goal.projectiles == kept@ + start.projectiles.skip(i as int),
            decreases self.projectiles.len() - i,
        {
            let mut proj = self.projectiles[i];
            let ghost rest = start.projectiles.skip(i as int);
            proof {
                assert(rest[0] == proj);
                assert(rest.skip(1) == start.projectiles.skip(i + 1));
                assert(rest == seq![proj] + start.projectiles.skip(i + 1));
            }
            if halted {
                kept.push(proj);
            } else {
                let ghost field = self@.field();
                let ghost first = field.settled(proj, rect, dt, now);
                let ghost shown = kept@;
                proj.update_pos(dt);
                if rect.contains(proj.pos) {
                    let hit = self.strike_enemies(&proj);
                    let struck = self.player.is_struck_by(&proj, now);
                    if struck {
                        self.player.take_hit(now);
                        if self.player.hp == 0 {
                            halted = true;
                        }
                    }
                    if !hit && !struck {
                        kept.push(proj);
                    }
                }
                proof {
                    let head = match first.kept {
                        Some(p) => seq![p],
                        None => Seq::empty(),
                    };
                    assert(self@.field() == first.field);
                    assert(halted == first.halt);
                    assert(kept@ == shown + head);
                    if first.halt {
                        assert(goal.projectiles == kept@ + start.projectiles.skip(i + 1));
                    } else {
                        let tail = first.field.resolved(
                            start.projectiles.skip(i + 1),
                            rect,
                            dt,
                            now,
                        );
                        assert(goal.projectiles == kept@ + tail.projectiles);
                    }
                }
            }
            i = i + 1;
        }
        self.projectiles = kept;
    }

    /// Runs one tick of `dt` microseconds at `now` and says whether the
    /// session goes on.
    pub fn tick(&mut self, dt: u64, inputs: &Inputs, now: u64) -> (outcome: Outcome)
        ensures
            final(self)@ == old(self)@.ticked(dt, *inputs, now),
            outcome == final(self)@.verdict(),
    {
        self.process_events(now);
        self.update_entities(dt, inputs, now);
        self.update_projectiles(dt, now);
        self.check_end()
    }

    /// Takes a reading of the frame rate at `now`, if it is time for one.
    pub fn sample_fps(&mut self, measured: u32, now: u64)
        ensures
            final(self)@ == old(self)@.fps_sampled(measured, now),
    {
        if self.fps_cd.is_over(now) {
            self.fps = measured;
            self.fps_cd.emit(now);
        }
    }
}

} // verus!
