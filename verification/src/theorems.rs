//! What holds of a world over one tick and over any run of ticks.

use vstd::prelude::*;
use crate::coords::{Dimensions, RectI};
use crate::events::{
    due_at, lemma_fired_and_left, lemma_left_after_two_firings, lemma_none_due_after_firing,
    waiting_at, Event,
};
use crate::enemy::{lemma_step_moves_forward, Enemy, EnemyState};
use crate::player::Inputs;
use crate::projectile::Projectile;
use crate::world::{
    acting, arrivals, felled, first_hit, first_kill, grazed, on_stage, rewarded, Field, Outcome,
    WorldView, KILL_SCORE,
};

verus! {

/// One tick as the driver hands it in: how long it lasted, what the player
/// held down, and what the clock showed.
pub struct Frame {
    pub dt: u64,
    pub inputs: Inputs,
    pub now: u64,
}

/// The score after `kills` more enemies were shot down. It stops at the
/// largest score there is.
pub open spec fn paid(score: u64, kills: int) -> u64 {
    if score + KILL_SCORE * kills > u64::MAX {
        u64::MAX
    } else {
        (score + KILL_SCORE * kills) as u64
    }
}

/// The hit points left after one hit.
pub open spec fn one_less(hp: u32) -> u32 {
    if hp > 0 {
        (hp - 1) as u32
    } else {
        0
    }
}

/// The world after a run of ticks.
pub open spec fn run(w: WorldView, frames: Seq<Frame>) -> WorldView
    decreases frames.len(),
{
    if frames.len() == 0 {
        w
    } else {
        run(w, frames.drop_last()).ticked(
            frames.last().dt,
            frames.last().inputs,
            frames.last().now,
        )
    }
}

/// A session that starts in a field large enough for the ship's first place
/// starts with the ship in the field, with nothing won or lost by shots, and
/// with every event that waits for the start of the level set to its time.
pub proof fn lemma_opening(dims: Dimensions<i32>, events: Seq<Event>, now: u64)
    ensures
        ({
            let w = WorldView::opening(dims, events, now);
            &&& dims.w >= 75_000 && dims.h >= 200_000 ==> w.player.in_field(w.rect)
            &&& w.score == 0
            &&& w.enemies.len() == 0
            &&& w.projectiles.len() == 0
            &&& w.pending.len() == events.len()
            &&& forall|i: int|
                0 <= i < events.len() ==> #[trigger] w.pending[i] == events[i].resolved(now)
        }),
{
}

/// The session is lost exactly when the player has no hit points left,
/// whatever enemies and events remain. It is won exactly when the player has
/// hit points left and neither an enemy nor an event remains. Either way the
/// score reported is the score of the world.
pub proof fn lemma_verdict(w: WorldView)
    ensures
        w.verdict() is Lose <==> w.player.hp == 0,
        w.verdict() is Win <==> w.player.hp != 0 && w.enemies.len() == 0 && w.pending.len() == 0,
        w.verdict() is Lose ==> w.verdict() == Outcome::Lose(w.score),
        w.verdict() is Win ==> w.verdict() == Outcome::Win(w.score),
{
}

/// No event brings more than one enemy.
pub proof fn lemma_arrivals_counted(fired: Seq<Event>)
    ensures
        arrivals(fired).len() <= fired.len(),
        (forall|i: int| 0 <= i < fired.len() ==> (#[trigger] fired[i]).brings().is_some())
            ==> arrivals(fired).len() == fired.len(),
    decreases fired.len(),
{
    if fired.len() > 0 {
        lemma_arrivals_counted(fired.drop_last());
    }
}

/// An event that is due fires once. After the events have fired at `now`,
/// none of those left is due at `now`, and firing again at `now` changes
/// nothing. Each event has either fired or stayed. Firing at a later time
/// then leaves what firing at the later time at once would have left: no
/// event comes back.
pub proof fn lemma_events_fire_once(w: WorldView, now: u64, later: u64)
    requires
        now <= later,
    ensures
        forall|i: int|
            0 <= i < w.events_fired(now).pending.len() ==> !(#[trigger] w.events_fired(
                now,
            ).pending[i]).due(now),
        w.events_fired(now).events_fired(now) == w.events_fired(now),
        w.events_fired(now).pending.len() + w.pending.filter(due_at(now)).len()
            == w.pending.len(),
        w.events_fired(now).enemies.len() == w.enemies.len() + arrivals(
            w.pending.filter(due_at(now)),
        ).len(),
        w.events_fired(now).events_fired(later).pending == w.events_fired(later).pending,
{
    lemma_none_due_after_firing(w.pending, now);
    lemma_fired_and_left(w.pending, now);
    lemma_left_after_two_firings(w.pending, now, now);
    lemma_left_after_two_firings(w.pending, now, later);
    let once = w.events_fired(now);
    assert(once.enemies + arrivals(Seq::<Event>::empty()) == once.enemies);
    assert(once.events_fired(now) == once);
}

/// A projectile removes at most one enemy. If it leaves an enemy without hit
/// points, just the first such enemy is removed and the score rises by the
/// score for one enemy; if not, no enemy is removed and the score stays. The
/// enemies before the one removed have taken the damage if they were hit and
/// are otherwise as they were; those behind it are as they were. The player
/// is not touched.
pub proof fn lemma_kill_pays(f: Field, proj: Projectile)
    ensures
        ({
            let k = first_kill(f.enemies, proj, 0);
            let after = f.shot_at(proj);
            &&& 0 <= k <= f.enemies.len()
            &&& k < f.enemies.len() ==> felled(f.enemies[k], proj)
            &&& forall|i: int| 0 <= i < k ==> !felled(#[trigger] f.enemies[i], proj)
            &&& after.player == f.player
            &&& if k < f.enemies.len() {
                &&& after.enemies.len() == f.enemies.len() - 1
                &&& after.score == rewarded(f.score)
                &&& f.score + KILL_SCORE <= u64::MAX ==> after.score == f.score + KILL_SCORE
            } else {
                &&& after.enemies.len() == f.enemies.len()
                &&& after.score == f.score
            }
            &&& forall|i: int|
                0 <= i < after.enemies.len() ==> #[trigger] after.enemies[i] == (if i < k {
                    grazed(f.enemies[i], proj)
                } else {
                    f.enemies[i + 1]
                })
        }),
{
    lemma_first_kill(f.enemies, proj, 0);
}

/// The first enemy from `from` on that the projectile leaves without hit
/// points is left so, and none before it is.
pub proof fn lemma_first_kill(enemies: Seq<Enemy>, proj: Projectile, from: int)
    requires
        0 <= from <= enemies.len(),
    ensures
        from <= first_kill(enemies, proj, from) <= enemies.len(),
        first_kill(enemies, proj, from) < enemies.len() ==> felled(
            enemies[first_kill(enemies, proj, from)],
            proj,
        ),
        forall|i: int|
            from <= i < first_kill(enemies, proj, from) ==> !felled(#[trigger] enemies[i], proj),
    decreases enemies.len() - from,
{
    if from < enemies.len() && !felled(enemies[from], proj) {
        lemma_first_kill(enemies, proj, from + 1);
    }
}

/// The first enemy hit from `from` on is hit, and none before it is.
pub proof fn lemma_first_hit(enemies: Seq<Enemy>, proj: Projectile, from: int)
    requires
        0 <= from <= enemies.len(),
    ensures
        from <= first_hit(enemies, proj, from) <= enemies.len(),
        first_hit(enemies, proj, from) < enemies.len() ==> enemies[first_hit(
            enemies,
            proj,
            from,
        )].hit_by(proj),
        forall|k: int|
            from <= k < first_hit(enemies, proj, from) ==> !(#[trigger] enemies[k]).hit_by(proj),
    decreases enemies.len() - from,
{
    if from < enemies.len() && !enemies[from].hit_by(proj) {
        lemma_first_hit(enemies, proj, from + 1);
    }
}

/// What the projectiles of one tick can do to the field.
///
/// Enemies are only removed, and the score has risen by the score for one
/// enemy for each enemy removed. The player keeps place, size and shooting
/// timer. If the timer against hits is of a duration above zero, the player
/// is hit at most once: either nothing has changed for the player, or the
/// player could be hurt at `now`, has lost one hit point and cannot be hurt
/// again for the duration.
pub proof fn lemma_resolved(f: Field, projs: Seq<Projectile>, rect: RectI, dt: u64, now: u64)
    ensures
        ({
            let end = f.resolved(projs, rect, dt, now);
            &&& end.field.enemies.len() <= f.enemies.len()
            &&& end.field.score == paid(f.score, f.enemies.len() - end.field.enemies.len())
            &&& end.field.score >= f.score
            &&& end.projectiles.len() <= projs.len()
            &&& end.field.player.pos == f.player.pos
            &&& end.field.player.vel == f.player.vel
            &&& end.field.player.size == f.player.size
            &&& end.field.player.size_hit == f.player.size_hit
            &&& end.field.player.proj_cd == f.player.proj_cd
            &&& end.field.player.hp_cd.cooldown == f.player.hp_cd.cooldown
            &&& end.field.player.hp <= f.player.hp
            &&& f.player.hp_cd.cooldown > 0 ==> end.field.player == f.player || (
            f.player.hp_cd.ready_at(now) && end.field.player == f.player.wounded(now))
        }),
    decreases projs.len(),
{
    if projs.len() > 0 {
        let first = f.settled(projs[0], rect, dt, now);
        lemma_kill_pays(f, projs[0].flown(dt));
        if !first.halt {
            lemma_resolved(first.field, projs.skip(1), rect, dt, now);
        }
    }
}

/// After a tick that leaves the player with hit points, every projectile
/// still there is one of those given, flown for the tick, and stands in the
/// field.
pub proof fn lemma_survivors(f: Field, projs: Seq<Projectile>, rect: RectI, dt: u64, now: u64)
    requires
        f.resolved(projs, rect, dt, now).field.player.hp > 0,
    ensures
        forall|i: int|
            0 <= i < f.resolved(projs, rect, dt, now).projectiles.len() ==> {
                &&& rect.spec_contains(
                    (#[trigger] f.resolved(projs, rect, dt, now).projectiles[i]).pos,
                )
                &&& exists|j: int|
                    0 <= j < projs.len() && f.resolved(projs, rect, dt, now).projectiles[i]
                        == (#[trigger] projs[j]).flown(dt)
            },
    decreases projs.len(),
{
    let end = f.resolved(projs, rect, dt, now);
    if projs.len() > 0 {
        let first = f.settled(projs[0], rect, dt, now);
        let head = match first.kept {
            Some(p) => seq![p],
            None => Seq::empty(),
        };
        lemma_kill_pays(f, projs[0].flown(dt));
        assert(!first.halt);
        let rest = first.field.resolved(projs.skip(1), rect, dt, now);
        lemma_survivors(first.field, projs.skip(1), rect, dt, now);
        assert forall|i: int| 0 <= i < end.projectiles.len() implies {
            &&& rect.spec_contains((#[trigger] end.projectiles[i]).pos)
            &&& exists|j: int|
                0 <= j < projs.len() && end.projectiles[i] == (#[trigger] projs[j]).flown(dt)
        } by {
            if i < head.len() {
                assert(end.projectiles[i] == projs[0].flown(dt));
            } else {
                let k = i - head.len();
                assert(end.projectiles[i] == rest.projectiles[k]);
                let j = choose|j: int|
                    0 <= j < projs.skip(1).len() && rest.projectiles[k] == (
                    #[trigger] projs.skip(1)[j]).flown(dt);
                assert(projs.skip(1)[j] == projs[j + 1]);
            }
        }
    }
}

/// Whether every enemy has hit points left.
pub open spec fn all_alive(enemies: Seq<Enemy>) -> bool {
    forall|i: int| 0 <= i < enemies.len() ==> !(#[trigger] enemies[i]).dead()
}

/// Whether no enemy has left the field.
pub open spec fn all_on_stage(enemies: Seq<Enemy>) -> bool {
    forall|i: int| 0 <= i < enemies.len() ==> (#[trigger] enemies[i]).state != EnemyState::OffScreen
}

/// The enemies that events bring have hit points and have not left the field.
pub proof fn lemma_arrivals_fit(fired: Seq<Event>)
    ensures
        all_alive(arrivals(fired)),
        all_on_stage(arrivals(fired)),
    decreases fired.len(),
{
    if fired.len() > 0 {
        lemma_arrivals_fit(fired.drop_last());
    }
}

/// Projectiles leave no enemy without hit points among the others, and move
/// no enemy out of the field.
pub proof fn lemma_resolved_enemies(
    f: Field,
    projs: Seq<Projectile>,
    rect: RectI,
    dt: u64,
    now: u64,
)
    ensures
        all_alive(f.enemies) ==> all_alive(f.resolved(projs, rect, dt, now).field.enemies),
        all_on_stage(f.enemies) ==> all_on_stage(f.resolved(projs, rect, dt, now).field.enemies),
    decreases projs.len(),
{
    if projs.len() > 0 {
        let first = f.settled(projs[0], rect, dt, now);
        lemma_kill_pays(f, projs[0].flown(dt));
        if !first.halt {
            lemma_resolved_enemies(first.field, projs.skip(1), rect, dt, now);
        }
    }
}

/// No enemy outlives its hit points or its time in the field. If every enemy
/// has hit points before a tick, every enemy has hit points after it, and
/// after any tick no enemy that has left the field is still there.
pub proof fn lemma_enemies_after_tick(w: WorldView, dt: u64, inputs: Inputs, now: u64)
    ensures
        all_alive(w.enemies) ==> all_alive(w.ticked(dt, inputs, now).enemies),
        all_on_stage(w.ticked(dt, inputs, now).enemies),
{
    let fired = w.events_fired(now);
    lemma_arrivals_fit(w.pending.filter(due_at(now)));
    let acts = acting(fired.rect, dt, now);
    let mapped = fired.enemies.map_values(acts);
    let moved = fired.entities_updated(dt, inputs, now);
    assert forall|i: int| 0 <= i < moved.enemies.len() implies (#[trigger] moved.enemies[i]).state
        != EnemyState::OffScreen && (all_alive(w.enemies) ==> !moved.enemies[i].dead()) by {
        mapped.lemma_filter_pred(on_stage(), i);
        assert(mapped.filter(on_stage()).contains(moved.enemies[i]));
        mapped.lemma_filter_contains_rev(on_stage(), moved.enemies[i]);
        let k = choose|k: int| 0 <= k < mapped.len() && mapped[k] == moved.enemies[i];
        lemma_step_moves_forward(fired.enemies[k], fired.rect, dt);
        if all_alive(w.enemies) {
            if k < w.enemies.len() {
                assert(fired.enemies[k] == w.enemies[k]);
            } else {
                assert(fired.enemies[k] == arrivals(w.pending.filter(due_at(now)))[k
                    - w.enemies.len()]);
            }
        }
    }
    lemma_resolved_enemies(moved.field(), moved.projectiles, moved.rect, dt, now);
}

/// What one tick does to the world as a whole.
///
/// The field keeps its bounds. The score does not fall. The player does not
/// gain hit points, and a player in the field stays in the field. If the
/// timer against hits is of a duration above zero, the player is hit at most
/// once in the tick, and only if the player could be hurt at `now`.
pub proof fn lemma_tick(w: WorldView, dt: u64, inputs: Inputs, now: u64)
    ensures
        ({
            let t = w.ticked(dt, inputs, now);
            &&& t.rect == w.rect
            &&& t.score >= w.score
            &&& t.player.hp <= w.player.hp
            &&& t.player.hp_cd.cooldown == w.player.hp_cd.cooldown
            &&& w.player.in_field(w.rect) ==> t.player.in_field(t.rect)
            &&& w.player.hp_cd.cooldown > 0 ==> (t.player.hp == w.player.hp && t.player.hp_cd
                == w.player.hp_cd) || (w.player.hp_cd.ready_at(now) && t.player.hp == one_less(
                w.player.hp,
            ) && t.player.hp_cd == w.player.hp_cd.marked(now))
        }),
{
    let moved = w.events_fired(now).entities_updated(dt, inputs, now);
    lemma_resolved(moved.field(), moved.projectiles, moved.rect, dt, now);
}

/// Over any run of ticks the field keeps its bounds, the score does not
/// fall, the player does not gain hit points, and a player who starts in the
/// field stays in the field.
pub proof fn lemma_run(w: WorldView, frames: Seq<Frame>)
    ensures
        run(w, frames).rect == w.rect,
        run(w, frames).score >= w.score,
        run(w, frames).player.hp <= w.player.hp,
        run(w, frames).player.hp_cd.cooldown == w.player.hp_cd.cooldown,
        w.player.in_field(w.rect) ==> run(w, frames).player.in_field(w.rect),
    decreases frames.len(),
{
    if frames.len() > 0 {
        lemma_run(w, frames.drop_last());
        lemma_tick(
            run(w, frames.drop_last()),
            frames.last().dt,
            frames.last().inputs,
            frames.last().now,
        );
    }
}

/// However many projectiles of the enemies reach the player, the player
/// loses at most one hit point within one run of the timer against hits: over
/// any run of ticks whose clock readings all lie in a span shorter than the
/// duration of that timer, whatever their order.
pub proof fn lemma_one_hit_per_window(w: WorldView, frames: Seq<Frame>, from: u64)
    requires
        w.player.hp_cd.cooldown > 0,
        forall|i: int|
            0 <= i < frames.len() ==> from <= (#[trigger] frames[i]).now < from
                + w.player.hp_cd.cooldown,
    ensures
        run(w, frames).player.hp >= w.player.hp - 1,
        run(w, frames).player.hp == w.player.hp && run(w, frames).player.hp_cd == w.player.hp_cd
            || run(w, frames).player.hp == one_less(w.player.hp) && (exists|i: int|
            0 <= i < frames.len() && run(w, frames).player.hp_cd == w.player.hp_cd.marked(
                (#[trigger] frames[i]).now,
            )),
    decreases frames.len(),
{
    if frames.len() > 0 {
        let earlier = frames.drop_last();
        let last = frames.last();
        assert forall|i: int| 0 <= i < earlier.len() implies from <= (#[trigger] earlier[i]).now
            < from + w.player.hp_cd.cooldown by {
            assert(earlier[i] == frames[i]);
        }
        lemma_one_hit_per_window(w, earlier, from);
        lemma_run(w, earlier);
        let mid = run(w, earlier);
        lemma_tick(mid, last.dt, last.inputs, last.now);
        let end = run(w, frames);
        if mid.player.hp == w.player.hp && mid.player.hp_cd == w.player.hp_cd {
            if !(end.player.hp == mid.player.hp && end.player.hp_cd == mid.player.hp_cd) {
                assert(frames[frames.len() - 1] == last);
            }
        } else {
            let i = choose|i: int|
                0 <= i < earlier.len() && mid.player.hp_cd == w.player.hp_cd.marked(
                    (#[trigger] earlier[i]).now,
                );
            assert(earlier[i] == frames[i]);
            assert(!mid.player.hp_cd.ready_at(last.now));
        }
    }
}

} // verus!
