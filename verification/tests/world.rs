use arcade_core::coords::{Dimensions, Point, Rect};
use arcade_core::enemy::{Behavior, Enemy, EnemyState, EnemyType};
use arcade_core::events::{Event, EventType, LEVEL_REF};
use arcade_core::player::Inputs;
use arcade_core::projectile::{ProjType, Projectile};
use arcade_core::units::Vector;
use arcade_core::world::{Outcome, World};

fn dims() -> Dimensions<i32> {
    Dimensions { w: 400_000, h: 600_000 }
}

fn idle() -> Inputs {
    Inputs { up: false, down: false, left: false, right: false, shoot: false }
}

fn spawn_event(id: u32, offset: u64, x: i32, y: i32, kind: EnemyType) -> Event {
    Event {
        id,
        time: None,
        ref_evt: Some((LEVEL_REF, offset)),
        variant: EventType::SpawnEnemy(Point { x, y }, kind),
    }
}

fn resting(x: i32, y: i32, variant: ProjType) -> Projectile {
    Projectile { pos: Point { x, y }, vel: Vector { x: 0, y: 0 }, variant }
}

fn on_screen(x: i32, y: i32, kind: EnemyType) -> Enemy {
    let mut e = Enemy::spawn(Point { x, y }, kind);
    e.state = EnemyState::OnScreen(e.enemy_func());
    e
}

#[test]
fn session_starts_with_a_player_and_nothing_else() {
    let w = World::start(dims(), vec![spawn_event(1, 2_000_000, 100_000, -1_000, EnemyType::Basic)], 10_000_000);
    assert_eq!(w.player.pos, Point { x: 75_000, y: 200_000 });
    assert_eq!(w.player.hp, 5);
    assert!(w.projectiles.is_empty());
    assert!(w.enemies.is_empty());
    assert_eq!(w.rect, Rect { top_left: Point { x: 0, y: 0 }, dims: dims() });
    assert_eq!(w.fps, 60);
    assert_eq!(w.fps_cd.cooldown, 100_000);
    assert_eq!(w.score, 0);
    assert_eq!(w.event_syst.list.len(), 1);
    assert_eq!(w.event_syst.list[0].time, Some(12_000_000));
    assert_eq!(w.event_syst.list[0].ref_evt, None);
}

#[test]
fn event_two_seconds_after_the_start_fires_then_and_not_before() {
    let mut w = World::start(
        dims(),
        vec![spawn_event(1, 2_000_000, 100_000, -1_000, EnemyType::Basic)],
        10_000_000,
    );
    w.process_events(10_000_000);
    assert!(w.enemies.is_empty());
    w.process_events(11_999_999);
    assert!(w.enemies.is_empty());
    assert_eq!(w.event_syst.list.len(), 1);
    w.process_events(12_000_000);
    assert_eq!(w.enemies, vec![Enemy::spawn(Point { x: 100_000, y: -1_000 }, EnemyType::Basic)]);
    assert!(w.event_syst.is_empty());
    assert_eq!(w.event_syst.history.get(&1), Some(&12_000_000));
}

#[test]
fn event_fires_once() {
    let mut w = World::start(
        dims(),
        vec![
            spawn_event(1, 100, 100_000, -1_000, EnemyType::Basic),
            spawn_event(2, 900, 200_000, -1_000, EnemyType::Sniper),
        ],
        0,
    );
    w.process_events(100);
    assert_eq!(w.enemies.len(), 1);
    assert_eq!(w.event_syst.list.len(), 1);
    w.process_events(100);
    w.process_events(500);
    assert_eq!(w.enemies.len(), 1);
    assert_eq!(w.event_syst.list.len(), 1);
    w.process_events(1_000);
    assert_eq!(w.enemies.len(), 2);
    assert_eq!(w.enemies[1].variant, EnemyType::Sniper);
    assert!(w.event_syst.is_empty());
    w.process_events(u64::MAX);
    assert_eq!(w.enemies.len(), 2);
}

#[test]
fn enemies_arrive_in_the_order_of_their_events() {
    let boss = Event {
        id: 7,
        time: Some(0),
        ref_evt: None,
        variant: EventType::SpawnBoss(Point { x: 0, y: 0 }),
    };
    let mut w = World::start(
        dims(),
        vec![
            spawn_event(1, 30, 1, 0, EnemyType::Basic),
            boss,
            spawn_event(2, 10, 2, 0, EnemyType::Sniper),
            spawn_event(3, 20, 3, 0, EnemyType::Basic),
        ],
        0,
    );
    w.enemies.push(Enemy::spawn(Point { x: 0, y: 0 }, EnemyType::Basic));
    w.process_events(25);
    assert_eq!(w.enemies.iter().map(|e| e.pos.x).collect::<Vec<i32>>(), vec![0, 2, 3]);
    assert_eq!(w.event_syst.list.iter().map(|e| e.id).collect::<Vec<u32>>(), vec![1]);
    assert_eq!(w.event_syst.history.get(&7), Some(&0));
}

#[test]
fn shot_on_a_basic_enemy_takes_two_points() {
    let mut w = World::start(dims(), vec![], 0);
    w.enemies.push(on_screen(100_000, 100_000, EnemyType::Basic));
    w.projectiles.push(resting(100_000, 110_000, ProjType::PlayerShoot));
    w.update_projectiles(0, 0);
    assert_eq!(w.enemies.len(), 1);
    assert_eq!(w.enemies[0].hp, 13);
    assert!(w.projectiles.is_empty());
    assert_eq!(w.score, 0);
}

#[test]
fn eighth_shot_removes_a_basic_enemy_and_scores() {
    let mut w = World::start(dims(), vec![], 0);
    w.enemies.push(on_screen(100_000, 100_000, EnemyType::Basic));
    for hit in 1..=7 {
        w.projectiles.push(resting(100_000, 110_000, ProjType::PlayerShoot));
        w.update_projectiles(0, 0);
        assert_eq!(w.enemies.len(), 1);
        assert_eq!(w.enemies[0].hp, 15 - 2 * hit);
        assert_eq!(w.score, 0);
    }
    w.projectiles.push(resting(100_000, 110_000, ProjType::PlayerShoot));
    w.update_projectiles(0, 0);
    assert!(w.enemies.is_empty());
    assert!(w.projectiles.is_empty());
    assert_eq!(w.score, 100);
}

#[test]
fn several_shots_in_one_tick_each_count() {
    let mut w = World::start(dims(), vec![], 0);
    w.enemies.push(on_screen(100_000, 100_000, EnemyType::Sniper));
    w.enemies.push(on_screen(300_000, 100_000, EnemyType::Basic));
    for _ in 0..5 {
        w.projectiles.push(resting(100_000, 100_000, ProjType::PlayerShoot));
    }
    w.projectiles.push(resting(300_000, 100_000, ProjType::PlayerShoot));
    w.update_projectiles(0, 0);
    // the sniper falls to the fourth shot; the fifth finds nothing and stays
    assert_eq!(w.enemies.len(), 1);
    assert_eq!(w.enemies[0].variant, EnemyType::Basic);
    assert_eq!(w.enemies[0].hp, 13);
    assert_eq!(w.projectiles, vec![resting(100_000, 100_000, ProjType::PlayerShoot)]);
    assert_eq!(w.score, 100);
}

#[test]
fn shot_hurts_every_enemy_it_overlaps() {
    let mut w = World::start(dims(), vec![], 0);
    w.enemies.push(on_screen(300_000, 300_000, EnemyType::Basic));
    w.enemies.push(on_screen(100_000, 100_000, EnemyType::Basic));
    w.enemies.push(on_screen(101_000, 100_000, EnemyType::Sniper));
    w.projectiles.push(resting(100_500, 100_000, ProjType::PlayerShoot));
    w.update_projectiles(0, 0);
    assert_eq!(w.enemies.iter().map(|e| e.hp).collect::<Vec<i32>>(), vec![15, 13, 6]);
    assert!(w.projectiles.is_empty());
    assert_eq!(w.score, 0);
}

#[test]
fn shot_that_fells_an_enemy_meets_no_enemy_behind_it() {
    let mut w = World::start(dims(), vec![], 0);
    let mut first = on_screen(100_000, 100_000, EnemyType::Basic);
    let mut weak = on_screen(100_000, 100_000, EnemyType::Sniper);
    let mut last = on_screen(100_000, 100_000, EnemyType::Basic);
    first.hp = 3;
    weak.hp = 2;
    last.hp = 1;
    w.enemies.push(first);
    w.enemies.push(weak);
    w.enemies.push(last);
    w.projectiles.push(resting(100_000, 100_000, ProjType::PlayerShoot));
    w.update_projectiles(0, 0);
    // the first is hurt, the second falls, the third is not met
    assert_eq!(w.enemies.iter().map(|e| e.hp).collect::<Vec<i32>>(), vec![1, 1]);
    assert_eq!(w.enemies[0].variant, EnemyType::Basic);
    assert_eq!(w.enemies[1].variant, EnemyType::Basic);
    assert!(w.projectiles.is_empty());
    assert_eq!(w.score, 100);
}

#[test]
fn score_stops_at_the_largest_number() {
    let mut w = World::start(dims(), vec![], 0);
    w.score = u64::MAX - 50;
    let mut weak = on_screen(100_000, 100_000, EnemyType::Basic);
    weak.hp = 1;
    w.enemies.push(weak);
    w.projectiles.push(resting(100_000, 100_000, ProjType::PlayerShoot));
    w.update_projectiles(0, 0);
    assert!(w.enemies.is_empty());
    assert_eq!(w.score, u64::MAX);
}

#[test]
fn enemy_shots_pass_through_enemies() {
    let mut w = World::start(dims(), vec![], 0);
    w.enemies.push(on_screen(100_000, 100_000, EnemyType::Basic));
    w.projectiles.push(resting(100_000, 100_000, ProjType::Basic));
    w.projectiles.push(resting(100_000, 100_000, ProjType::Aimed));
    w.update_projectiles(0, 0);
    assert_eq!(w.enemies[0].hp, 15);
    assert_eq!(w.projectiles.len(), 2);
}

#[test]
fn projectiles_move_and_leave_the_field() {
    let mut w = World::start(dims(), vec![], 0);
    let up = Vector { x: 0, y: -10_000 };
    w.projectiles.push(Projectile { pos: Point { x: 10, y: 40_000 }, vel: up, variant: ProjType::PlayerShoot });
    w.projectiles.push(Projectile { pos: Point { x: 20, y: 20_000 }, vel: up, variant: ProjType::PlayerShoot });
    w.projectiles.push(Projectile { pos: Point { x: 30, y: 30_000 }, vel: up, variant: ProjType::PlayerShoot });
    w.projectiles.push(Projectile { pos: Point { x: 40, y: 30_001 }, vel: up, variant: ProjType::PlayerShoot });
    w.update_projectiles(50_000, 0);
    assert_eq!(
        w.projectiles,
        vec![
            Projectile { pos: Point { x: 10, y: 10_000 }, vel: up, variant: ProjType::PlayerShoot },
            Projectile { pos: Point { x: 30, y: 0 }, vel: up, variant: ProjType::PlayerShoot },
            Projectile { pos: Point { x: 40, y: 1 }, vel: up, variant: ProjType::PlayerShoot },
        ]
    );
}

#[test]
fn player_loses_one_point_however_many_shots_overlap() {
    let mut w = World::start(dims(), vec![], 0);
    for _ in 0..3 {
        w.projectiles.push(resting(75_000, 200_000, ProjType::Basic));
    }
    w.projectiles.push(resting(76_000, 201_000, ProjType::Aimed));
    w.update_projectiles(0, 1_000);
    assert_eq!(w.player.hp, 4);
    assert_eq!(w.player.hp_cd.last_emit, Some(1_000));
    assert_eq!(w.projectiles.len(), 3);
    w.update_projectiles(0, 1_000_000);
    w.update_projectiles(0, 2_000_999);
    assert_eq!(w.player.hp, 4);
    assert_eq!(w.projectiles.len(), 3);
    w.update_projectiles(0, 2_001_000);
    assert_eq!(w.player.hp, 3);
    assert_eq!(w.projectiles.len(), 2);
    assert_eq!(w.player.hp_cd.last_emit, Some(2_001_000));
}

#[test]
fn own_shots_do_not_hurt_the_player() {
    let mut w = World::start(dims(), vec![], 0);
    w.projectiles.push(resting(75_000, 200_000, ProjType::PlayerShoot));
    w.update_projectiles(0, 0);
    assert_eq!(w.player.hp, 5);
    assert_eq!(w.projectiles.len(), 1);
}

#[test]
fn last_hit_point_ends_the_tick_for_the_projectiles_behind() {
    let mut w = World::start(dims(), vec![], 0);
    w.player.hp = 1;
    let down = Vector { x: 0, y: 10_000 };
    w.projectiles.push(Projectile { pos: Point { x: 10, y: 10 }, vel: down, variant: ProjType::Basic });
    w.projectiles.push(Projectile { pos: Point { x: 75_000, y: 170_000 }, vel: down, variant: ProjType::Basic });
    w.projectiles.push(Projectile { pos: Point { x: 20, y: 20 }, vel: down, variant: ProjType::Basic });
    w.projectiles.push(Projectile { pos: Point { x: 30, y: 599_999 }, vel: down, variant: ProjType::Aimed });
    w.enemies.push(on_screen(300_000, 300_000, EnemyType::Basic));
    w.update_projectiles(50_000, 5);
    assert_eq!(w.player.hp, 0);
    assert_eq!(w.player.hp_cd.last_emit, Some(5));
    assert_eq!(
        w.projectiles,
        vec![
            Projectile { pos: Point { x: 10, y: 30_010 }, vel: down, variant: ProjType::Basic },
            Projectile { pos: Point { x: 20, y: 20 }, vel: down, variant: ProjType::Basic },
            Projectile { pos: Point { x: 30, y: 599_999 }, vel: down, variant: ProjType::Aimed },
        ]
    );
    assert_eq!(w.check_end(), Outcome::Lose(0));
}

#[test]
fn player_without_hit_points_stays_at_zero() {
    let mut w = World::start(dims(), vec![], 0);
    w.player.hp = 0;
    w.projectiles.push(resting(75_000, 200_000, ProjType::Basic));
    w.projectiles.push(resting(10, 10, ProjType::Basic));
    w.update_projectiles(0, 0);
    assert_eq!(w.player.hp, 0);
    assert_eq!(w.projectiles, vec![resting(10, 10, ProjType::Basic)]);
}

#[test]
fn player_moves_and_shoots_in_a_tick() {
    let mut w = World::start(dims(), vec![], 0);
    let keys = Inputs { up: false, down: false, left: false, right: true, shoot: true };
    w.update_entities(50_000, &keys, 1_000);
    assert_eq!(w.player.pos, Point { x: 90_000, y: 200_000 });
    assert_eq!(
        w.projectiles,
        vec![Projectile {
            pos: Point { x: 90_000, y: 176_000 },
            vel: Vector { x: 0, y: -10_000 },
            variant: ProjType::PlayerShoot,
        }]
    );
    w.update_entities(50_000, &keys, 51_000);
    assert_eq!(w.player.pos, Point { x: 105_000, y: 200_000 });
    assert_eq!(w.projectiles.len(), 1);
    w.update_entities(50_000, &keys, 251_000);
    assert_eq!(w.projectiles.len(), 2);
}

#[test]
fn enemies_move_shoot_and_leave() {
    let mut w = World::start(dims(), vec![], 0);
    let mut leaving = on_screen(-10, 100_000, EnemyType::Basic);
    leaving.proj_cd.emit(0);
    w.enemies.push(on_screen(100_000, 50_000, EnemyType::Basic));
    w.enemies.push(leaving);
    w.enemies.push(on_screen(300_000, 50_000, EnemyType::Sniper));
    w.enemies.push(Enemy::spawn(Point { x: 50_000, y: -100_000 }, EnemyType::Basic));
    w.update_entities(50_000, &idle(), 0);
    assert_eq!(w.enemies.len(), 3);
    assert_eq!(w.enemies[0].pos, Point { x: 98_500, y: 51_500 });
    assert_eq!(w.enemies[0].state, EnemyState::OnScreen(Behavior::Funnel));
    assert_eq!(w.enemies[0].proj_cd.last_emit, Some(0));
    assert_eq!(w.enemies[1].variant, EnemyType::Sniper);
    assert_eq!(w.enemies[2].state, EnemyState::NotSpawned);
    assert_eq!(w.enemies[2].pos, Point { x: 50_000, y: -97_000 });
    assert_eq!(w.enemies[2].proj_cd.last_emit, None);
    assert_eq!(w.projectiles.len(), 2);
    assert_eq!(
        w.projectiles[0],
        Projectile {
            pos: Point { x: 98_500, y: 80_300 },
            vel: Vector { x: 0, y: 10_000 },
            variant: ProjType::Basic,
        }
    );
    assert_eq!(w.projectiles[1].variant, ProjType::Aimed);
    assert_eq!(w.projectiles[1].pos.y, w.enemies[1].pos.y + 28_800);
}

#[test]
fn game_is_won_without_enemies_and_events() {
    let w = World::start(dims(), vec![], 0);
    assert_eq!(w.check_end(), Outcome::Win(0));
}

#[test]
fn game_goes_on_while_enemies_or_events_are_left() {
    let mut w = World::start(dims(), vec![spawn_event(1, 10, 0, 0, EnemyType::Basic)], 0);
    assert_eq!(w.check_end(), Outcome::Continue);
    w.process_events(10);
    assert_eq!(w.check_end(), Outcome::Continue);
    w.enemies.clear();
    w.score = 300;
    assert_eq!(w.check_end(), Outcome::Win(300));
}

#[test]
fn loss_comes_before_a_win() {
    let mut w = World::start(dims(), vec![], 0);
    w.player.hp = 0;
    w.score = 700;
    assert_eq!(w.check_end(), Outcome::Lose(700));
    w.enemies.push(on_screen(1, 1, EnemyType::Basic));
    assert_eq!(w.check_end(), Outcome::Lose(700));
}

#[test]
fn event_on_another_event_keeps_the_game_going() {
    let stuck = Event {
        id: 5,
        time: None,
        ref_evt: Some((1, 1_000)),
        variant: EventType::SpawnEnemy(Point { x: 0, y: 0 }, EnemyType::Basic),
    };
    let mut w = World::start(dims(), vec![stuck], 0);
    assert_eq!(w.tick(50_000, &idle(), u64::MAX), Outcome::Continue);
    assert!(w.enemies.is_empty());
    assert_eq!(w.event_syst.list, vec![stuck]);
}

#[test]
fn tick_runs_the_steps_in_order() {
    let mut w = World::start(
        dims(),
        vec![spawn_event(1, 0, 100_000, -1_000, EnemyType::Basic)],
        0,
    );
    let keys = Inputs { up: false, down: false, left: false, right: false, shoot: true };
    let outcome = w.tick(50_000, &keys, 0);
    assert_eq!(outcome, Outcome::Continue);
    // the event fired, the enemy entered and shot, and both shots flew on
    assert!(w.event_syst.is_empty());
    assert_eq!(w.enemies.len(), 1);
    assert_eq!(w.enemies[0].state, EnemyState::OnScreen(Behavior::Funnel));
    assert_eq!(w.enemies[0].pos, Point { x: 100_000, y: 2_000 });
    assert_eq!(
        w.projectiles,
        vec![
            Projectile {
                pos: Point { x: 75_000, y: 146_000 },
                vel: Vector { x: 0, y: -10_000 },
                variant: ProjType::PlayerShoot,
            },
            Projectile {
                pos: Point { x: 100_000, y: 60_800 },
                vel: Vector { x: 0, y: 10_000 },
                variant: ProjType::Basic,
            },
        ]
    );
}

#[test]
fn session_ends_once_the_enemies_are_gone() {
    let mut w = World::start(
        dims(),
        vec![
            spawn_event(1, 0, 75_000, 1_000, EnemyType::Sniper),
            spawn_event(2, 500_000, 75_000, -1_000, EnemyType::Basic),
        ],
        0,
    );
    let keys = Inputs { up: false, down: false, left: true, right: false, shoot: true };
    let mut now = 0u64;
    let mut outcome = Outcome::Continue;
    let mut last_score = 0;
    let mut last_hp = w.player.hp;
    let mut ticks = 0;
    while outcome == Outcome::Continue && ticks < 20_000 {
        outcome = w.tick(16_667, &keys, now);
        now += 16_667;
        ticks += 1;
        assert!(w.score >= last_score);
        assert!(w.player.hp <= last_hp);
        assert!(last_hp - w.player.hp <= 1);
        assert!(0 <= w.player.pos.x && w.player.pos.x <= 400_000);
        assert!(0 <= w.player.pos.y && w.player.pos.y <= 600_000);
        assert_eq!(w.rect.dims, dims());
        assert!(w.enemies.iter().all(|e| e.state != EnemyState::OffScreen && e.hp > 0));
        last_score = w.score;
        last_hp = w.player.hp;
    }
    match outcome {
        Outcome::Win(score) => {
            assert!(w.enemies.is_empty());
            assert!(w.event_syst.is_empty());
            assert!(w.player.hp > 0);
            assert_eq!(score, w.score);
            assert!(score % 100 == 0 && score <= 200);
        },
        Outcome::Lose(score) => {
            assert_eq!(w.player.hp, 0);
            assert_eq!(score, w.score);
        },
        Outcome::Continue => panic!("the session did not end"),
    }
}

#[test]
fn frame_rate_is_read_at_its_own_pace() {
    let mut w = World::start(dims(), vec![], 0);
    w.sample_fps(58, 1_000);
    assert_eq!(w.fps, 58);
    w.sample_fps(30, 100_999);
    assert_eq!(w.fps, 58);
    w.sample_fps(30, 101_000);
    assert_eq!(w.fps, 30);
    assert_eq!(w.fps_cd.last_emit, Some(101_000));
}
