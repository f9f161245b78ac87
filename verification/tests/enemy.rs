use arcade_core::coords::{Dimensions, Point, Rect, RectI};
use arcade_core::enemy::{Behavior, Enemy, EnemyState, EnemyType};
use arcade_core::projectile::{ProjType, Projectile};
use arcade_core::units::Vector;

fn field() -> RectI {
    Rect { top_left: Point { x: 0, y: 0 }, dims: Dimensions { w: 400_000, h: 600_000 } }
}

#[test]
fn new_enemies_follow_the_table_of_kinds() {
    let b = Enemy::spawn(Point { x: 1, y: 2 }, EnemyType::Basic);
    assert_eq!(b.pos, Point { x: 1, y: 2 });
    assert_eq!(b.vel, Vector { x: 0, y: 0 });
    assert_eq!(b.size, Dimensions { w: 48_000, h: 48_000 });
    assert_eq!(b.hp, 15);
    assert_eq!(b.proj_cd.cooldown, 416_666);
    assert_eq!(b.proj_cd.last_emit, None);
    assert_eq!(b.variant, EnemyType::Basic);
    assert_eq!(b.state, EnemyState::NotSpawned);
    let s = Enemy::spawn(Point { x: 3, y: 4 }, EnemyType::Sniper);
    assert_eq!(s.size, Dimensions { w: 32_000, h: 48_000 });
    assert_eq!(s.hp, 8);
    assert_eq!(s.proj_cd.cooldown, 666_666);
    assert_eq!(s.state, EnemyState::NotSpawned);
    assert_eq!(Enemy::max_hp(EnemyType::Basic), 15);
    assert_eq!(Enemy::max_hp(EnemyType::Sniper), 8);
}

#[test]
fn each_kind_has_its_behavior() {
    let b = Enemy::spawn(Point { x: 0, y: 0 }, EnemyType::Basic);
    let s = Enemy::spawn(Point { x: 0, y: 0 }, EnemyType::Sniper);
    assert_eq!(b.enemy_func(), Behavior::Funnel);
    assert_eq!(s.enemy_func(), Behavior::Sweep);
}

#[test]
fn enemy_enters_on_the_first_tick_that_lands_inside() {
    let mut e = Enemy::spawn(Point { x: 100_000, y: -4_000 }, EnemyType::Basic);
    e.update_pos(field(), 50_000);
    // fell 1 500 to -2 500, still above the field, then moved on by 1 500
    assert_eq!(e.state, EnemyState::NotSpawned);
    assert_eq!(e.pos, Point { x: 100_000, y: -1_000 });
    assert_eq!(e.vel, Vector { x: 0, y: 500 });
    e.update_pos(field(), 50_000);
    // fell to 500, inside: on screen; then moved on to 2 000
    assert_eq!(e.state, EnemyState::OnScreen(Behavior::Funnel));
    assert_eq!(e.pos, Point { x: 100_000, y: 2_000 });
    e.update_pos(field(), 50_000);
    assert_eq!(e.state, EnemyState::OnScreen(Behavior::Funnel));
    assert_eq!(e.vel, Vector { x: -500, y: 500 });
    assert_eq!(e.pos, Point { x: 98_500, y: 3_500 });
}

#[test]
fn enemy_beside_the_field_never_enters() {
    let mut e = Enemy::spawn(Point { x: -1, y: -4_000 }, EnemyType::Sniper);
    for _ in 0..50 {
        e.update_pos(field(), 1_000_000);
        assert_eq!(e.state, EnemyState::NotSpawned);
    }
    assert_eq!(e.pos, Point { x: -1, y: -4_000 + 50 * 2 * 30_000 });
}

#[test]
fn sniper_enters_with_the_sweep() {
    let mut e = Enemy::spawn(Point { x: 100_000, y: -1_000 }, EnemyType::Sniper);
    e.update_pos(field(), 50_000);
    assert_eq!(e.state, EnemyState::OnScreen(Behavior::Sweep));
}

#[test]
fn funnel_heads_for_the_centre_line_from_beyond_it_and_away_otherwise() {
    // beyond the line: left is toward it
    let beyond = Behavior::Funnel.velocity(Point { x: 200_001, y: 10 }, field());
    assert_eq!(beyond, Vector { x: -500, y: 500 });
    let far = Behavior::Funnel.velocity(Point { x: 399_999, y: 10 }, field());
    assert_eq!(far, Vector { x: -500, y: 500 });
    // on the line and before it: left is away from it
    let on = Behavior::Funnel.velocity(Point { x: 200_000, y: 10 }, field());
    assert_eq!(on, Vector { x: -500, y: 500 });
    let before = Behavior::Funnel.velocity(Point { x: 0, y: 10 }, field());
    assert_eq!(before, Vector { x: -500, y: 500 });
}

#[test]
fn sweep_moves_at_a_right_angle_to_the_line_to_the_top_middle() {
    let v = Behavior::Sweep.velocity(Point { x: 100_000, y: 50_000 }, field());
    // toward the top middle: (2 236, -1 118); turned: (-1 118, -2 236)
    assert_eq!(v, Vector { x: -1_118, y: -2_236 });
    let below = Behavior::Sweep.velocity(Point { x: 200_000, y: 50_000 }, field());
    assert_eq!(below, Vector { x: -2_500, y: 0 });
}

#[test]
fn sweep_rests_on_the_top_middle() {
    let v = Behavior::Sweep.velocity(Point { x: 200_000, y: 0 }, field());
    assert_eq!(v, Vector { x: 0, y: 0 });
}

#[test]
fn enemy_leaves_once_it_stands_outside() {
    let mut e = Enemy::spawn(Point { x: 1_000, y: 100_000 }, EnemyType::Basic);
    e.state = EnemyState::OnScreen(Behavior::Funnel);
    e.update_pos(field(), 50_000);
    // it was inside when the tick began, and steps out to the left
    assert_eq!(e.state, EnemyState::OnScreen(Behavior::Funnel));
    assert_eq!(e.pos, Point { x: -500, y: 101_500 });
    e.update_pos(field(), 50_000);
    assert_eq!(e.state, EnemyState::OffScreen);
    assert_eq!(e.pos, Point { x: -2_000, y: 103_000 });
    e.update_pos(field(), 50_000);
    assert_eq!(e.state, EnemyState::OffScreen);
    assert_eq!(e.pos, Point { x: -3_500, y: 104_500 });
}

#[test]
fn state_never_goes_back() {
    fn rank(s: EnemyState) -> u8 {
        match s {
            EnemyState::NotSpawned => 0,
            EnemyState::OnScreen(_) => 1,
            EnemyState::OffScreen => 2,
        }
    }
    let mut small = field();
    small.dims = Dimensions { w: 400_000, h: 20_000 };
    let mut e = Enemy::spawn(Point { x: 300_000, y: -3_000 }, EnemyType::Basic);
    let mut seen = vec![e.state];
    for _ in 0..40 {
        let before = e.state;
        e.update_pos(small, 50_000);
        assert!(rank(before) <= rank(e.state) && rank(e.state) <= rank(before) + 1);
        if seen.last() != Some(&e.state) {
            seen.push(e.state);
        }
    }
    assert_eq!(
        seen,
        vec![
            EnemyState::NotSpawned,
            EnemyState::OnScreen(Behavior::Funnel),
            EnemyState::OffScreen
        ]
    );
}

#[test]
fn basic_enemy_shoots_straight_down() {
    let mut e = Enemy::spawn(Point { x: 100_000, y: 50_000 }, EnemyType::Basic);
    let shot = e.fire(field(), Point { x: 75_000, y: 200_000 }, 7);
    assert_eq!(
        shot,
        Some(Projectile {
            pos: Point { x: 100_000, y: 78_800 },
            vel: Vector { x: 0, y: 10_000 },
            variant: ProjType::Basic,
        })
    );
    assert_eq!(e.proj_cd.last_emit, Some(7));
    assert!(e.fire(field(), Point { x: 75_000, y: 200_000 }, 416_672).is_none());
    assert!(e.fire(field(), Point { x: 75_000, y: 200_000 }, 416_673).is_some());
}

#[test]
fn sniper_shoots_at_the_player() {
    let mut e = Enemy::spawn(Point { x: 100_000, y: 50_000 }, EnemyType::Sniper);
    let shot = e.fire(field(), Point { x: 75_000, y: 200_000 }, 0);
    assert_eq!(
        shot,
        Some(Projectile {
            pos: Point { x: 100_000, y: 78_800 },
            vel: Vector { x: -2_020, y: 9_793 },
            variant: ProjType::Aimed,
        })
    );
}

#[test]
fn sniper_on_the_player_shoots_nowhere() {
    let mut e = Enemy::spawn(Point { x: 100_000, y: 50_000 }, EnemyType::Sniper);
    let shot = e.fire(field(), Point { x: 100_000, y: 78_800 }, 0);
    assert_eq!(shot.map(|p| p.vel), Some(Vector { x: 0, y: 0 }));
}

#[test]
fn enemy_outside_the_field_does_not_shoot() {
    let mut e = Enemy::spawn(Point { x: 100_000, y: -1 }, EnemyType::Basic);
    let before = e;
    assert!(e.fire(field(), Point { x: 0, y: 0 }, 0).is_none());
    assert_eq!(e, before);
}

#[test]
fn enemy_in_the_field_shoots_in_any_state() {
    for state in [
        EnemyState::NotSpawned,
        EnemyState::OnScreen(Behavior::Funnel),
        EnemyState::OffScreen,
    ] {
        let mut e = Enemy::spawn(Point { x: 100_000, y: 50_000 }, EnemyType::Basic);
        e.state = state;
        assert!(e.fire(field(), Point { x: 0, y: 0 }, 0).is_some());
        assert_eq!(e.state, state);
    }
}

#[test]
fn hit_takes_two_points() {
    let mut e = Enemy::spawn(Point { x: 0, y: 0 }, EnemyType::Basic);
    e.take_hit();
    assert_eq!(e.hp, 13);
    assert!(!e.is_dead());
    for _ in 0..6 {
        e.take_hit();
    }
    assert_eq!(e.hp, 1);
    assert!(!e.is_dead());
    e.take_hit();
    assert_eq!(e.hp, -1);
    assert!(e.is_dead());
    e.hp = i32::MIN + 1;
    e.take_hit();
    assert_eq!(e.hp, i32::MIN);
}

#[test]
fn only_the_players_shots_hit_enemies() {
    let e = Enemy::spawn(Point { x: 100_000, y: 100_000 }, EnemyType::Sniper);
    let vel = Vector { x: 0, y: 0 };
    let at = Point { x: 121_000, y: 100_000 };
    assert!(e.is_hit_by(&Projectile { pos: at, vel, variant: ProjType::PlayerShoot }));
    assert!(!e.is_hit_by(&Projectile { pos: at, vel, variant: ProjType::Basic }));
    assert!(!e.is_hit_by(&Projectile { pos: at, vel, variant: ProjType::Aimed }));
    let past = Point { x: 121_001, y: 100_000 };
    assert!(!e.is_hit_by(&Projectile { pos: past, vel, variant: ProjType::PlayerShoot }));
}
