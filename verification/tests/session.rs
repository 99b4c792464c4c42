//! Whole-session runs through the fixed-timestep scheduler.
use invaders_core::SimConfig;
use invaders_core::MoveDir;
use invaders_core::TickInput;
use invaders_core::enemy::Enemy;
use invaders_core::explosion::Explosion;
use invaders_core::laser::Laser;
use invaders_core::rng::GameRng;
use invaders_core::sim::EntityKind;
use invaders_core::sim::SimState;

fn still() -> TickInput {
    TickInput { dir: MoveDir::Still, fire_pressed: false, fire_released: false }
}

#[test]
fn fresh_session_layout() {
    let s = SimState::new(SimConfig::standard());
    assert_eq!(s.tick_count, 0);
    assert_eq!(s.player.x, 0);
    assert_eq!(s.player.y, -18_000_000 + 2_220_000);
    assert_eq!(s.player.speed, 500);
    assert!(s.player.can_fire);
    assert_eq!(s.lasers.len(), 0);
    assert_eq!(s.enemies.len(), 0);
    assert_eq!(s.explosions.len(), 0);
    assert_eq!(s.active_enemies, 0);
}

#[test]
fn enemies_appear_on_the_spawn_interval_and_stop_at_the_cap() {
    let mut s = SimState::new(SimConfig::standard());
    let mut rng = GameRng::from_seed(42);
    for _ in 0..149 {
        s.tick(still(), &mut rng);
    }
    assert_eq!(s.active_enemies, 0, "nothing spawns before the first interval boundary");
    s.tick(still(), &mut rng);
    assert_eq!(s.active_enemies, 1, "exactly one enemy on the boundary");
    assert_eq!(s.enemies.len(), 1);
    for _ in 150..750 {
        s.tick(still(), &mut rng);
    }
    assert_eq!(s.active_enemies, 5, "one more per interval up to the cap");
    for _ in 750..1_000 {
        s.tick(still(), &mut rng);
        assert_eq!(s.active_enemies, 5, "the cap holds with no lasers flying");
    }
}

#[test]
fn counter_stays_within_bounds_under_heavy_fire() {
    let mut s = SimState::new(SimConfig::standard());
    let mut rng = GameRng::from_seed(1_234);
    for t in 0..1_200u32 {
        let input = TickInput {
            dir: if t % 2 == 0 { MoveDir::Left } else { MoveDir::Right },
            fire_pressed: t % 3 == 0,
            fire_released: t % 3 == 1,
        };
        s.tick(input, &mut rng);
        assert!(s.active_enemies <= 5);
        assert_eq!(s.active_enemies as usize, s.enemies.len(), "counter equals live enemies");
        assert!(s.player.x.abs() < 24_000_000 - 1_920_000, "player sprite never leaves the area");
        for e in &s.enemies {
            assert!(e.x.abs() < 24_000_000);
            assert!(e.y.abs() < 18_000_000);
        }
        for l in &s.lasers {
            assert!(l.y <= 36_000_000);
        }
    }
}

#[test]
fn stray_laser_leaves_on_the_next_tick_with_no_enemies() {
    let mut s = SimState::new(SimConfig::standard());
    let mut rng = GameRng::from_seed(5);
    s.lasers = vec![Laser { x: 0, y: 35_700_000, scale_x_milli: 400, scale_y_milli: 500, speed: 500 }];
    s.tick(still(), &mut rng);
    assert_eq!(s.lasers.len(), 0, "past the height bound, gone without any enemy");
}

#[test]
fn heading_unchanged_between_cadence_points() {
    let mut s = SimState::new(SimConfig::standard());
    let mut rng = GameRng::from_seed(9);
    s.enemies = vec![Enemy { x: 0, y: 0, half_w: 960_000, half_h: 960_000, speed: 200, head_x: 100, head_y: -100 }];
    s.active_enemies = 1;
    // ticks 1 and 2 are off the 30-tick cadence: the heading survives
    s.tick(still(), &mut rng);
    assert_eq!(s.enemies[0].head_x, 100);
    assert_eq!(s.enemies[0].head_y, -100);
    s.tick(still(), &mut rng);
    assert_eq!(s.enemies[0].head_x, 100);
    assert_eq!(s.enemies[0].head_y, -100);
    assert_eq!(s.enemies[0].x, 2 * 20_000, "the walk itself goes on every tick");
    // jump to just before a cadence point: tick 30 re-rolls
    s.tick_count = 29;
    s.tick(still(), &mut rng);
    assert!(s.enemies[0].head_x.abs() <= 2_500);
    assert!(s.enemies[0].head_y.abs() <= 2_500);
}

#[test]
fn explosion_entity_lives_through_the_scheduler() {
    let mut s = SimState::new(SimConfig::standard());
    let mut rng = GameRng::from_seed(77);
    // a laser dead-centred on an enemy: the collision tick leaves an
    // explosion that must live exactly frames * 3 more ticks
    s.lasers = vec![Laser { x: 0, y: 9_500_000, scale_x_milli: 1_000, scale_y_milli: 1_000, speed: 500 }];
    s.enemies = vec![Enemy { x: 0, y: 10_000_000, half_w: 960_000, half_h: 960_000, speed: 200, head_x: 0, head_y: 0 }];
    s.active_enemies = 1;
    s.tick(still(), &mut rng);
    assert_eq!(s.active_enemies, 0);
    assert_eq!(s.enemies.len(), 0);
    assert_eq!(s.lasers.len(), 0);
    assert_eq!(s.explosions.len(), 1, "the destruction event became an explosion this tick");
    assert_eq!(s.explosions[0].age, 0);
    for k in 1..12u32 {
        s.tick(still(), &mut rng);
        assert_eq!(s.explosions.len(), 1);
        assert_eq!(s.explosions[0].age, k);
    }
    s.tick(still(), &mut rng);
    assert_eq!(s.explosions.len(), 0, "destroyed at exactly twelve ticks of age");
}

#[test]
fn two_lasers_one_enemy_through_the_scheduler() {
    let mut s = SimState::new(SimConfig::standard());
    let mut rng = GameRng::from_seed(31);
    // both lasers will overlap the enemy after their 500_000-unit climb
    s.lasers = vec![
        Laser { x: -300_000, y: 9_500_000, scale_x_milli: 1_000, scale_y_milli: 1_000, speed: 500 },
        Laser { x: 300_000, y: 9_500_000, scale_x_milli: 1_000, scale_y_milli: 1_000, speed: 500 },
    ];
    s.enemies = vec![Enemy { x: 0, y: 10_000_000, half_w: 960_000, half_h: 960_000, speed: 200, head_x: 0, head_y: 0 }];
    s.active_enemies = 1;
    s.tick(still(), &mut rng);
    assert_eq!(s.lasers.len(), 0, "both lasers are destroyed in the same tick");
    assert_eq!(s.enemies.len(), 0);
    assert_eq!(s.active_enemies, 0, "one decrement for one enemy, not two");
    assert_eq!(s.explosions.len(), 1, "one explosion, not two");
}

#[test]
fn render_list_exposes_every_live_entity() {
    let mut s = SimState::new(SimConfig::standard());
    s.lasers = vec![Laser { x: 11, y: 22, scale_x_milli: 400, scale_y_milli: 500, speed: 500 }];
    s.enemies = vec![Enemy { x: 33, y: 44, half_w: 960_000, half_h: 960_000, speed: 200, head_x: 0, head_y: 0 }];
    s.active_enemies = 1;
    s.explosions = vec![Explosion { x: 55, y: 66, age: 7, frames: 4 }];
    let r = s.render_list();
    assert_eq!(r.len(), 4);
    assert_eq!(r[0].kind, EntityKind::Player);
    assert_eq!(r[0].x, 0);
    assert_eq!(r[0].y, s.player.y);
    assert_eq!(r[1].kind, EntityKind::Laser);
    assert_eq!((r[1].x, r[1].y), (11, 22));
    assert_eq!((r[1].scale_x_milli, r[1].scale_y_milli), (400, 500));
    assert_eq!(r[2].kind, EntityKind::Enemy);
    assert_eq!((r[2].x, r[2].y), (33, 44));
    assert_eq!(r[3].kind, EntityKind::Explosion);
    assert_eq!((r[3].x, r[3].y), (55, 66));
    assert_eq!(r[3].frame, 2, "age seven is the third frame at three ticks each");
}

#[test]
fn fired_lasers_join_the_world_and_climb() {
    let mut s = SimState::new(SimConfig::standard());
    let mut rng = GameRng::from_seed(2);
    s.tick(
        TickInput { dir: MoveDir::Still, fire_pressed: true, fire_released: false },
        &mut rng,
    );
    assert_eq!(s.lasers.len(), 2, "one volley from both guns");
    assert!(!s.player.can_fire);
    let y0 = s.lasers[0].y;
    s.tick(still(), &mut rng);
    assert_eq!(s.lasers.len(), 2);
    assert_eq!(s.lasers[0].y, y0 + 500_000, "the volley climbs from the next tick on");
}
