//! Direct exercises of the individual simulation systems.
use invaders_core::SimConfig;
use invaders_core::MoveDir;
use invaders_core::collision::enemy_laser_collision;
use invaders_core::enemy::Enemy;
use invaders_core::enemy::move_enemies;
use invaders_core::enemy::set_enemy_movement;
use invaders_core::enemy::spawn_enemy;
use invaders_core::explosion::Explosion;
use invaders_core::explosion::ExplosionRequest;
use invaders_core::explosion::animate_explosions;
use invaders_core::laser::Laser;
use invaders_core::laser::laser_movement;
use invaders_core::player::Player;
use invaders_core::player::player_movement;
use invaders_core::player::player_shoot;
use invaders_core::rng::GameRng;

fn cfg() -> SimConfig {
    SimConfig::standard()
}

fn enemy_at(x: i64, y: i64, head_x: i32, head_y: i32) -> Enemy {
    Enemy { x, y, half_w: 960_000, half_h: 960_000, speed: 200, head_x, head_y }
}

fn laser_at(x: i64, y: i64) -> Laser {
    Laser { x, y, scale_x_milli: 1_000, scale_y_milli: 1_000, speed: 500 }
}

#[test]
fn containment_destroys_both_and_decrements_once() {
    let cfg = cfg();
    // the laser's box (full scale: 32 x 32 units) exactly contains the
    // enemy's box (also 32 x 32 units) at the same centre
    let mut lasers = vec![laser_at(0, 10_000)];
    let mut enemies = vec![enemy_at(0, 10_000, 0, 0)];
    let mut requests: Vec<ExplosionRequest> = Vec::new();
    let mut active: u8 = 1;
    enemy_laser_collision(&mut lasers, &mut enemies, &mut requests, &mut active, &cfg);
    assert_eq!(lasers.len(), 0);
    assert_eq!(enemies.len(), 0);
    assert_eq!(active, 0);
    assert_eq!(requests.len(), 1);
    assert_eq!(requests[0].x, 0);
    assert_eq!(requests[0].y, 10_000);
}

#[test]
fn two_lasers_one_enemy_decrements_once() {
    let cfg = cfg();
    let mut lasers = vec![laser_at(-100_000, 0), laser_at(100_000, 0)];
    let mut enemies = vec![enemy_at(0, 0, 0, 0)];
    let mut requests: Vec<ExplosionRequest> = Vec::new();
    let mut active: u8 = 1;
    enemy_laser_collision(&mut lasers, &mut enemies, &mut requests, &mut active, &cfg);
    assert_eq!(lasers.len(), 0, "both lasers are destroyed");
    assert_eq!(enemies.len(), 0);
    assert_eq!(active, 0, "the counter falls by exactly one, not two");
    assert_eq!(requests.len(), 1, "one explosion request, not two");
}

#[test]
fn touching_edges_do_not_collide() {
    let cfg = cfg();
    // boxes of full width 1_920_000 each, centres 1_920_000 apart:
    // their edges touch exactly, which counts as outside
    let mut lasers = vec![laser_at(0, 0)];
    let mut enemies = vec![enemy_at(1_920_000, 0, 0, 0)];
    let mut requests: Vec<ExplosionRequest> = Vec::new();
    let mut active: u8 = 1;
    enemy_laser_collision(&mut lasers, &mut enemies, &mut requests, &mut active, &cfg);
    assert_eq!(lasers.len(), 1);
    assert_eq!(enemies.len(), 1);
    assert_eq!(active, 1);
    assert_eq!(requests.len(), 0);
}

#[test]
fn one_laser_two_enemies_destroys_all_three() {
    let cfg = cfg();
    let mut lasers = vec![laser_at(0, 0)];
    let mut enemies = vec![enemy_at(-200_000, 0, 0, 0), enemy_at(200_000, 0, 0, 0)];
    let mut requests: Vec<ExplosionRequest> = Vec::new();
    let mut active: u8 = 2;
    enemy_laser_collision(&mut lasers, &mut enemies, &mut requests, &mut active, &cfg);
    assert_eq!(lasers.len(), 0, "the laser leaves once though it hit twice");
    assert_eq!(enemies.len(), 0);
    assert_eq!(active, 0);
    assert_eq!(requests.len(), 2);
}

#[test]
fn stray_laser_despawns_next_movement_tick() {
    let cfg = cfg();
    // past the 600-unit play-area height (36_000_000 fine units)
    let mut lasers = vec![laser_at(0, 36_000_001), laser_at(5_000, 1_000_000)];
    laser_movement(&mut lasers, &cfg);
    assert_eq!(lasers.len(), 1, "the stray laser is gone with no enemy involved");
    assert_eq!(lasers[0].x, 5_000);
    assert_eq!(lasers[0].y, 1_500_000, "a 500 unit/s laser climbs 500_000 fine units per tick");
}

#[test]
fn laser_at_exact_height_survives_once_more() {
    let cfg = cfg();
    let mut lasers = vec![laser_at(0, 35_500_000)];
    laser_movement(&mut lasers, &cfg);
    assert_eq!(lasers.len(), 1, "landing exactly on the bound is not past it");
    assert_eq!(lasers[0].y, 36_000_000);
    laser_movement(&mut lasers, &cfg);
    assert_eq!(lasers.len(), 0);
}

#[test]
fn explosion_lives_exactly_twelve_ticks_on_four_frames() {
    let cfg = cfg();
    let mut explosions = vec![Explosion { x: 0, y: 0, age: 0, frames: 4 }];
    for k in 1..12u32 {
        animate_explosions(&mut explosions, &cfg);
        assert_eq!(explosions.len(), 1, "alive before frame_count * 3 ticks have passed");
        assert_eq!(explosions[0].age, k);
    }
    animate_explosions(&mut explosions, &cfg);
    assert_eq!(explosions.len(), 0, "destroyed at exactly tick 12, never later");
}

#[test]
fn explosion_frame_advances_every_three_ticks() {
    let cfg = cfg();
    let b = Explosion { x: 0, y: 0, age: 7, frames: 4 };
    assert_eq!(b.frame_index(&cfg), 2);
    let fresh = Explosion { x: 0, y: 0, age: 0, frames: 4 };
    assert_eq!(fresh.frame_index(&cfg), 0);
}

#[test]
fn player_moves_and_clamps_at_the_edge() {
    let cfg = cfg();
    let mut p = Player::new(&cfg);
    player_movement(&mut p, MoveDir::Right, &cfg);
    assert_eq!(p.x, 500_000, "500 units/s for a 1/60 s tick");
    player_movement(&mut p, MoveDir::Left, &cfg);
    player_movement(&mut p, MoveDir::Left, &cfg);
    assert_eq!(p.x, -500_000);
    player_movement(&mut p, MoveDir::Still, &cfg);
    assert_eq!(p.x, -500_000);
    // near the right edge: the bound is half-width minus half a sprite,
    // 24_000_000 - 1_920_000 = 22_080_000
    p.x = 21_680_000;
    player_movement(&mut p, MoveDir::Right, &cfg);
    assert_eq!(p.x, 21_680_000, "a move that would cross the edge is wholly rejected");
    player_movement(&mut p, MoveDir::Left, &cfg);
    assert_eq!(p.x, 21_180_000);
}

#[test]
fn fire_is_edge_triggered() {
    let cfg = cfg();
    let mut p = Player::new(&cfg);
    let mut lasers: Vec<Laser> = Vec::new();
    player_shoot(&mut p, &mut lasers, true, false, &cfg);
    assert_eq!(lasers.len(), 2, "both guns fire on a ready press");
    assert_eq!(lasers[0].x, 1_200_000);
    assert_eq!(lasers[1].x, -1_200_000);
    assert_eq!(lasers[0].y, p.y + 360_000);
    assert_eq!(lasers[0].scale_x_milli, 400);
    assert_eq!(lasers[0].scale_y_milli, 500);
    assert_eq!(lasers[0].speed, 500);
    assert!(!p.can_fire);
    player_shoot(&mut p, &mut lasers, true, false, &cfg);
    assert_eq!(lasers.len(), 2, "holding the key fires nothing more");
    player_shoot(&mut p, &mut lasers, false, true, &cfg);
    assert!(p.can_fire, "readiness returns on the release edge");
    player_shoot(&mut p, &mut lasers, true, false, &cfg);
    assert_eq!(lasers.len(), 4);
}

#[test]
fn accepted_enemy_move_keeps_its_heading() {
    let cfg = cfg();
    let mut rng = GameRng::from_seed(7);
    let mut enemies = vec![enemy_at(0, 0, 1_000, -500)];
    move_enemies(&mut enemies, &cfg, &mut rng);
    assert_eq!(enemies.len(), 1);
    assert_eq!(enemies[0].x, 200_000, "200 units/s at heading 1.0 for one tick");
    assert_eq!(enemies[0].y, -100_000);
    assert_eq!(enemies[0].head_x, 1_000, "no re-heading on an ordinary tick");
    assert_eq!(enemies[0].head_y, -500);
}

#[test]
fn rejected_enemy_axis_resamples_only_that_axis() {
    let cfg = cfg();
    let mut rng = GameRng::from_seed(11);
    // the x candidate (23_900_000 + 1_000_000) would cross the 24_000_000
    // edge; y does not move at all
    let mut enemies = vec![enemy_at(23_900_000, 5_000, 5_000, 0)];
    move_enemies(&mut enemies, &cfg, &mut rng);
    assert_eq!(enemies[0].x, 23_900_000, "the rejected axis does not move");
    assert_eq!(enemies[0].y, 5_000, "a zero heading holds its ground");
    assert!(enemies[0].head_x.abs() <= 5_000, "the rejected axis drew a fresh heading");
    assert_eq!(enemies[0].head_y, 0, "the accepted axis keeps its heading");
}

#[test]
fn spawn_refuses_at_cap_and_fills_below_it() {
    let cfg = cfg();
    let mut rng = GameRng::from_seed(3);
    let mut enemies: Vec<Enemy> = (0..5).map(|i| enemy_at(i * 1_000_000, 0, 0, 0)).collect();
    let mut active: u8 = 5;
    spawn_enemy(&mut enemies, &mut active, &cfg, &mut rng);
    assert_eq!(enemies.len(), 5, "no enemy is created at the cap");
    assert_eq!(active, 5);

    let mut three: Vec<Enemy> = (0..3).map(|i| enemy_at(i * 1_000_000, 0, 0, 0)).collect();
    let mut active3: u8 = 3;
    spawn_enemy(&mut three, &mut active3, &cfg, &mut rng);
    assert_eq!(three.len(), 4, "below the cap exactly one is created");
    assert_eq!(active3, 4);
    let e = &three[3];
    assert!(e.x.abs() <= 24_000_000 - 960_000, "inset by half a sprite horizontally");
    assert!(e.y >= 0, "spawns never below the centre line");
    assert!(e.y <= 18_000_000 - 960_000);
    assert!(e.head_x.abs() <= 1_000);
    assert!(e.head_y.abs() <= 1_000);
    assert_eq!(e.speed, 200);
}

#[test]
fn rehead_draws_within_its_range_for_every_enemy() {
    let cfg = cfg();
    let mut rng = GameRng::from_seed(19);
    let mut enemies = vec![enemy_at(0, 0, 0, 0), enemy_at(1_000_000, 2_000_000, 4_900, 4_900)];
    set_enemy_movement(&mut enemies, &cfg, &mut rng);
    for e in &enemies {
        assert!(e.head_x.abs() <= 2_500);
        assert!(e.head_y.abs() <= 2_500);
    }
    assert_eq!(enemies[1].x, 1_000_000, "re-heading moves nothing");
    assert_eq!(enemies[1].y, 2_000_000);
}

#[test]
fn rolls_stay_inside_their_inclusive_range() {
    let mut rng = GameRng::from_seed(1);
    for _ in 0..200 {
        let v = rng.roll(-10, 10);
        assert!((-10..=10).contains(&v));
    }
    assert_eq!(rng.roll(5, 5), 5);
}
