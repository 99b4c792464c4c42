//! The fixed-timestep scheduler and the whole simulation state. Every
//! tick runs the systems in one deterministic order — spawn, re-heading,
//! movement, collision, fire, explosion animation — each phase modelled
//! by a spec-level transform; a tick's entire effect is the composition
//! of those transforms, stated in [`tick_transition`].
use vstd::prelude::*;
use crate::SimConfig;
use crate::TickInput;
use crate::ENEMY_CAP;
use crate::EXPLOSION_FRAME_TICKS;
use crate::REHEAD_BOUND;
use crate::BOUNCE_BOUND;
use crate::REHEAD_INTERVAL_TICKS;
use crate::SPAWN_INTERVAL_TICKS;
use crate::geom::iabs;
use crate::player::Player;
use crate::player::PlayerV;
use crate::player::player_wf;
use crate::player::spawned_player;
use crate::player::player_moved;
use crate::player::player_shot;
use crate::player::player_movement;
use crate::player::player_shoot;
use crate::player::lemma_player_stays_inside;
use crate::player::lemma_fired_laser_wf;
use crate::laser::Laser;
use crate::laser::LaserV;
use crate::laser::laser_wf;
use crate::laser::lasers_advanced;
use crate::laser::laser_movement;
use crate::laser::lemma_lasers_advanced_wf;
use crate::enemy::Enemy;
use crate::enemy::EnemyV;
use crate::enemy::enemy_wf;
use crate::enemy::heading_rolls_ok;
use crate::enemy::spawn_rolls_ok;
use crate::enemy::spawn_applied;
use crate::enemy::spawned_enemy;
use crate::enemy::reheaded;
use crate::enemy::moved_enemies;
use crate::enemy::moved_enemy;
use crate::enemy::spawn_enemy;
use crate::enemy::set_enemy_movement;
use crate::enemy::move_enemies;
use crate::collision::surviving_lasers;
use crate::collision::surviving_enemies;
use crate::collision::doomed_count;
use crate::collision::boom_requests;
use crate::collision::enemy_laser_collision;
use crate::collision::lemma_doomed_count_bounds;
use crate::collision::lemma_survivors_plus_doomed;
use crate::collision::lemma_surviving_lasers_wf;
use crate::collision::lemma_surviving_enemies_wf;
use crate::collision::lemma_boom_requests_wf;
use crate::explosion::Explosion;
use crate::explosion::ExplosionV;
use crate::explosion::ExplosionRequest;
use crate::explosion::ExplosionRequestV;
use crate::explosion::explosion_wf;
use crate::explosion::request_wf;
use crate::explosion::fresh_explosion;
use crate::explosion::explosions_spawned;
use crate::explosion::animated;
use crate::explosion::spawn_explosions;
use crate::explosion::animate_explosions;
use crate::explosion::lemma_animated_wf;
use crate::rng::GameRng;
use crate::views;

verus! {

/// The mathematical state of the whole simulation at a tick boundary.
#[verifier::ext_equal]
pub struct SimView {
    pub tick: int,
    pub player: PlayerV,
    pub lasers: Seq<LaserV>,
    pub enemies: Seq<EnemyV>,
    pub requests: Seq<ExplosionRequestV>,
    pub explosions: Seq<ExplosionV>,
    pub active: int,
}

/// Everything one tick draws from the random source: the spawn's
/// position and heading, the re-heading pass's pairs, and the movement
/// pass's edge-resample pairs.
pub struct TickRolls {
    pub spawn_x: int,
    pub spawn_y: int,
    pub spawn_hx: int,
    pub spawn_hy: int,
    pub rehead: Seq<(int, int)>,
    pub bounce: Seq<(int, int)>,
}

/// The simulation invariant: a valid configuration, every entity
/// well-formed, and the active-enemy counter exactly the number of live
/// enemies, which never passes the population cap.
pub open spec fn sim_inv(v: SimView, cfg: SimConfig) -> bool {
    &&& cfg.valid()
    &&& v.tick >= 0
    &&& player_wf(v.player, cfg)
    &&& forall|i: int| 0 <= i < v.lasers.len() ==> laser_wf(#[trigger] v.lasers[i], cfg)
    &&& forall|j: int| 0 <= j < v.enemies.len() ==> enemy_wf(#[trigger] v.enemies[j], cfg)
    &&& forall|k: int| 0 <= k < v.requests.len() ==> request_wf(#[trigger] v.requests[k], cfg)
    &&& forall|k: int| 0 <= k < v.explosions.len() ==> explosion_wf(#[trigger] v.explosions[k], cfg)
    &&& v.active == v.enemies.len()
    &&& v.enemies.len() <= ENEMY_CAP
}

/// Spawn phase: runs only on the spawn interval's boundary; at most one
/// enemy appears and the counter follows it.
pub open spec fn phase_spawn(v: SimView, x: int, y: int, hx: int, hy: int) -> SimView {
    SimView {
        enemies: spawn_applied(v.enemies, v.active, x, y, hx, hy).0,
        active: spawn_applied(v.enemies, v.active, x, y, hx, hy).1,
        ..v
    }
}

/// Re-heading phase: runs only on its own slower cadence; every enemy
/// takes a freshly drawn heading, nothing else changes.
pub open spec fn phase_rehead(v: SimView, rolls: Seq<(int, int)>) -> SimView {
    SimView { enemies: reheaded(v.enemies, rolls), ..v }
}

/// Movement phase: the player steps under its edge clamp, every laser
/// climbs or is destroyed at the height bound, every enemy random-walks
/// with per-axis edge resampling.
pub open spec fn phase_move(v: SimView, cfg: SimConfig, dir: int, rolls: Seq<(int, int)>) -> SimView {
    SimView {
        player: player_moved(v.player, dir, cfg.half_width as int),
        lasers: lasers_advanced(v.lasers, 2 * cfg.half_height),
        enemies: moved_enemies(v.enemies, cfg.half_width as int, cfg.half_height as int, rolls),
        ..v
    }
}

/// Collision phase: deduplicated destruction of overlapping lasers and
/// enemies, one counter decrement and one explosion request per
/// destroyed enemy.
pub open spec fn phase_collide(v: SimView) -> SimView {
    SimView {
        lasers: surviving_lasers(v.lasers, v.enemies),
        enemies: surviving_enemies(v.enemies, v.lasers),
        active: v.active - doomed_count(v.enemies, v.lasers),
        requests: v.requests + boom_requests(v.enemies, v.lasers),
        ..v
    }
}

/// Fire phase: the edge-triggered fire action; a laser fired this tick
/// first moves — and first collides — on the next tick.
pub open spec fn phase_fire(v: SimView, pressed: bool, released: bool) -> SimView {
    SimView {
        player: player_shot(v.player, v.lasers, pressed, released).0,
        lasers: player_shot(v.player, v.lasers, pressed, released).1,
        ..v
    }
}

/// Explosion phase: live explosions age (dying exactly at the end of
/// their sprite sheet), then every pending request becomes a fresh
/// explosion that starts ageing next tick.
pub open spec fn phase_explosions(v: SimView, cfg: SimConfig) -> SimView {
    SimView {
        explosions: animated(v.explosions) + explosions_spawned(
            v.requests,
            cfg.explosion_frames as int,
        ),
        requests: Seq::empty(),
        ..v
    }
}

/// What a tick's rolls must look like for the state it starts from:
/// spawn rolls inside the spawn ranges whenever a spawn happens,
/// re-heading pairs for every enemy alive after the spawn phase, and
/// edge-resample pairs likewise.
pub open spec fn tick_rolls_ok(r: TickRolls, v: SimView, cfg: SimConfig) -> bool {
    let t = v.tick + 1;
    let spawning = t % (SPAWN_INTERVAL_TICKS as int) == 0;
    let created = spawning && v.active < ENEMY_CAP;
    let n1 = if created {
        v.enemies.len() + 1int
    } else {
        v.enemies.len() as int
    };
    &&& created ==> spawn_rolls_ok(r.spawn_x, r.spawn_y, r.spawn_hx, r.spawn_hy, cfg)
    &&& t % (REHEAD_INTERVAL_TICKS as int) == 0 ==> heading_rolls_ok(
        r.rehead,
        n1,
        REHEAD_BOUND as int,
    )
    &&& heading_rolls_ok(r.bounce, n1, BOUNCE_BOUND as int)
}

/// One whole tick: the systems in their fixed deterministic order.
/// No system observes a partially updated state of another: each phase
/// consumes exactly the previous phase's result.
pub open spec fn tick_transition(v: SimView, cfg: SimConfig, input: TickInput, r: TickRolls)
    -> SimView {
    let t = v.tick + 1;
    let v1 = if t % (SPAWN_INTERVAL_TICKS as int) == 0 {
        phase_spawn(v, r.spawn_x, r.spawn_y, r.spawn_hx, r.spawn_hy)
    } else {
        v
    };
    let v2 = if t % (REHEAD_INTERVAL_TICKS as int) == 0 {
        phase_rehead(v1, r.rehead)
    } else {
        v1
    };
    let v3 = phase_move(v2, cfg, input.dir.delta(), r.bounce);
    let v4 = phase_collide(v3);
    let v5 = phase_fire(v4, input.fire_pressed, input.fire_released);
    let v6 = phase_explosions(v5, cfg);
    SimView { tick: t, ..v6 }
}

/// The spawn phase preserves the invariant whenever its rolls lie in
/// the spawn ranges; at the cap it changes nothing at all.
pub proof fn lemma_phase_spawn_inv(v: SimView, cfg: SimConfig, x: int, y: int, hx: int, hy: int)
    requires
        sim_inv(v, cfg),
        v.active < ENEMY_CAP ==> spawn_rolls_ok(x, y, hx, hy, cfg),
    ensures
        sim_inv(phase_spawn(v, x, y, hx, hy), cfg),
        phase_spawn(v, x, y, hx, hy).enemies.len() == if v.active < ENEMY_CAP {
            v.enemies.len() + 1int
        } else {
            v.enemies.len() as int
        },
{
    let w = phase_spawn(v, x, y, hx, hy);
    if v.active < ENEMY_CAP {
        let fresh = spawned_enemy(x, y, hx, hy);
        assert(enemy_wf(fresh, cfg));
        assert(forall|j: int|
            0 <= j < w.enemies.len() ==> enemy_wf(#[trigger] w.enemies[j], cfg));
    }
}

/// The re-heading phase preserves the invariant for rolls within the
/// re-heading range.
pub proof fn lemma_phase_rehead_inv(v: SimView, cfg: SimConfig, rolls: Seq<(int, int)>)
    requires
        sim_inv(v, cfg),
        heading_rolls_ok(rolls, v.enemies.len() as int, REHEAD_BOUND as int),
    ensures
        sim_inv(phase_rehead(v, rolls), cfg),
{
    let w = phase_rehead(v, rolls);
    assert forall|j: int| 0 <= j < w.enemies.len() implies enemy_wf(
        #[trigger] w.enemies[j],
        cfg,
    ) by {
        assert(enemy_wf(v.enemies[j], cfg));
        assert(iabs(rolls[j].0) <= REHEAD_BOUND);
        assert(iabs(rolls[j].1) <= REHEAD_BOUND);
    }
}

/// The movement phase preserves the invariant for rolls within the
/// edge-resample range.
pub proof fn lemma_phase_move_inv(
    v: SimView,
    cfg: SimConfig,
    dir: int,
    rolls: Seq<(int, int)>,
)
    requires
        sim_inv(v, cfg),
        heading_rolls_ok(rolls, v.enemies.len() as int, BOUNCE_BOUND as int),
    ensures
        sim_inv(phase_move(v, cfg, dir, rolls), cfg),
{
    let w = phase_move(v, cfg, dir, rolls);
    lemma_player_stays_inside(v.player, dir, cfg.half_width as int);
    lemma_lasers_advanced_wf(v.lasers, cfg);
    assert forall|j: int| 0 <= j < w.enemies.len() implies enemy_wf(
        #[trigger] w.enemies[j],
        cfg,
    ) by {
        assert(enemy_wf(v.enemies[j], cfg));
        assert(iabs(rolls[j].0) <= BOUNCE_BOUND);
        assert(iabs(rolls[j].1) <= BOUNCE_BOUND);
        assert(w.enemies[j] == moved_enemy(
            v.enemies[j],
            cfg.half_width as int,
            cfg.half_height as int,
            rolls[j].0,
            rolls[j].1,
        ));
    }
}

/// The collision phase preserves the invariant: survivors were already
/// well-formed, the counter falls exactly with the enemy count, and the
/// new requests point at positions enemies held.
pub proof fn lemma_phase_collide_inv(v: SimView, cfg: SimConfig)
    requires
        sim_inv(v, cfg),
    ensures
        sim_inv(phase_collide(v), cfg),
        0 <= phase_collide(v).active <= v.active,
{
    lemma_surviving_lasers_wf(v.lasers, v.enemies, cfg);
    lemma_surviving_enemies_wf(v.enemies, v.lasers, cfg);
    lemma_boom_requests_wf(v.enemies, v.lasers, cfg);
    lemma_survivors_plus_doomed(v.enemies, v.lasers);
    lemma_doomed_count_bounds(v.enemies, v.lasers);
    let w = phase_collide(v);
    assert(forall|k: int|
        0 <= k < w.requests.len() ==> request_wf(#[trigger] w.requests[k], cfg));
}

/// The fire phase preserves the invariant: what the guns fire is
/// well-formed and the rest of the state is untouched.
pub proof fn lemma_phase_fire_inv(v: SimView, cfg: SimConfig, pressed: bool, released: bool)
    requires
        sim_inv(v, cfg),
    ensures
        sim_inv(phase_fire(v, pressed, released), cfg),
{
    let w = phase_fire(v, pressed, released);
    lemma_fired_laser_wf(v.player, cfg);
    assert(forall|i: int| 0 <= i < w.lasers.len() ==> laser_wf(#[trigger] w.lasers[i], cfg));
}

/// The explosion phase preserves the invariant: ageing keeps survivors
/// under their lifetime and fresh explosions start at age zero on the
/// session's sprite sheet.
pub proof fn lemma_phase_explosions_inv(v: SimView, cfg: SimConfig)
    requires
        sim_inv(v, cfg),
    ensures
        sim_inv(phase_explosions(v, cfg), cfg),
{
    let w = phase_explosions(v, cfg);
    lemma_animated_wf(v.explosions, cfg);
    assert forall|k: int| 0 <= k < w.explosions.len() implies explosion_wf(
        #[trigger] w.explosions[k],
        cfg,
    ) by {
        if k < animated(v.explosions).len() {
            assert(w.explosions[k] == animated(v.explosions)[k]);
        } else {
            let i = k - animated(v.explosions).len();
            assert(w.explosions[k] == fresh_explosion(v.requests[i], cfg.explosion_frames as int));
            assert(request_wf(v.requests[i], cfg));
        }
    }
}

/// The active-enemy counter stays within `[0, cap]` across every tick,
/// whatever the input and whatever the random source produced: the
/// invariant established at startup is preserved by the whole tick
/// transition.
pub proof fn lemma_tick_preserves_inv(v: SimView, cfg: SimConfig, input: TickInput, r: TickRolls)
    requires
        sim_inv(v, cfg),
        tick_rolls_ok(r, v, cfg),
    ensures
        sim_inv(tick_transition(v, cfg, input, r), cfg),
        tick_transition(v, cfg, input, r).tick == v.tick + 1,
        0 <= tick_transition(v, cfg, input, r).active <= ENEMY_CAP,
{
    let t = v.tick + 1;
    let v1 = if t % (SPAWN_INTERVAL_TICKS as int) == 0 {
        phase_spawn(v, r.spawn_x, r.spawn_y, r.spawn_hx, r.spawn_hy)
    } else {
        v
    };
    if t % (SPAWN_INTERVAL_TICKS as int) == 0 {
        lemma_phase_spawn_inv(v, cfg, r.spawn_x, r.spawn_y, r.spawn_hx, r.spawn_hy);
    }
    let v2 = if t % (REHEAD_INTERVAL_TICKS as int) == 0 {
        phase_rehead(v1, r.rehead)
    } else {
        v1
    };
    if t % (REHEAD_INTERVAL_TICKS as int) == 0 {
        lemma_phase_rehead_inv(v1, cfg, r.rehead);
    }
    let v3 = phase_move(v2, cfg, input.dir.delta(), r.bounce);
    lemma_phase_move_inv(v2, cfg, input.dir.delta(), r.bounce);
    let v4 = phase_collide(v3);
    lemma_phase_collide_inv(v3, cfg);
    let v5 = phase_fire(v4, input.fire_pressed, input.fire_released);
    lemma_phase_fire_inv(v4, cfg, input.fire_pressed, input.fire_released);
    let v6 = phase_explosions(v5, cfg);
    lemma_phase_explosions_inv(v5, cfg);
}

/// The whole live simulation: the fixed configuration, the completed
/// tick count, the player (created once, never destroyed), the entity
/// vectors, and the active-enemy counter, which the invariant ties to
/// the live-enemy count.
pub struct SimState {
    pub cfg: SimConfig,
    pub tick_count: u64,
    pub player: Player,
    pub lasers: Vec<Laser>,
    pub enemies: Vec<Enemy>,
    pub explosion_requests: Vec<ExplosionRequest>,
    pub explosions: Vec<Explosion>,
    pub active_enemies: u8,
}

impl View for SimState {
    type V = SimView;

    open spec fn view(&self) -> SimView {
        SimView {
            tick: self.tick_count as int,
            player: self.player@,
            lasers: views(self.lasers@),
            enemies: views(self.enemies@),
            requests: views(self.explosion_requests@),
            explosions: views(self.explosions@),
            active: self.active_enemies as int,
        }
    }
}

impl SimState {
    /// The simulation invariant, on the live state.
    pub open spec fn inv(&self) -> bool {
        sim_inv(self@, self.cfg)
    }

    /// A fresh session: the player centred at its fixed height, no
    /// other entity alive, counter zero, at tick zero.
    pub fn new(cfg: SimConfig) -> (s: SimState)
        requires
            cfg.valid(),
        ensures
            s.cfg == cfg,
            s.inv(),
            s@.tick == 0,
            s@.player == spawned_player(cfg),
            s@.lasers.len() == 0,
            s@.enemies.len() == 0,
            s@.requests.len() == 0,
            s@.explosions.len() == 0,
            s@.active == 0,
    {
        SimState {
            cfg,
            tick_count: 0,
            player: Player::new(&cfg),
            lasers: Vec::new(),
            enemies: Vec::new(),
            explosion_requests: Vec::new(),
            explosions: Vec::new(),
            active_enemies: 0,
        }
    }

    /// Run one whole tick: spawn (on its interval), re-heading (on its
    /// cadence), movement, collision, fire, explosion animation — in
    /// that fixed order. The state that leaves is exactly
    /// [`tick_transition`] of the state that entered, under the rolls
    /// the random source produced, and the invariant is preserved for
    /// every outcome.
    pub fn tick(&mut self, input: TickInput, rng: &mut GameRng) -> (rolls: Ghost<TickRolls>)
        requires
            old(self).inv(),
            old(self).tick_count < u64::MAX,
        ensures
            final(self).cfg == old(self).cfg,
            final(self).tick_count == old(self).tick_count + 1,
            tick_rolls_ok(rolls@, old(self)@, old(self).cfg),
            final(self)@ == tick_transition(old(self)@, old(self).cfg, input, rolls@),
            final(self).inv(),
    {
        let ghost v0 = self@;
        let ghost cfg = self.cfg;
        let t: u64 = self.tick_count + 1;
        let ghost mut r = TickRolls {
            spawn_x: 0,
            spawn_y: 0,
            spawn_hx: 0,
            spawn_hy: 0,
            rehead: Seq::empty(),
            bounce: Seq::empty(),
        };
        proof {
            assert forall|j: int| 0 <= j < self.enemies@.len() implies enemy_wf(
                #[trigger] self.enemies@[j]@,
                cfg,
            ) by {
                assert(v0.enemies[j] == self.enemies@[j]@);
            }
            assert forall|i: int| 0 <= i < self.lasers@.len() implies laser_wf(
                #[trigger] self.lasers@[i]@,
                cfg,
            ) by {
                assert(v0.lasers[i] == self.lasers@[i]@);
            }
            assert forall|k: int| 0 <= k < self.explosion_requests@.len() implies request_wf(
                #[trigger] self.explosion_requests@[k]@,
                cfg,
            ) by {
                assert(v0.requests[k] == self.explosion_requests@[k]@);
            }
            assert forall|k: int| 0 <= k < self.explosions@.len() implies explosion_wf(
                #[trigger] self.explosions@[k]@,
                cfg,
            ) by {
                assert(v0.explosions[k] == self.explosions@[k]@);
            }
        }
        // spawn scheduler, on the spawn interval's boundary
        if t % SPAWN_INTERVAL_TICKS == 0 {
            let g = spawn_enemy(&mut self.enemies, &mut self.active_enemies, &self.cfg, rng);
            proof {
                r = TickRolls { spawn_x: g@.0, spawn_y: g@.1, spawn_hx: g@.2, spawn_hy: g@.3, ..r };
            }
        }
        let ghost v1 = if (v0.tick + 1) % (SPAWN_INTERVAL_TICKS as int) == 0 {
            phase_spawn(v0, r.spawn_x, r.spawn_y, r.spawn_hx, r.spawn_hy)
        } else {
            v0
        };
        proof {
            assert(self@ =~~= v1);
            if (v0.tick + 1) % (SPAWN_INTERVAL_TICKS as int) == 0 {
                lemma_phase_spawn_inv(v0, cfg, r.spawn_x, r.spawn_y, r.spawn_hx, r.spawn_hy);
            }
        }
        // enemy re-heading, on its own slower cadence
        if t % REHEAD_INTERVAL_TICKS == 0 {
            let g = set_enemy_movement(&mut self.enemies, &self.cfg, rng);
            proof {
                r = TickRolls { rehead: g@, ..r };
            }
        }
        let ghost v2 = if (v0.tick + 1) % (REHEAD_INTERVAL_TICKS as int) == 0 {
            phase_rehead(v1, r.rehead)
        } else {
            v1
        };
        proof {
            assert(self@ =~~= v2);
            if (v0.tick + 1) % (REHEAD_INTERVAL_TICKS as int) == 0 {
                lemma_phase_rehead_inv(v1, cfg, r.rehead);
            }
        }
        // movement: player, lasers, enemies
        player_movement(&mut self.player, input.dir, &self.cfg);
        laser_movement(&mut self.lasers, &self.cfg);
        let gb = move_enemies(&mut self.enemies, &self.cfg, rng);
        proof {
            r = TickRolls { bounce: gb@, ..r };
        }
        let ghost v3 = phase_move(v2, cfg, input.dir.delta(), r.bounce);
        proof {
            assert(self@ =~~= v3);
            lemma_phase_move_inv(v2, cfg, input.dir.delta(), r.bounce);
        }
        // collision
        proof {
            assert(self.active_enemies as int == self.enemies@.len());
        }
        enemy_laser_collision(
            &mut self.lasers,
            &mut self.enemies,
            &mut self.explosion_requests,
            &mut self.active_enemies,
            &self.cfg,
        );
        let ghost v4 = phase_collide(v3);
        proof {
            assert(self@ =~~= v4);
            lemma_phase_collide_inv(v3, cfg);
        }
        // fire
        player_shoot(
            &mut self.player,
            &mut self.lasers,
            input.fire_pressed,
            input.fire_released,
            &self.cfg,
        );
        let ghost v5 = phase_fire(v4, input.fire_pressed, input.fire_released);
        proof {
            assert(self@ =~~= v5);
            lemma_phase_fire_inv(v4, cfg, input.fire_pressed, input.fire_released);
        }
        // explosions: age the living, then spawn this tick's requests
        animate_explosions(&mut self.explosions, &self.cfg);
        spawn_explosions(&mut self.explosions, &mut self.explosion_requests, &self.cfg);
        let ghost v6 = phase_explosions(v5, cfg);
        proof {
            assert(views(self.explosion_requests@) =~= Seq::<ExplosionRequestV>::empty());
            assert(self@ =~~= SimView { tick: v5.tick, ..v6 });
        }
        self.tick_count = t;
        proof {
            assert(self@ =~~= SimView { tick: v0.tick + 1, ..v6 });
            assert(self@ =~~= tick_transition(v0, cfg, input, r));
            assert(tick_rolls_ok(r, v0, cfg));
            lemma_tick_preserves_inv(v0, cfg, input, r);
        }
        Ghost(r)
    }
}

/// On its interval boundary the spawn scheduler always creates exactly
/// one enemy while the counter is below the cap, and the tick as a
/// whole shows it: with no lasers in flight the tick ends with one
/// enemy more and the counter one higher. (At the cap it creates none:
/// see [`crate::enemy::lemma_spawn_respects_cap`].)
pub proof fn lemma_spawn_on_boundary(v: SimView, cfg: SimConfig, input: TickInput, r: TickRolls)
    requires
        sim_inv(v, cfg),
        tick_rolls_ok(r, v, cfg),
        (v.tick + 1) % (SPAWN_INTERVAL_TICKS as int) == 0,
        v.active < ENEMY_CAP,
        v.lasers.len() == 0,
    ensures
        tick_transition(v, cfg, input, r).enemies.len() == v.enemies.len() + 1,
        tick_transition(v, cfg, input, r).active == v.active + 1,
{
    let t = v.tick + 1;
    let v1 = phase_spawn(v, r.spawn_x, r.spawn_y, r.spawn_hx, r.spawn_hy);
    lemma_phase_spawn_inv(v, cfg, r.spawn_x, r.spawn_y, r.spawn_hx, r.spawn_hy);
    let v2 = if t % (REHEAD_INTERVAL_TICKS as int) == 0 {
        phase_rehead(v1, r.rehead)
    } else {
        v1
    };
    let v3 = phase_move(v2, cfg, input.dir.delta(), r.bounce);
    assert(v3.lasers =~= Seq::<LaserV>::empty());
    crate::collision::lemma_no_lasers_no_deaths(v3.enemies);
}

/// The counter law at any observation point: under the invariant —
/// which holds at startup and after every tick — the active-enemy
/// counter lies in `[0, cap]`.
pub proof fn lemma_counter_bounded(v: SimView, cfg: SimConfig)
    requires
        sim_inv(v, cfg),
    ensures
        0 <= v.active <= ENEMY_CAP,
{
}

/// The kind tag of a live entity, exposed for rendering.
#[derive(Clone, Copy, Debug, PartialEq, Eq, Structural)]
pub enum EntityKind {
    Player,
    Laser,
    Enemy,
    Explosion,
}

/// What a renderer needs for one live entity: its kind, its position in
/// fine units, its per-axis transform scale in thousandths, and the
/// sprite-sheet frame on show (zero for entities without a sheet).
#[derive(Clone, Copy)]
pub struct RenderItem {
    pub kind: EntityKind,
    pub x: i64,
    pub y: i64,
    pub scale_x_milli: u32,
    pub scale_y_milli: u32,
    pub frame: u32,
}

impl SimState {
    /// Everything a rendering collaborator needs to draw the scene,
    /// with no further simulation knowledge: the player first, then
    /// lasers, enemies and explosions, in their live order.
    pub fn render_list(&self) -> (r: Vec<RenderItem>)
        requires
            self.inv(),
        ensures
            r@.len() == 1 + self@.lasers.len() + self@.enemies.len() + self@.explosions.len(),
            r@[0].kind == EntityKind::Player,
            r@[0].x as int == self@.player.x,
            r@[0].y as int == self@.player.y,
            r@[0].scale_x_milli == crate::PLAYER_SCALE_MILLI,
            r@[0].scale_y_milli == crate::PLAYER_SCALE_MILLI,
            r@[0].frame == 0,
            forall|i: int|
                1 <= i < 1 + self@.lasers.len() ==> (#[trigger] r@[i]).kind == EntityKind::Laser
                    && r@[i].x as int == self@.lasers[i - 1].x && r@[i].y as int
                    == self@.lasers[i - 1].y && r@[i].scale_x_milli as int == self@.lasers[i
                    - 1].scale_x && r@[i].scale_y_milli as int == self@.lasers[i - 1].scale_y
                    && r@[i].frame == 0,
            forall|i: int|
                1 + self@.lasers.len() <= i < 1 + self@.lasers.len() + self@.enemies.len() ==> (
                #[trigger] r@[i]).kind == EntityKind::Enemy && r@[i].x as int == self@.enemies[i - 1
                    - self@.lasers.len()].x && r@[i].y as int == self@.enemies[i - 1
                    - self@.lasers.len()].y && r@[i].scale_x_milli == crate::ENEMY_SCALE_MILLI
                    && r@[i].scale_y_milli == crate::ENEMY_SCALE_MILLI && r@[i].frame == 0,
            forall|i: int|
                1 + self@.lasers.len() + self@.enemies.len() <= i < r@.len() ==> (
                #[trigger] r@[i]).kind == EntityKind::Explosion && r@[i].x as int
                    == self@.explosions[i - 1 - self@.lasers.len() - self@.enemies.len()].x
                    && r@[i].y as int == self@.explosions[i - 1 - self@.lasers.len()
                    - self@.enemies.len()].y && r@[i].scale_x_milli
                    == crate::EXPLOSION_SCALE_MILLI && r@[i].scale_y_milli
                    == crate::EXPLOSION_SCALE_MILLI && r@[i].frame as int == self@.explosions[i - 1
                    - self@.lasers.len() - self@.enemies.len()].age / (
                EXPLOSION_FRAME_TICKS as int),
    {
        let ghost v = self@;
        let mut r: Vec<RenderItem> = Vec::new();
        r.push(
            RenderItem {
                kind: EntityKind::Player,
                x: self.player.x,
                y: self.player.y,
                scale_x_milli: crate::PLAYER_SCALE_MILLI,
                scale_y_milli: crate::PLAYER_SCALE_MILLI,
                frame: 0,
            },
        );
        let mut i: usize = 0;
        while i < self.lasers.len()
            invariant
                i <= self.lasers.len(),
                v == self@,
                v.lasers.len() == self.lasers@.len(),
                r@.len() == 1 + i,
                r@[0].kind == EntityKind::Player && r@[0].x as int == v.player.x && r@[0].y as int
                    == v.player.y && r@[0].scale_x_milli == crate::PLAYER_SCALE_MILLI
                    && r@[0].scale_y_milli == crate::PLAYER_SCALE_MILLI && r@[0].frame == 0,
                forall|k: int|
                    1 <= k < 1 + i ==> (#[trigger] r@[k]).kind == EntityKind::Laser && r@[k].x as int
                        == v.lasers[k - 1].x && r@[k].y as int == v.lasers[k - 1].y
                        && r@[k].scale_x_milli as int == v.lasers[k - 1].scale_x
                        && r@[k].scale_y_milli as int == v.lasers[k - 1].scale_y && r@[k].frame
                        == 0,
            decreases self.lasers@.len() - i,
        {
            let l = self.lasers[i];
            proof {
                assert(v.lasers[i as int] == self.lasers@[i as int]@);
            }
            r.push(
                RenderItem {
                    kind: EntityKind::Laser,
                    x: l.x,
                    y: l.y,
                    scale_x_milli: l.scale_x_milli,
                    scale_y_milli: l.scale_y_milli,
                    frame: 0,
                },
            );
            i += 1;
        }
        let mut j: usize = 0;
        while j < self.enemies.len()
            invariant
                j <= self.enemies.len(),
                v == self@,
                v.lasers.len() == self.lasers@.len(),
                v.enemies.len() == self.enemies@.len(),
                r@.len() == 1 + v.lasers.len() + j,
                r@[0].kind == EntityKind::Player && r@[0].x as int == v.player.x && r@[0].y as int
                    == v.player.y && r@[0].scale_x_milli == crate::PLAYER_SCALE_MILLI
                    && r@[0].scale_y_milli == crate::PLAYER_SCALE_MILLI && r@[0].frame == 0,
                forall|k: int|
                    1 <= k < 1 + v.lasers.len() ==> (#[trigger] r@[k]).kind == EntityKind::Laser
                        && r@[k].x as int == v.lasers[k - 1].x && r@[k].y as int == v.lasers[k
                        - 1].y && r@[k].scale_x_milli as int == v.lasers[k - 1].scale_x
                        && r@[k].scale_y_milli as int == v.lasers[k - 1].scale_y && r@[k].frame
                        == 0,
                forall|k: int|
                    1 + v.lasers.len() <= k < 1 + v.lasers.len() + j ==> (#[trigger] r@[k]).kind
                        == EntityKind::Enemy && r@[k].x as int == v.enemies[k - 1
                        - v.lasers.len()].x && r@[k].y as int == v.enemies[k - 1
                        - v.lasers.len()].y && r@[k].scale_x_milli == crate::ENEMY_SCALE_MILLI
                        && r@[k].scale_y_milli == crate::ENEMY_SCALE_MILLI && r@[k].frame == 0,
            decreases self.enemies@.len() - j,
        {
            let e = self.enemies[j];
            proof {
                assert(v.enemies[j as int] == self.enemies@[j as int]@);
            }
            r.push(
                RenderItem {
                    kind: EntityKind::Enemy,
                    x: e.x,
                    y: e.y,
                    scale_x_milli: crate::ENEMY_SCALE_MILLI,
                    scale_y_milli: crate::ENEMY_SCALE_MILLI,
                    frame: 0,
                },
            );
            j += 1;
        }
        let mut k: usize = 0;
        while k < self.explosions.len()
            invariant
                k <= self.explosions.len(),
                v == self@,
                self.inv(),
                v.lasers.len() == self.lasers@.len(),
                v.enemies.len() == self.enemies@.len(),
                v.explosions.len() == self.explosions@.len(),
                r@.len() == 1 + v.lasers.len() + v.enemies.len() + k,
                r@[0].kind == EntityKind::Player && r@[0].x as int == v.player.x && r@[0].y as int
                    == v.player.y && r@[0].scale_x_milli == crate::PLAYER_SCALE_MILLI
                    && r@[0].scale_y_milli == crate::PLAYER_SCALE_MILLI && r@[0].frame == 0,
                forall|m: int|
                    1 <= m < 1 + v.lasers.len() ==> (#[trigger] r@[m]).kind == EntityKind::Laser
                        && r@[m].x as int == v.lasers[m - 1].x && r@[m].y as int == v.lasers[m
                        - 1].y && r@[m].scale_x_milli as int == v.lasers[m - 1].scale_x
                        && r@[m].scale_y_milli as int == v.lasers[m - 1].scale_y && r@[m].frame
                        == 0,
                forall|m: int|
                    1 + v.lasers.len() <= m < 1 + v.lasers.len() + v.enemies.len() ==> (
                    #[trigger] r@[m]).kind == EntityKind::Enemy && r@[m].x as int == v.enemies[m - 1
                        - v.lasers.len()].x && r@[m].y as int == v.enemies[m - 1
                        - v.lasers.len()].y && r@[m].scale_x_milli == crate::ENEMY_SCALE_MILLI
                        && r@[m].scale_y_milli == crate::ENEMY_SCALE_MILLI && r@[m].frame == 0,
                forall|m: int|
                    1 + v.lasers.len() + v.enemies.len() <= m < 1 + v.lasers.len()
                        + v.enemies.len() + k ==> (#[trigger] r@[m]).kind == EntityKind::Explosion
                        && r@[m].x as int == v.explosions[m - 1 - v.lasers.len()
                        - v.enemies.len()].x && r@[m].y as int == v.explosions[m - 1
                        - v.lasers.len() - v.enemies.len()].y && r@[m].scale_x_milli
                        == crate::EXPLOSION_SCALE_MILLI && r@[m].scale_y_milli
                        == crate::EXPLOSION_SCALE_MILLI && r@[m].frame as int == v.explosions[m - 1
                        - v.lasers.len() - v.enemies.len()].age / (
                    EXPLOSION_FRAME_TICKS as int),
            decreases self.explosions@.len() - k,
        {
            let b = self.explosions[k];
            proof {
                assert(v.explosions[k as int] == self.explosions@[k as int]@);
                assert(explosion_wf(b@, self.cfg));
            }
            let frame = b.frame_index(&self.cfg);
            r.push(
                RenderItem {
                    kind: EntityKind::Explosion,
                    x: b.x,
                    y: b.y,
                    scale_x_milli: crate::EXPLOSION_SCALE_MILLI,
                    scale_y_milli: crate::EXPLOSION_SCALE_MILLI,
                    frame,
                },
            );
            k += 1;
        }
        r
    }
}

/// Off its cadence a tick applies no re-heading pass at all: the
/// enemies that leave the tick are exactly the moved (and possibly
/// spawned, possibly collision-culled) enemies, so between cadence
/// points a heading can change only where an edge rejected a move.
pub proof fn lemma_no_rehead_off_cadence(v: SimView, cfg: SimConfig, input: TickInput, r: TickRolls)
    requires
        (v.tick + 1) % (REHEAD_INTERVAL_TICKS as int) != 0,
    ensures
        tick_transition(v, cfg, input, r).enemies == surviving_enemies(
            moved_enemies(
                if (v.tick + 1) % (SPAWN_INTERVAL_TICKS as int) == 0 {
                    phase_spawn(v, r.spawn_x, r.spawn_y, r.spawn_hx, r.spawn_hy).enemies
                } else {
                    v.enemies
                },
                cfg.half_width as int,
                cfg.half_height as int,
                r.bounce,
            ),
            lasers_advanced(v.lasers, 2 * cfg.half_height),
        ),
{
}

} // verus!
