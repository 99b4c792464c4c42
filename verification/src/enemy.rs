//! Enemies: spawned on a fixed interval under a population cap, roaming
//! in a bounded random walk whose heading is re-rolled on its own slower
//! cadence, and re-drawn inward whenever a move would cross an edge.
use vstd::prelude::*;
use crate::SimConfig;
use crate::BOUNCE_BOUND;
use crate::ENEMY_CAP;
use crate::ENEMY_HALF_HEIGHT;
use crate::ENEMY_HALF_WIDTH;
use crate::ENEMY_SPEED;
use crate::REHEAD_BOUND;
use crate::SPAWN_HEADING_BOUND;
use crate::geom::iabs;
use crate::rng::GameRng;
use crate::views;
use crate::lemma_views_push;

verus! {

/// A live enemy: centre position in fine units, its own collision
/// half-extents (independent of its render scale), speed in units per
/// second, and the current random-walk heading in thousandths per axis.
#[derive(Clone, Copy)]
pub struct Enemy {
    pub x: i64,
    pub y: i64,
    pub half_w: i64,
    pub half_h: i64,
    pub speed: u32,
    pub head_x: i32,
    pub head_y: i32,
}

/// Mathematical model of an enemy.
pub struct EnemyV {
    pub x: int,
    pub y: int,
    pub half_w: int,
    pub half_h: int,
    pub speed: int,
    pub head_x: int,
    pub head_y: int,
}

impl View for Enemy {
    type V = EnemyV;

    open spec fn view(&self) -> EnemyV {
        EnemyV {
            x: self.x as int,
            y: self.y as int,
            half_w: self.half_w as int,
            half_h: self.half_h as int,
            speed: self.speed as int,
            head_x: self.head_x as int,
            head_y: self.head_y as int,
        }
    }
}

/// An enemy the simulation keeps: strictly inside the play area, with
/// the fixed collision extents, a positive bounded speed, and a heading
/// no larger than the widest re-draw range.
pub open spec fn enemy_wf(e: EnemyV, cfg: SimConfig) -> bool {
    &&& iabs(e.x) < cfg.half_width
    &&& iabs(e.y) < cfg.half_height
    &&& e.half_w == ENEMY_HALF_WIDTH
    &&& e.half_h == ENEMY_HALF_HEIGHT
    &&& 0 < e.speed <= 100_000
    &&& iabs(e.head_x) <= BOUNCE_BOUND
    &&& iabs(e.head_y) <= BOUNCE_BOUND
}

/// A batch of per-enemy heading rolls: one pair per enemy, each axis
/// within the given magnitude.
pub open spec fn heading_rolls_ok(rolls: Seq<(int, int)>, n: int, bound: int) -> bool {
    &&& rolls.len() == n
    &&& forall|j: int|
        0 <= j < n ==> iabs((#[trigger] rolls[j]).0) <= bound && iabs(rolls[j].1) <= bound
}

/// The re-heading pass: every enemy's heading is replaced by its roll;
/// nothing else changes.
pub open spec fn reheaded(es: Seq<EnemyV>, rolls: Seq<(int, int)>) -> Seq<EnemyV> {
    Seq::new(es.len(), |j: int| EnemyV { head_x: rolls[j].0, head_y: rolls[j].1, ..es[j] })
}

/// Re-heading pass over the live enemies, on its own slower cadence.
/// The drawn headings are returned as ghost data so the caller can name
/// the exact outcome.
pub fn set_enemy_movement(enemies: &mut Vec<Enemy>, cfg: &SimConfig, rng: &mut GameRng) -> (rolls:
    Ghost<Seq<(int, int)>>)
    requires
        cfg.valid(),
        forall|j: int| 0 <= j < old(enemies)@.len() ==> enemy_wf(#[trigger] old(enemies)@[j]@, *cfg),
    ensures
        heading_rolls_ok(rolls@, old(enemies)@.len() as int, REHEAD_BOUND as int),
        views(final(enemies)@) == reheaded(views(old(enemies)@), rolls@),
        forall|j: int| 0 <= j < final(enemies)@.len() ==> enemy_wf(#[trigger] final(enemies)@[j]@, *cfg),
{
    let ghost vs = views(enemies@);
    let mut out: Vec<Enemy> = Vec::new();
    let ghost mut rolls: Seq<(int, int)> = Seq::empty();
    let mut j: usize = 0;
    while j < enemies.len()
        invariant
            j <= enemies.len(),
            vs == views(enemies@),
            vs.len() == enemies@.len(),
            cfg.valid(),
            forall|k: int| 0 <= k < enemies@.len() ==> enemy_wf(#[trigger] enemies@[k]@, *cfg),
            heading_rolls_ok(rolls, j as int, REHEAD_BOUND as int),
            views(out@) == reheaded(vs.take(j as int), rolls),
            forall|k: int| 0 <= k < out@.len() ==> enemy_wf(#[trigger] out@[k]@, *cfg),
        decreases enemies@.len() - j,
    {
        let hx = rng.roll(-REHEAD_BOUND, REHEAD_BOUND);
        let hy = rng.roll(-REHEAD_BOUND, REHEAD_BOUND);
        let e = enemies[j];
        let turned = Enemy { head_x: hx as i32, head_y: hy as i32, ..e };
        proof {
            assert(enemy_wf(enemies@[j as int]@, *cfg));
            assert(enemy_wf(turned@, *cfg));
            lemma_views_push(out@, turned);
            rolls = rolls.push((hx as int, hy as int));
            assert(views(out@.push(turned)) =~= reheaded(vs.take(j + 1), rolls));
        }
        out.push(turned);
        j += 1;
    }
    proof {
        assert(vs.take(enemies@.len() as int) =~= vs);
        assert(views(out@) =~= reheaded(vs, rolls));
    }
    *enemies = out;
    Ghost(rolls)
}

/// One movement tick for one enemy, per axis: the candidate coordinate
/// adds speed times the 1/60 s tick times the heading (exactly
/// `speed * heading` fine units). An axis whose candidate would leave
/// the play area keeps its old coordinate and takes the freshly drawn
/// heading instead — reflection by resampling, each axis on its own.
pub open spec fn moved_enemy(e: EnemyV, hw: int, hh: int, rx: int, ry: int) -> EnemyV {
    let cx = e.x + e.speed * e.head_x;
    let cy = e.y + e.speed * e.head_y;
    EnemyV {
        x: if iabs(cx) < hw {
            cx
        } else {
            e.x
        },
        head_x: if iabs(cx) < hw {
            e.head_x
        } else {
            rx
        },
        y: if iabs(cy) < hh {
            cy
        } else {
            e.y
        },
        head_y: if iabs(cy) < hh {
            e.head_y
        } else {
            ry
        },
        ..e
    }
}

/// A bounded speed times a bounded heading stays well inside `i64`.
pub proof fn lemma_heading_step_bounds(s: int, h: int)
    by (nonlinear_arith)
    requires
        0 <= s <= 100_000,
        -5_000 <= h <= 5_000,
    ensures
        -500_000_000 <= s * h <= 500_000_000,
{
}

/// The movement pass over a whole enemy sequence, one roll pair per
/// enemy (used only by rejected axes).
pub open spec fn moved_enemies(es: Seq<EnemyV>, hw: int, hh: int, rolls: Seq<(int, int)>) -> Seq<
    EnemyV,
> {
    Seq::new(es.len(), |j: int| moved_enemy(es[j], hw, hh, rolls[j].0, rolls[j].1))
}

/// Movement pass over the live enemies. The drawn headings are returned
/// as ghost data; an enemy whose both axes were accepted never consumes
/// its pair.
pub fn move_enemies(enemies: &mut Vec<Enemy>, cfg: &SimConfig, rng: &mut GameRng) -> (rolls: Ghost<
    Seq<(int, int)>,
>)
    requires
        cfg.valid(),
        forall|j: int| 0 <= j < old(enemies)@.len() ==> enemy_wf(#[trigger] old(enemies)@[j]@, *cfg),
    ensures
        heading_rolls_ok(rolls@, old(enemies)@.len() as int, BOUNCE_BOUND as int),
        views(final(enemies)@) == moved_enemies(
            views(old(enemies)@),
            cfg.half_width as int,
            cfg.half_height as int,
            rolls@,
        ),
        forall|j: int| 0 <= j < final(enemies)@.len() ==> enemy_wf(#[trigger] final(enemies)@[j]@, *cfg),
{
    let ghost vs = views(enemies@);
    let mut out: Vec<Enemy> = Vec::new();
    let ghost mut rolls: Seq<(int, int)> = Seq::empty();
    let mut j: usize = 0;
    while j < enemies.len()
        invariant
            j <= enemies.len(),
            vs == views(enemies@),
            vs.len() == enemies@.len(),
            cfg.valid(),
            forall|k: int| 0 <= k < enemies@.len() ==> enemy_wf(#[trigger] enemies@[k]@, *cfg),
            heading_rolls_ok(rolls, j as int, BOUNCE_BOUND as int),
            views(out@) == moved_enemies(
                vs.take(j as int),
                cfg.half_width as int,
                cfg.half_height as int,
                rolls,
            ),
            forall|k: int| 0 <= k < out@.len() ==> enemy_wf(#[trigger] out@[k]@, *cfg),
        decreases enemies@.len() - j,
    {
        let rx = rng.roll(-BOUNCE_BOUND, BOUNCE_BOUND);
        let ry = rng.roll(-BOUNCE_BOUND, BOUNCE_BOUND);
        let e = enemies[j];
        proof {
            assert(enemy_wf(enemies@[j as int]@, *cfg));
            lemma_heading_step_bounds(e@.speed, e@.head_x);
            lemma_heading_step_bounds(e@.speed, e@.head_y);
        }
        let cx: i64 = e.x + (e.speed as i64) * (e.head_x as i64);
        let cy: i64 = e.y + (e.speed as i64) * (e.head_y as i64);
        let mx: i64 = if cx >= 0 {
            cx
        } else {
            -cx
        };
        let my: i64 = if cy >= 0 {
            cy
        } else {
            -cy
        };
        let mut stepped = e;
        if mx < cfg.half_width {
            stepped.x = cx;
        } else {
            stepped.head_x = rx as i32;
        }
        if my < cfg.half_height {
            stepped.y = cy;
        } else {
            stepped.head_y = ry as i32;
        }
        proof {
            lemma_views_push(out@, stepped);
            rolls = rolls.push((rx as int, ry as int));
            assert(stepped@ == moved_enemy(
                e@,
                cfg.half_width as int,
                cfg.half_height as int,
                rx as int,
                ry as int,
            ));
            assert(views(out@.push(stepped)) =~= moved_enemies(
                vs.take(j + 1),
                cfg.half_width as int,
                cfg.half_height as int,
                rolls,
            ));
        }
        out.push(stepped);
        j += 1;
    }
    proof {
        assert(vs.take(enemies@.len() as int) =~= vs);
        assert(views(out@) =~= moved_enemies(
            vs,
            cfg.half_width as int,
            cfg.half_height as int,
            rolls,
        ));
    }
    *enemies = out;
    Ghost(rolls)
}

/// Re-heading happens only on its own cadence: an ordinary movement tick
/// leaves the heading of an enemy untouched on every axis whose move is
/// accepted — the heading changes between cadence points only when an
/// edge rejects a move.
pub proof fn lemma_accepted_move_keeps_heading(e: EnemyV, hw: int, hh: int, rx: int, ry: int)
    requires
        iabs(e.x + e.speed * e.head_x) < hw,
        iabs(e.y + e.speed * e.head_y) < hh,
    ensures
        moved_enemy(e, hw, hh, rx, ry).head_x == e.head_x,
        moved_enemy(e, hw, hh, rx, ry).head_y == e.head_y,
        moved_enemy(e, hw, hh, rx, ry).x == e.x + e.speed * e.head_x,
        moved_enemy(e, hw, hh, rx, ry).y == e.y + e.speed * e.head_y,
{
}

/// The enemy a spawn creates: drawn position, fixed extents and speed,
/// drawn initial heading.
pub open spec fn spawned_enemy(x: int, y: int, hx: int, hy: int) -> EnemyV {
    EnemyV {
        x,
        y,
        half_w: ENEMY_HALF_WIDTH as int,
        half_h: ENEMY_HALF_HEIGHT as int,
        speed: ENEMY_SPEED as int,
        head_x: hx,
        head_y: hy,
    }
}

/// The ranges the spawn draws from: horizontally the full play-area
/// width inset by half the enemy so the whole sprite stays on screen;
/// vertically only the upper half of the play area, likewise inset, so
/// enemies always arrive from above; heading small per axis.
pub open spec fn spawn_rolls_ok(x: int, y: int, hx: int, hy: int, cfg: SimConfig) -> bool {
    &&& -(cfg.half_width - ENEMY_HALF_WIDTH) <= x <= cfg.half_width - ENEMY_HALF_WIDTH
    &&& 0 <= y <= cfg.half_height - ENEMY_HALF_HEIGHT
    &&& iabs(hx) <= SPAWN_HEADING_BOUND
    &&& iabs(hy) <= SPAWN_HEADING_BOUND
}

/// The spawn step: if the counter is at the cap nothing happens at all;
/// otherwise exactly one enemy is appended and the counter rises by one.
pub open spec fn spawn_applied(es: Seq<EnemyV>, active: int, x: int, y: int, hx: int, hy: int) -> (
    Seq<EnemyV>,
    int,
) {
    if active >= ENEMY_CAP {
        (es, active)
    } else {
        (es.push(spawned_enemy(x, y, hx, hy)), active + 1)
    }
}

/// The spawn scheduler never creates an enemy at the cap, and below the
/// cap always creates exactly one; the counter never leaves [0, cap].
pub proof fn lemma_spawn_respects_cap(
    es: Seq<EnemyV>,
    active: int,
    x: int,
    y: int,
    hx: int,
    hy: int,
)
    requires
        0 <= active <= ENEMY_CAP,
    ensures
        active == ENEMY_CAP ==> spawn_applied(es, active, x, y, hx, hy) == (es, active),
        active < ENEMY_CAP ==> spawn_applied(es, active, x, y, hx, hy).0 == es.push(
            spawned_enemy(x, y, hx, hy),
        ) && spawn_applied(es, active, x, y, hx, hy).1 == active + 1,
        0 <= spawn_applied(es, active, x, y, hx, hy).1 <= ENEMY_CAP,
{
}

/// Spawn pass: called on the spawn interval's boundary. The guard at
/// the cap is the only branch; the drawn position and heading are
/// returned as ghost data (meaningful only when a spawn happened).
pub fn spawn_enemy(enemies: &mut Vec<Enemy>, active: &mut u8, cfg: &SimConfig, rng: &mut GameRng)
    -> (g: Ghost<(int, int, int, int)>)
    requires
        cfg.valid(),
        *old(active) as int == old(enemies)@.len(),
        old(enemies)@.len() <= ENEMY_CAP,
        forall|j: int| 0 <= j < old(enemies)@.len() ==> enemy_wf(#[trigger] old(enemies)@[j]@, *cfg),
    ensures
        *old(active) < ENEMY_CAP ==> spawn_rolls_ok(g@.0, g@.1, g@.2, g@.3, *cfg),
        views(final(enemies)@) == spawn_applied(
            views(old(enemies)@),
            *old(active) as int,
            g@.0,
            g@.1,
            g@.2,
            g@.3,
        ).0,
        *final(active) as int == spawn_applied(
            views(old(enemies)@),
            *old(active) as int,
            g@.0,
            g@.1,
            g@.2,
            g@.3,
        ).1,
        *final(active) as int == final(enemies)@.len(),
        final(enemies)@.len() <= ENEMY_CAP,
        forall|j: int| 0 <= j < final(enemies)@.len() ==> enemy_wf(#[trigger] final(enemies)@[j]@, *cfg),
{
    if *active >= ENEMY_CAP {
        return Ghost((0, 0, 0, 0));
    }
    *active = *active + 1;
    let x = rng.roll(-(cfg.half_width - ENEMY_HALF_WIDTH), cfg.half_width - ENEMY_HALF_WIDTH);
    let y = rng.roll(0, cfg.half_height - ENEMY_HALF_HEIGHT);
    let hx = rng.roll(-SPAWN_HEADING_BOUND, SPAWN_HEADING_BOUND);
    let hy = rng.roll(-SPAWN_HEADING_BOUND, SPAWN_HEADING_BOUND);
    let fresh = Enemy {
        x,
        y,
        half_w: ENEMY_HALF_WIDTH,
        half_h: ENEMY_HALF_HEIGHT,
        speed: ENEMY_SPEED,
        head_x: hx as i32,
        head_y: hy as i32,
    };
    proof {
        lemma_views_push(enemies@, fresh);
    }
    enemies.push(fresh);
    Ghost((x as int, y as int, hx as int, hy as int))
}

} // verus!
