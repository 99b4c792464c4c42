//! Collision: every live laser is tested against every live enemy for
//! axis-aligned overlap. A hit laser is destroyed once however many
//! enemies it touches; a hit enemy is destroyed once however many lasers
//! touch it, decrements the active counter exactly once, and leaves one
//! explosion request at its last position. All destruction is applied
//! after the full scan.
use vstd::prelude::*;
use crate::SimConfig;
use crate::ENEMY_CAP;
use crate::LASER_BOX_PER_MILLI;
use crate::geom::boxes_overlap;
use crate::geom::boxes_overlap_at;
use crate::geom::lemma_containment_implies_overlap;
use crate::geom::iabs;
use crate::laser::Laser;
use crate::laser::LaserV;
use crate::laser::laser_wf;
use crate::enemy::Enemy;
use crate::enemy::EnemyV;
use crate::enemy::enemy_wf;
use crate::explosion::ExplosionRequest;
use crate::explosion::ExplosionRequestV;
use crate::explosion::request_wf;
use crate::views;
use crate::lemma_views_push;

verus! {

/// Width of a laser's collision box: its horizontal scale times a
/// 32-unit base, in fine units.
pub open spec fn laser_box_w(l: LaserV) -> int {
    l.scale_x * LASER_BOX_PER_MILLI
}

/// Height of a laser's collision box.
pub open spec fn laser_box_h(l: LaserV) -> int {
    l.scale_y * LASER_BOX_PER_MILLI
}

/// A laser and an enemy collide when the laser's scaled box overlaps
/// the enemy's own fixed extents, both centred at their positions.
pub open spec fn hits(l: LaserV, e: EnemyV) -> bool {
    boxes_overlap(
        l.x,
        l.y,
        laser_box_w(l),
        laser_box_h(l),
        e.x,
        e.y,
        2 * e.half_w,
        2 * e.half_h,
    )
}

/// A laser overlapping any live enemy this tick is destroyed this tick.
pub open spec fn laser_doomed(l: LaserV, es: Seq<EnemyV>) -> bool {
    exists|j: int| 0 <= j < es.len() && hits(l, #[trigger] es[j])
}

/// An enemy overlapping any live laser this tick is destroyed this tick.
pub open spec fn enemy_doomed(e: EnemyV, ls: Seq<LaserV>) -> bool {
    exists|i: int| 0 <= i < ls.len() && hits(#[trigger] ls[i], e)
}

/// The lasers the scan leaves alive, in order.
pub open spec fn surviving_lasers(ls: Seq<LaserV>, es: Seq<EnemyV>) -> Seq<LaserV>
    decreases ls.len(),
{
    if ls.len() == 0 {
        Seq::empty()
    } else {
        let rest = surviving_lasers(ls.drop_last(), es);
        if laser_doomed(ls.last(), es) {
            rest
        } else {
            rest.push(ls.last())
        }
    }
}

/// The enemies the scan leaves alive, in order.
pub open spec fn surviving_enemies(es: Seq<EnemyV>, ls: Seq<LaserV>) -> Seq<EnemyV>
    decreases es.len(),
{
    if es.len() == 0 {
        Seq::empty()
    } else {
        let rest = surviving_enemies(es.drop_last(), ls);
        if enemy_doomed(es.last(), ls) {
            rest
        } else {
            rest.push(es.last())
        }
    }
}

/// How many enemies the scan destroys: the counter falls by exactly
/// this, once per destroyed enemy however many lasers hit it.
pub open spec fn doomed_count(es: Seq<EnemyV>, ls: Seq<LaserV>) -> int
    decreases es.len(),
{
    if es.len() == 0 {
        0int
    } else {
        doomed_count(es.drop_last(), ls) + if enemy_doomed(es.last(), ls) {
            1int
        } else {
            0int
        }
    }
}

/// The explosion requests the scan emits: one per destroyed enemy, at
/// its last known position, in enemy order.
pub open spec fn boom_requests(es: Seq<EnemyV>, ls: Seq<LaserV>) -> Seq<ExplosionRequestV>
    decreases es.len(),
{
    if es.len() == 0 {
        Seq::empty()
    } else {
        let rest = boom_requests(es.drop_last(), ls);
        if enemy_doomed(es.last(), ls) {
            rest.push(ExplosionRequestV { x: es.last().x, y: es.last().y })
        } else {
            rest
        }
    }
}

/// With no lasers in flight nothing dies: the scan keeps every enemy,
/// decrements nothing and requests no explosion.
pub proof fn lemma_no_lasers_no_deaths(es: Seq<EnemyV>)
    ensures
        surviving_enemies(es, Seq::empty()) == es,
        doomed_count(es, Seq::empty()) == 0,
        boom_requests(es, Seq::empty()) == Seq::<ExplosionRequestV>::empty(),
    decreases es.len(),
{
    if es.len() > 0 {
        lemma_no_lasers_no_deaths(es.drop_last());
        assert(!enemy_doomed(es.last(), Seq::empty()));
        assert(es.drop_last().push(es.last()) =~= es);
    }
}

/// No more enemies die than exist.
pub proof fn lemma_doomed_count_bounds(es: Seq<EnemyV>, ls: Seq<LaserV>)
    ensures
        0 <= doomed_count(es, ls) <= es.len(),
    decreases es.len(),
{
    if es.len() > 0 {
        lemma_doomed_count_bounds(es.drop_last(), ls);
    }
}

/// Every destroyed enemy is gone and every survivor remains: survivors
/// plus the destroyed make up exactly the enemies scanned.
pub proof fn lemma_survivors_plus_doomed(es: Seq<EnemyV>, ls: Seq<LaserV>)
    ensures
        surviving_enemies(es, ls).len() + doomed_count(es, ls) == es.len(),
    decreases es.len(),
{
    if es.len() > 0 {
        lemma_survivors_plus_doomed(es.drop_last(), ls);
    }
}

/// Surviving enemies are a selection of the scanned ones, so whatever
/// held of every scanned enemy holds of every survivor.
pub proof fn lemma_surviving_enemies_wf(es: Seq<EnemyV>, ls: Seq<LaserV>, cfg: SimConfig)
    requires
        forall|j: int| 0 <= j < es.len() ==> enemy_wf(#[trigger] es[j], cfg),
    ensures
        forall|j: int|
            0 <= j < surviving_enemies(es, ls).len() ==> enemy_wf(
                #[trigger] surviving_enemies(es, ls)[j],
                cfg,
            ),
    decreases es.len(),
{
    if es.len() > 0 {
        assert(forall|j: int|
            0 <= j < es.drop_last().len() ==> enemy_wf(#[trigger] es.drop_last()[j], cfg));
        lemma_surviving_enemies_wf(es.drop_last(), ls, cfg);
        let rest = surviving_enemies(es.drop_last(), ls);
        if !enemy_doomed(es.last(), ls) {
            assert(enemy_wf(es.last(), cfg));
            assert(forall|j: int|
                0 <= j < rest.push(es.last()).len() ==> enemy_wf(
                    #[trigger] rest.push(es.last())[j],
                    cfg,
                ));
        }
    }
}

/// Surviving lasers are a selection of the scanned ones.
pub proof fn lemma_surviving_lasers_wf(ls: Seq<LaserV>, es: Seq<EnemyV>, cfg: SimConfig)
    requires
        forall|i: int| 0 <= i < ls.len() ==> laser_wf(#[trigger] ls[i], cfg),
    ensures
        forall|i: int|
            0 <= i < surviving_lasers(ls, es).len() ==> laser_wf(
                #[trigger] surviving_lasers(ls, es)[i],
                cfg,
            ),
    decreases ls.len(),
{
    if ls.len() > 0 {
        assert(forall|i: int|
            0 <= i < ls.drop_last().len() ==> laser_wf(#[trigger] ls.drop_last()[i], cfg));
        lemma_surviving_lasers_wf(ls.drop_last(), es, cfg);
        let rest = surviving_lasers(ls.drop_last(), es);
        if !laser_doomed(ls.last(), es) {
            assert(laser_wf(ls.last(), cfg));
            assert(forall|i: int|
                0 <= i < rest.push(ls.last()).len() ==> laser_wf(
                    #[trigger] rest.push(ls.last())[i],
                    cfg,
                ));
        }
    }
}

/// Requests are emitted at destroyed enemies' positions, which lay
/// inside the play area.
pub proof fn lemma_boom_requests_wf(es: Seq<EnemyV>, ls: Seq<LaserV>, cfg: SimConfig)
    requires
        forall|j: int| 0 <= j < es.len() ==> enemy_wf(#[trigger] es[j], cfg),
    ensures
        forall|j: int|
            0 <= j < boom_requests(es, ls).len() ==> request_wf(
                #[trigger] boom_requests(es, ls)[j],
                cfg,
            ),
    decreases es.len(),
{
    if es.len() > 0 {
        assert(forall|j: int|
            0 <= j < es.drop_last().len() ==> enemy_wf(#[trigger] es.drop_last()[j], cfg));
        lemma_boom_requests_wf(es.drop_last(), ls, cfg);
        let rest = boom_requests(es.drop_last(), ls);
        if enemy_doomed(es.last(), ls) {
            let r = ExplosionRequestV { x: es.last().x, y: es.last().y };
            assert(enemy_wf(es.last(), cfg));
            assert(forall|j: int|
                0 <= j < rest.push(r).len() ==> request_wf(#[trigger] rest.push(r)[j], cfg));
        }
    }
}

/// Destruction is certain: an enemy hit by any laser this tick is not
/// among the survivors, wherever it stood in the scan.
pub proof fn lemma_doomed_enemy_never_survives(es: Seq<EnemyV>, ls: Seq<LaserV>, e: EnemyV)
    requires
        enemy_doomed(e, ls),
    ensures
        !surviving_enemies(es, ls).contains(e),
    decreases es.len(),
{
    if es.len() > 0 {
        lemma_doomed_enemy_never_survives(es.drop_last(), ls, e);
        let rest = surviving_enemies(es.drop_last(), ls);
        if !enemy_doomed(es.last(), ls) {
            assert(es.last() != e);
            if rest.push(es.last()).contains(e) {
                let i = choose|i: int|
                    0 <= i < rest.push(es.last()).len() && rest.push(es.last())[i] == e;
                if i < rest.len() {
                    assert(rest.contains(e));
                }
                assert(false);
            }
        }
    }
}

/// Destruction is certain for lasers too: one that overlaps any enemy
/// this tick is not among the survivors.
pub proof fn lemma_doomed_laser_never_survives(ls: Seq<LaserV>, es: Seq<EnemyV>, l: LaserV)
    requires
        laser_doomed(l, es),
    ensures
        !surviving_lasers(ls, es).contains(l),
    decreases ls.len(),
{
    if ls.len() > 0 {
        lemma_doomed_laser_never_survives(ls.drop_last(), es, l);
        let rest = surviving_lasers(ls.drop_last(), es);
        if !laser_doomed(ls.last(), es) {
            assert(ls.last() != l);
            if rest.push(ls.last()).contains(l) {
                let i = choose|i: int|
                    0 <= i < rest.push(ls.last()).len() && rest.push(ls.last())[i] == l;
                if i < rest.len() {
                    assert(rest.contains(l));
                }
                assert(false);
            }
        }
    }
}

/// Whether this laser overlaps any live enemy.
fn laser_hits_some_enemy(l: &Laser, enemies: &Vec<Enemy>, cfg: &SimConfig) -> (r: bool)
    requires
        cfg.valid(),
        laser_wf(l@, *cfg),
        forall|j: int| 0 <= j < enemies@.len() ==> enemy_wf(#[trigger] enemies@[j]@, *cfg),
    ensures
        r == laser_doomed(l@, views(enemies@)),
{
    let ghost evs = views(enemies@);
    let mut j: usize = 0;
    while j < enemies.len()
        invariant
            j <= enemies.len(),
            evs == views(enemies@),
            evs.len() == enemies@.len(),
            cfg.valid(),
            laser_wf(l@, *cfg),
            forall|k: int| 0 <= k < enemies@.len() ==> enemy_wf(#[trigger] enemies@[k]@, *cfg),
            forall|k: int| 0 <= k < j ==> !hits(l@, #[trigger] evs[k]),
        decreases enemies@.len() - j,
    {
        let e = enemies[j];
        proof {
            assert(enemy_wf(enemies@[j as int]@, *cfg));
        }
        let w: i64 = (l.scale_x_milli as i64) * LASER_BOX_PER_MILLI;
        let h: i64 = (l.scale_y_milli as i64) * LASER_BOX_PER_MILLI;
        if boxes_overlap_at(l.x, l.y, w, h, e.x, e.y, 2 * e.half_w, 2 * e.half_h) {
            proof {
                assert(hits(l@, evs[j as int]));
            }
            return true;
        }
        j += 1;
    }
    false
}

/// Whether this enemy is overlapped by any live laser.
fn enemy_hit_by_some_laser(e: &Enemy, lasers: &Vec<Laser>, cfg: &SimConfig) -> (r: bool)
    requires
        cfg.valid(),
        enemy_wf(e@, *cfg),
        forall|i: int| 0 <= i < lasers@.len() ==> laser_wf(#[trigger] lasers@[i]@, *cfg),
    ensures
        r == enemy_doomed(e@, views(lasers@)),
{
    let ghost lvs = views(lasers@);
    let mut i: usize = 0;
    while i < lasers.len()
        invariant
            i <= lasers.len(),
            lvs == views(lasers@),
            lvs.len() == lasers@.len(),
            cfg.valid(),
            enemy_wf(e@, *cfg),
            forall|k: int| 0 <= k < lasers@.len() ==> laser_wf(#[trigger] lasers@[k]@, *cfg),
            forall|k: int| 0 <= k < i ==> !hits(#[trigger] lvs[k], e@),
        decreases lasers@.len() - i,
    {
        let l = lasers[i];
        proof {
            assert(laser_wf(lasers@[i as int]@, *cfg));
        }
        let w: i64 = (l.scale_x_milli as i64) * LASER_BOX_PER_MILLI;
        let h: i64 = (l.scale_y_milli as i64) * LASER_BOX_PER_MILLI;
        if boxes_overlap_at(l.x, l.y, w, h, e.x, e.y, 2 * e.half_w, 2 * e.half_h) {
            proof {
                assert(hits(lvs[i as int], e@));
            }
            return true;
        }
        i += 1;
    }
    false
}

/// The collision pass over one tick's state. Destruction is fully
/// deduplicated: each hit laser leaves once, each hit enemy leaves
/// once, decrements the counter once and files one explosion request.
/// The counter, equal to the live-enemy count on entry, equals it again
/// on exit and never passes below zero.
pub fn enemy_laser_collision(
    lasers: &mut Vec<Laser>,
    enemies: &mut Vec<Enemy>,
    requests: &mut Vec<ExplosionRequest>,
    active: &mut u8,
    cfg: &SimConfig,
)
    requires
        cfg.valid(),
        *old(active) as int == old(enemies)@.len(),
        old(enemies)@.len() <= ENEMY_CAP,
        forall|i: int| 0 <= i < old(lasers)@.len() ==> laser_wf(#[trigger] old(lasers)@[i]@, *cfg),
        forall|j: int| 0 <= j < old(enemies)@.len() ==> enemy_wf(#[trigger] old(enemies)@[j]@, *cfg),
        forall|k: int|
            0 <= k < old(requests)@.len() ==> request_wf(#[trigger] old(requests)@[k]@, *cfg),
    ensures
        views(final(lasers)@) == surviving_lasers(views(old(lasers)@), views(old(enemies)@)),
        views(final(enemies)@) == surviving_enemies(views(old(enemies)@), views(old(lasers)@)),
        *final(active) as int == *old(active) as int - doomed_count(
            views(old(enemies)@),
            views(old(lasers)@),
        ),
        views(final(requests)@) == views(old(requests)@) + boom_requests(
            views(old(enemies)@),
            views(old(lasers)@),
        ),
        *final(active) as int == final(enemies)@.len(),
        forall|k: int|
            0 <= k < final(requests)@.len() ==> request_wf(#[trigger] final(requests)@[k]@, *cfg),
{
    let ghost lvs = views(lasers@);
    let ghost evs = views(enemies@);
    let ghost rvs0 = views(requests@);
    let ghost active0 = *active as int;

    let mut kept_lasers: Vec<Laser> = Vec::new();
    let mut i: usize = 0;
    while i < lasers.len()
        invariant
            i <= lasers.len(),
            lvs == views(lasers@),
            lvs.len() == lasers@.len(),
            evs == views(enemies@),
            cfg.valid(),
            forall|k: int| 0 <= k < lasers@.len() ==> laser_wf(#[trigger] lasers@[k]@, *cfg),
            forall|k: int| 0 <= k < enemies@.len() ==> enemy_wf(#[trigger] enemies@[k]@, *cfg),
            views(kept_lasers@) == surviving_lasers(lvs.take(i as int), evs),
        decreases lasers@.len() - i,
    {
        let l = lasers[i];
        proof {
            assert(laser_wf(lasers@[i as int]@, *cfg));
            assert(lvs.take(i + 1).drop_last() =~= lvs.take(i as int));
            assert(lvs.take(i + 1).last() == l@);
        }
        if !laser_hits_some_enemy(&l, enemies, cfg) {
            proof {
                lemma_views_push(kept_lasers@, l);
            }
            kept_lasers.push(l);
        }
        i += 1;
    }
    proof {
        assert(lvs.take(lasers@.len() as int) =~= lvs);
    }

    let mut kept_enemies: Vec<Enemy> = Vec::new();
    let mut j: usize = 0;
    while j < enemies.len()
        invariant
            j <= enemies.len(),
            lvs == views(lasers@),
            evs == views(enemies@),
            evs.len() == enemies@.len(),
            cfg.valid(),
            forall|k: int| 0 <= k < lasers@.len() ==> laser_wf(#[trigger] lasers@[k]@, *cfg),
            forall|k: int| 0 <= k < enemies@.len() ==> enemy_wf(#[trigger] enemies@[k]@, *cfg),
            active0 == enemies@.len(),
            enemies@.len() <= ENEMY_CAP,
            views(kept_enemies@) == surviving_enemies(evs.take(j as int), lvs),
            *active as int == active0 - doomed_count(evs.take(j as int), lvs),
            views(requests@) == rvs0 + boom_requests(evs.take(j as int), lvs),
            forall|k: int| 0 <= k < requests@.len() ==> request_wf(#[trigger] requests@[k]@, *cfg),
        decreases enemies@.len() - j,
    {
        let e = enemies[j];
        proof {
            assert(enemy_wf(enemies@[j as int]@, *cfg));
            assert(evs.take(j + 1).drop_last() =~= evs.take(j as int));
            assert(evs.take(j + 1).last() == e@);
            lemma_doomed_count_bounds(evs.take(j as int), lvs);
        }
        if enemy_hit_by_some_laser(&e, lasers, cfg) {
            *active = *active - 1;
            let r = ExplosionRequest { x: e.x, y: e.y };
            proof {
                assert(request_wf(r@, *cfg));
                lemma_views_push(requests@, r);
                assert(views(requests@).push(r@) =~= rvs0 + boom_requests(evs.take(j + 1), lvs));
            }
            requests.push(r);
        } else {
            proof {
                lemma_views_push(kept_enemies@, e);
            }
            kept_enemies.push(e);
        }
        j += 1;
    }
    proof {
        assert(evs.take(enemies@.len() as int) =~= evs);
        lemma_survivors_plus_doomed(evs, lvs);
    }
    *lasers = kept_lasers;
    *enemies = kept_enemies;
}

/// A laser whose box exactly contains an enemy's box hits it, so the
/// same tick destroys both, and the counter falls by exactly one.
pub proof fn lemma_containment_kills_both(l: LaserV, e: EnemyV)
    requires
        0 < 2 * e.half_w <= laser_box_w(l),
        0 < 2 * e.half_h <= laser_box_h(l),
        2 * (e.x - l.x) <= laser_box_w(l) - 2 * e.half_w,
        2 * (l.x - e.x) <= laser_box_w(l) - 2 * e.half_w,
        2 * (e.y - l.y) <= laser_box_h(l) - 2 * e.half_h,
        2 * (l.y - e.y) <= laser_box_h(l) - 2 * e.half_h,
    ensures
        hits(l, e),
        surviving_lasers(seq![l], seq![e]) == Seq::<LaserV>::empty(),
        surviving_enemies(seq![e], seq![l]) == Seq::<EnemyV>::empty(),
        doomed_count(seq![e], seq![l]) == 1,
{
    lemma_containment_implies_overlap(
        l.x,
        l.y,
        laser_box_w(l),
        laser_box_h(l),
        e.x,
        e.y,
        2 * e.half_w,
        2 * e.half_h,
    );
    assert(seq![l].drop_last() =~= Seq::<LaserV>::empty());
    assert(seq![e].drop_last() =~= Seq::<EnemyV>::empty());
    assert(seq![e][0] == e);
    assert(seq![l][0] == l);
    assert(laser_doomed(l, seq![e]));
    assert(enemy_doomed(e, seq![l]));
    assert(surviving_lasers(Seq::<LaserV>::empty(), seq![e]) == Seq::<LaserV>::empty());
    assert(surviving_enemies(Seq::<EnemyV>::empty(), seq![l]) == Seq::<EnemyV>::empty());
    assert(doomed_count(Seq::<EnemyV>::empty(), seq![l]) == 0);
}

/// Two lasers overlapping one enemy in the same tick: the counter falls
/// by exactly one — not two — and both lasers are destroyed.
pub proof fn lemma_two_lasers_one_enemy(l1: LaserV, l2: LaserV, e: EnemyV)
    requires
        hits(l1, e),
        hits(l2, e),
    ensures
        surviving_lasers(seq![l1, l2], seq![e]) == Seq::<LaserV>::empty(),
        surviving_enemies(seq![e], seq![l1, l2]) == Seq::<EnemyV>::empty(),
        doomed_count(seq![e], seq![l1, l2]) == 1,
{
    assert(seq![e][0] == e);
    assert(seq![l1, l2][0] == l1);
    assert(seq![l1, l2][1] == l2);
    assert(laser_doomed(l1, seq![e]));
    assert(laser_doomed(l2, seq![e]));
    assert(enemy_doomed(e, seq![l1, l2]));
    assert(seq![l1, l2].drop_last() =~= seq![l1]);
    assert(seq![l1].drop_last() =~= Seq::<LaserV>::empty());
    assert(seq![e].drop_last() =~= Seq::<EnemyV>::empty());
    assert(seq![l1].last() == l1);
    assert(surviving_lasers(Seq::<LaserV>::empty(), seq![e]) == Seq::<LaserV>::empty());
    assert(surviving_lasers(seq![l1], seq![e]) == Seq::<LaserV>::empty());
    assert(surviving_enemies(Seq::<EnemyV>::empty(), seq![l1, l2]) == Seq::<EnemyV>::empty());
    assert(doomed_count(Seq::<EnemyV>::empty(), seq![l1, l2]) == 0);
}

} // verus!
