//! Lasers: upward-travelling projectiles. Each tick every laser climbs by
//! its speed; one that would pass the play-area height is destroyed
//! instead of being moved.
use vstd::prelude::*;
use crate::SimConfig;
use crate::geom::iabs;
use crate::views;
use crate::lemma_views_push;

verus! {

/// A live laser: centre position in fine units, per-axis transform scale
/// in thousandths (the collision box is scale times a 32-unit base), and
/// speed in units per second.
#[derive(Clone, Copy)]
pub struct Laser {
    pub x: i64,
    pub y: i64,
    pub scale_x_milli: u32,
    pub scale_y_milli: u32,
    pub speed: u32,
}

/// Mathematical model of a laser.
pub struct LaserV {
    pub x: int,
    pub y: int,
    pub scale_x: int,
    pub scale_y: int,
    pub speed: int,
}

impl View for Laser {
    type V = LaserV;

    open spec fn view(&self) -> LaserV {
        LaserV {
            x: self.x as int,
            y: self.y as int,
            scale_x: self.scale_x_milli as int,
            scale_y: self.scale_y_milli as int,
            speed: self.speed as int,
        }
    }
}

/// A laser the simulation keeps: inside the play area horizontally, no
/// higher than the full play-area height above centre, with positive
/// bounded scales and speed.
pub open spec fn laser_wf(l: LaserV, cfg: SimConfig) -> bool {
    &&& iabs(l.x) < cfg.half_width
    &&& -cfg.half_height <= l.y <= 2 * cfg.half_height
    &&& 0 < l.scale_x <= 1_000
    &&& 0 < l.scale_y <= 1_000
    &&& 0 < l.speed <= 100_000
}

/// One tick of linear motion: the laser climbs by speed times the 1/60 s
/// tick, which is exactly `speed * 1000` fine units.
pub open spec fn laser_advanced(l: LaserV) -> LaserV {
    LaserV { y: l.y + l.speed * 1000, ..l }
}

/// The whole movement pass: every laser advances; one whose new height
/// would exceed `height` (the full play-area height) is dropped instead.
/// Order among survivors is kept.
pub open spec fn lasers_advanced(ls: Seq<LaserV>, height: int) -> Seq<LaserV>
    decreases ls.len(),
{
    if ls.len() == 0 {
        Seq::empty()
    } else {
        let rest = lasers_advanced(ls.drop_last(), height);
        let moved = laser_advanced(ls.last());
        if moved.y > height {
            rest
        } else {
            rest.push(moved)
        }
    }
}

/// Movement pass over the live lasers. Destroying at the upper bound is
/// the laser's terminal condition, not an error.
pub fn laser_movement(lasers: &mut Vec<Laser>, cfg: &SimConfig)
    requires
        cfg.valid(),
        forall|i: int|
            0 <= i < old(lasers)@.len() ==> laser_wf(#[trigger] old(lasers)@[i]@, *cfg),
    ensures
        views(final(lasers)@) == lasers_advanced(views(old(lasers)@), 2 * cfg.half_height),
        forall|i: int|
            0 <= i < final(lasers)@.len() ==> laser_wf(#[trigger] final(lasers)@[i]@, *cfg),
{
    let ghost vs = views(lasers@);
    let height: i64 = 2 * cfg.half_height;
    let mut kept: Vec<Laser> = Vec::new();
    let mut i: usize = 0;
    while i < lasers.len()
        invariant
            i <= lasers.len(),
            lasers@.len() == vs.len(),
            vs == views(lasers@),
            height == 2 * cfg.half_height,
            cfg.valid(),
            forall|k: int| 0 <= k < lasers@.len() ==> laser_wf(#[trigger] lasers@[k]@, *cfg),
            views(kept@) == lasers_advanced(vs.take(i as int), height as int),
            forall|k: int| 0 <= k < kept@.len() ==> laser_wf(#[trigger] kept@[k]@, *cfg),
        decreases lasers@.len() - i,
    {
        let l = lasers[i];
        proof {
            assert(laser_wf(lasers@[i as int]@, *cfg));
        }
        let ny: i64 = l.y + (l.speed as i64) * 1000;
        proof {
            assert(vs.take(i + 1).drop_last() =~= vs.take(i as int));
            assert(vs.take(i + 1).last() == l@);
        }
        if ny <= height {
            let moved = Laser { y: ny, ..l };
            proof {
                lemma_views_push(kept@, moved);
                assert(moved@ == laser_advanced(l@));
                assert(laser_wf(moved@, *cfg));
            }
            kept.push(moved);
        }
        i += 1;
    }
    proof {
        assert(vs.take(lasers@.len() as int) =~= vs);
    }
    *lasers = kept;
}

/// Advancing preserves well-formedness: a survivor's new height is at
/// most the bound it was tested against and no lower than before.
pub proof fn lemma_lasers_advanced_wf(ls: Seq<LaserV>, cfg: SimConfig)
    requires
        forall|i: int| 0 <= i < ls.len() ==> laser_wf(#[trigger] ls[i], cfg),
    ensures
        forall|i: int|
            0 <= i < lasers_advanced(ls, 2 * cfg.half_height).len() ==> laser_wf(
                #[trigger] lasers_advanced(ls, 2 * cfg.half_height)[i],
                cfg,
            ),
    decreases ls.len(),
{
    if ls.len() > 0 {
        assert(forall|i: int|
            0 <= i < ls.drop_last().len() ==> laser_wf(#[trigger] ls.drop_last()[i], cfg));
        lemma_lasers_advanced_wf(ls.drop_last(), cfg);
        assert(laser_wf(ls.last(), cfg));
        let rest = lasers_advanced(ls.drop_last(), 2 * cfg.half_height);
        let moved = laser_advanced(ls.last());
        if moved.y <= 2 * cfg.half_height {
            assert(laser_wf(moved, cfg));
            assert forall|i: int|
                0 <= i < rest.push(moved).len() implies laser_wf(
                #[trigger] rest.push(moved)[i],
                cfg,
            ) by {
                if i < rest.len() {
                } else {
                    assert(rest.push(moved)[i] == moved);
                }
            }
        }
    }
}

/// A laser already past the play-area height is destroyed by the next
/// movement pass, whatever else is in the world: the pass looks only at
/// the laser's own height.
pub proof fn lemma_high_laser_removed(l: LaserV, height: int)
    requires
        l.y > height,
        l.speed >= 0,
    ensures
        lasers_advanced(seq![l], height) == Seq::<LaserV>::empty(),
{
    assert(seq![l].drop_last() =~= Seq::<LaserV>::empty());
    assert(lasers_advanced(Seq::<LaserV>::empty(), height) == Seq::<LaserV>::empty());
    assert(laser_advanced(l).y > height);
}

} // verus!
