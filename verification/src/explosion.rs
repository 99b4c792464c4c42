//! Explosions: a destruction event becomes a request carrying the dead
//! enemy's position; a request becomes a timed animation entity that
//! advances one frame every three ticks and destroys itself exactly when
//! the sprite sheet runs out.
use vstd::prelude::*;
use crate::SimConfig;
use crate::EXPLOSION_FRAME_TICKS;
use crate::geom::iabs;
use crate::views;
use crate::lemma_views_push;

verus! {

/// A pending explosion-spawn request: the position a destroyed enemy
/// last held, in fine units.
#[derive(Clone, Copy)]
pub struct ExplosionRequest {
    pub x: i64,
    pub y: i64,
}

/// Mathematical model of a request.
pub struct ExplosionRequestV {
    pub x: int,
    pub y: int,
}

impl View for ExplosionRequest {
    type V = ExplosionRequestV;

    open spec fn view(&self) -> ExplosionRequestV {
        ExplosionRequestV { x: self.x as int, y: self.y as int }
    }
}

/// A live explosion: its fixed position, how many ticks it has lived,
/// and the frame count of its sprite sheet. The frame on show is
/// `age / 3`; the entity dies the moment that index would reach the
/// frame count.
#[derive(Clone, Copy)]
pub struct Explosion {
    pub x: i64,
    pub y: i64,
    pub age: u32,
    pub frames: u32,
}

/// Mathematical model of an explosion.
pub struct ExplosionV {
    pub x: int,
    pub y: int,
    pub age: int,
    pub frames: int,
}

impl View for Explosion {
    type V = ExplosionV;

    open spec fn view(&self) -> ExplosionV {
        ExplosionV {
            x: self.x as int,
            y: self.y as int,
            age: self.age as int,
            frames: self.frames as int,
        }
    }
}

/// A request the simulation keeps: it points inside the play area.
pub open spec fn request_wf(r: ExplosionRequestV, cfg: SimConfig) -> bool {
    &&& iabs(r.x) < cfg.half_width
    &&& iabs(r.y) < cfg.half_height
}

/// An explosion the simulation keeps: inside the play area, on the
/// session's sprite sheet, and strictly younger than its full lifetime
/// of three ticks per frame.
pub open spec fn explosion_wf(b: ExplosionV, cfg: SimConfig) -> bool {
    &&& iabs(b.x) < cfg.half_width
    &&& iabs(b.y) < cfg.half_height
    &&& b.frames == cfg.explosion_frames
    &&& 0 <= b.age < EXPLOSION_FRAME_TICKS * b.frames
}

/// The explosion a request turns into: same position, age zero.
pub open spec fn fresh_explosion(r: ExplosionRequestV, frames: int) -> ExplosionV {
    ExplosionV { x: r.x, y: r.y, age: 0, frames }
}

/// All pending requests turned into fresh explosions, in order.
pub open spec fn explosions_spawned(reqs: Seq<ExplosionRequestV>, frames: int) -> Seq<ExplosionV> {
    Seq::new(reqs.len(), |i: int| fresh_explosion(reqs[i], frames))
}

/// One animation tick over a sequence of explosions: every explosion
/// ages by one tick; one whose age reaches its full lifetime (frame
/// count times three ticks) is destroyed at that very tick. Order among
/// survivors is kept.
pub open spec fn animated(bs: Seq<ExplosionV>) -> Seq<ExplosionV>
    decreases bs.len(),
{
    if bs.len() == 0 {
        Seq::empty()
    } else {
        let rest = animated(bs.drop_last());
        let b = bs.last();
        if b.age + 1 < EXPLOSION_FRAME_TICKS * b.frames {
            rest.push(ExplosionV { age: b.age + 1, ..b })
        } else {
            rest
        }
    }
}

/// How one animation tick treats a single explosion.
pub proof fn lemma_animated_singleton(b: ExplosionV)
    ensures
        b.age + 1 < EXPLOSION_FRAME_TICKS * b.frames ==> animated(seq![b]) == seq![
            ExplosionV { age: b.age + 1, ..b },
        ],
        b.age + 1 >= EXPLOSION_FRAME_TICKS * b.frames ==> animated(seq![b]) == Seq::<
            ExplosionV,
        >::empty(),
{
    assert(seq![b].drop_last() =~= Seq::<ExplosionV>::empty());
    assert(animated(Seq::<ExplosionV>::empty()) == Seq::<ExplosionV>::empty());
    if b.age + 1 < EXPLOSION_FRAME_TICKS * b.frames {
        assert(Seq::<ExplosionV>::empty().push(ExplosionV { age: b.age + 1, ..b }) =~= seq![
            ExplosionV { age: b.age + 1, ..b },
        ]);
    }
}

/// Ageing preserves well-formedness: a survivor's new age stays under
/// its lifetime, and nothing else changes.
pub proof fn lemma_animated_wf(bs: Seq<ExplosionV>, cfg: SimConfig)
    requires
        forall|i: int| 0 <= i < bs.len() ==> explosion_wf(#[trigger] bs[i], cfg),
    ensures
        forall|i: int|
            0 <= i < animated(bs).len() ==> explosion_wf(#[trigger] animated(bs)[i], cfg),
    decreases bs.len(),
{
    if bs.len() > 0 {
        assert(forall|i: int|
            0 <= i < bs.drop_last().len() ==> explosion_wf(#[trigger] bs.drop_last()[i], cfg));
        lemma_animated_wf(bs.drop_last(), cfg);
        let rest = animated(bs.drop_last());
        let b = bs.last();
        assert(explosion_wf(b, cfg));
        if b.age + 1 < EXPLOSION_FRAME_TICKS * b.frames {
            let aged = ExplosionV { age: b.age + 1, ..b };
            assert(explosion_wf(aged, cfg));
            assert(forall|i: int|
                0 <= i < rest.push(aged).len() ==> explosion_wf(#[trigger] rest.push(aged)[i], cfg));
        }
    }
}

/// The animation transform applied `k` times.
pub open spec fn animated_times(bs: Seq<ExplosionV>, k: nat) -> Seq<ExplosionV>
    decreases k,
{
    if k == 0 {
        bs
    } else {
        animated(animated_times(bs, (k - 1) as nat))
    }
}

/// The one-shot, forward-only lifetime law: an explosion born with age
/// zero is still alive, aged exactly `k`, after any `k` ticks short of
/// three per frame, and is destroyed at exactly tick
/// `frames * 3` — never earlier and never later.
pub proof fn lemma_explosion_lifetime(b: ExplosionV, k: nat)
    requires
        b.age == 0,
        b.frames >= 1,
    ensures
        k < EXPLOSION_FRAME_TICKS * b.frames ==> animated_times(seq![b], k) == seq![
            ExplosionV { age: k as int, ..b },
        ],
        k >= EXPLOSION_FRAME_TICKS * b.frames ==> animated_times(seq![b], k) == Seq::<
            ExplosionV,
        >::empty(),
    decreases k,
{
    if k == 0 {
        assert(ExplosionV { age: 0, ..b } == b);
    } else {
        let prev = (k - 1) as nat;
        lemma_explosion_lifetime(b, prev);
        if prev < EXPLOSION_FRAME_TICKS * b.frames {
            let aged = ExplosionV { age: prev as int, ..b };
            lemma_animated_singleton(aged);
            if k < EXPLOSION_FRAME_TICKS * b.frames {
                assert(animated_times(seq![b], k) == seq![ExplosionV { age: k as int, ..b }]);
            }
        } else {
            assert(animated(Seq::<ExplosionV>::empty()) == Seq::<ExplosionV>::empty());
        }
    }
}

/// Drain every pending request into a fresh explosion entity.
pub fn spawn_explosions(
    explosions: &mut Vec<Explosion>,
    requests: &mut Vec<ExplosionRequest>,
    cfg: &SimConfig,
)
    requires
        cfg.valid(),
        forall|i: int|
            0 <= i < old(requests)@.len() ==> request_wf(#[trigger] old(requests)@[i]@, *cfg),
        forall|i: int|
            0 <= i < old(explosions)@.len() ==> explosion_wf(#[trigger] old(explosions)@[i]@, *cfg),
    ensures
        views(final(explosions)@) == views(old(explosions)@) + explosions_spawned(
            views(old(requests)@),
            cfg.explosion_frames as int,
        ),
        final(requests)@.len() == 0,
        forall|i: int|
            0 <= i < final(explosions)@.len() ==> explosion_wf(
                #[trigger] final(explosions)@[i]@,
                *cfg,
            ),
{
    let ghost rvs = views(requests@);
    let ghost evs0 = views(explosions@);
    let mut i: usize = 0;
    while i < requests.len()
        invariant
            i <= requests.len(),
            rvs == views(requests@),
            rvs.len() == requests@.len(),
            cfg.valid(),
            forall|k: int| 0 <= k < requests@.len() ==> request_wf(#[trigger] requests@[k]@, *cfg),
            views(explosions@) == evs0 + explosions_spawned(
                rvs.take(i as int),
                cfg.explosion_frames as int,
            ),
            forall|k: int|
                0 <= k < explosions@.len() ==> explosion_wf(#[trigger] explosions@[k]@, *cfg),
        decreases requests@.len() - i,
    {
        let r = requests[i];
        let fresh = Explosion { x: r.x, y: r.y, age: 0, frames: cfg.explosion_frames };
        proof {
            assert(request_wf(requests@[i as int]@, *cfg));
            assert(explosion_wf(fresh@, *cfg));
            lemma_views_push(explosions@, fresh);
            assert(views(explosions@).push(fresh@) =~= evs0 + explosions_spawned(
                rvs.take(i + 1),
                cfg.explosion_frames as int,
            ));
        }
        explosions.push(fresh);
        i += 1;
    }
    proof {
        assert(rvs.take(requests@.len() as int) =~= rvs);
    }
    requests.clear();
}

/// Animation pass over the live explosions.
pub fn animate_explosions(explosions: &mut Vec<Explosion>, cfg: &SimConfig)
    requires
        cfg.valid(),
        forall|i: int|
            0 <= i < old(explosions)@.len() ==> explosion_wf(#[trigger] old(explosions)@[i]@, *cfg),
    ensures
        views(final(explosions)@) == animated(views(old(explosions)@)),
        forall|i: int|
            0 <= i < final(explosions)@.len() ==> explosion_wf(
                #[trigger] final(explosions)@[i]@,
                *cfg,
            ),
{
    let ghost vs = views(explosions@);
    let mut kept: Vec<Explosion> = Vec::new();
    let mut i: usize = 0;
    while i < explosions.len()
        invariant
            i <= explosions.len(),
            vs == views(explosions@),
            vs.len() == explosions@.len(),
            cfg.valid(),
            forall|k: int|
                0 <= k < explosions@.len() ==> explosion_wf(#[trigger] explosions@[k]@, *cfg),
            views(kept@) == animated(vs.take(i as int)),
            forall|k: int| 0 <= k < kept@.len() ==> explosion_wf(#[trigger] kept@[k]@, *cfg),
        decreases explosions@.len() - i,
    {
        let b = explosions[i];
        proof {
            assert(explosion_wf(explosions@[i as int]@, *cfg));
            assert(vs.take(i + 1).drop_last() =~= vs.take(i as int));
            assert(vs.take(i + 1).last() == b@);
        }
        let lifetime: u32 = EXPLOSION_FRAME_TICKS * b.frames;
        if b.age + 1 < lifetime {
            let aged = Explosion { age: b.age + 1, ..b };
            proof {
                lemma_views_push(kept@, aged);
                assert(aged@ == ExplosionV { age: b@.age + 1, ..b@ });
            }
            kept.push(aged);
        }
        i += 1;
    }
    proof {
        assert(vs.take(explosions@.len() as int) =~= vs);
    }
    *explosions = kept;
}

impl Explosion {
    /// The sprite-sheet frame this explosion currently shows: one frame
    /// for every three ticks lived. Always short of the frame count
    /// while the entity is alive.
    pub fn frame_index(&self, cfg: &SimConfig) -> (r: u32)
        requires
            explosion_wf(self@, *cfg),
        ensures
            r as int == self@.age / (EXPLOSION_FRAME_TICKS as int),
            (r as int) < self@.frames,
    {
        self.age / EXPLOSION_FRAME_TICKS
    }
}

} // verus!
