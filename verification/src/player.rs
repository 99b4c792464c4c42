//! The player actor: horizontal-only movement with a hard stop at the
//! play-area edge, and an edge-triggered fire action that spawns a pair
//! of lasers from the two guns.
use vstd::prelude::*;
use crate::SimConfig;
use crate::MoveDir;
use crate::ACTOR_SPEED;
use crate::GUN_X_OFFSET;
use crate::GUN_Y_OFFSET;
use crate::LASER_SCALE_X_MILLI;
use crate::LASER_SCALE_Y_MILLI;
use crate::PLAYER_HALF_WIDTH;
use crate::PLAYER_Y_INSET;
use crate::geom::iabs;
use crate::laser::Laser;
use crate::laser::LaserV;
use crate::laser::laser_wf;
use crate::views;
use crate::lemma_views_push;

verus! {

/// The player: centre position in fine units, speed in units per second,
/// and the fire-readiness gate that blocks continuous fire while the
/// fire key is held.
#[derive(Clone, Copy)]
pub struct Player {
    pub x: i64,
    pub y: i64,
    pub speed: u32,
    pub can_fire: bool,
}

/// Mathematical model of the player.
pub struct PlayerV {
    pub x: int,
    pub y: int,
    pub speed: int,
    pub can_fire: bool,
}

impl View for Player {
    type V = PlayerV;

    open spec fn view(&self) -> PlayerV {
        PlayerV {
            x: self.x as int,
            y: self.y as int,
            speed: self.speed as int,
            can_fire: self.can_fire,
        }
    }
}

/// A player the simulation keeps: its whole sprite strictly inside the
/// play-area half-width, resting at its fixed height above the lower
/// edge, with a positive bounded speed.
pub open spec fn player_wf(p: PlayerV, cfg: SimConfig) -> bool {
    &&& iabs(p.x) < cfg.half_width - PLAYER_HALF_WIDTH
    &&& p.y == -cfg.half_height + PLAYER_Y_INSET
    &&& 0 < p.speed <= 100_000
}

/// The player the session starts with: centred horizontally, at its
/// fixed height, at the default actor speed, ready to fire.
pub open spec fn spawned_player(cfg: SimConfig) -> PlayerV {
    PlayerV { x: 0, y: -cfg.half_height + PLAYER_Y_INSET, speed: ACTOR_SPEED as int, can_fire: true }
}

impl Player {
    /// Create the player for a session. The player is created once and
    /// never destroyed.
    pub fn new(cfg: &SimConfig) -> (p: Player)
        requires
            cfg.valid(),
        ensures
            p@ == spawned_player(*cfg),
            player_wf(p@, *cfg),
    {
        Player { x: 0, y: -cfg.half_height + PLAYER_Y_INSET, speed: ACTOR_SPEED, can_fire: true }
    }
}

/// One movement tick: the candidate position adds intent times speed
/// times the 1/60 s tick; it is committed only if the whole sprite stays
/// strictly inside the half-width, else the move is rejected outright (a
/// hard stop, never a partial move). Height is fixed.
pub open spec fn player_moved(p: PlayerV, dir: int, half_width: int) -> PlayerV {
    let cand = p.x + dir * p.speed * 1000;
    if iabs(cand) < half_width - PLAYER_HALF_WIDTH {
        PlayerV { x: cand, ..p }
    } else {
        p
    }
}

/// Movement pass for the player.
pub fn player_movement(p: &mut Player, dir: MoveDir, cfg: &SimConfig)
    requires
        cfg.valid(),
        player_wf(old(p)@, *cfg),
    ensures
        final(p)@ == player_moved(old(p)@, dir.delta(), cfg.half_width as int),
        player_wf(final(p)@, *cfg),
{
    let delta: i64 = match dir {
        MoveDir::Left => -1,
        MoveDir::Still => 0,
        MoveDir::Right => 1,
    };
    let cand: i64 = p.x + delta * (p.speed as i64) * 1000;
    let mag: i64 = if cand >= 0 {
        cand
    } else {
        -cand
    };
    if mag < cfg.half_width - PLAYER_HALF_WIDTH {
        p.x = cand;
    }
}

/// Wherever the sprite fits before a movement tick, it fits after: the
/// edge check rejects every candidate that would leave the area, for
/// any intent magnitude whatsoever.
pub proof fn lemma_player_stays_inside(p: PlayerV, dir: int, half_width: int)
    requires
        iabs(p.x) < half_width - PLAYER_HALF_WIDTH,
    ensures
        iabs(player_moved(p, dir, half_width).x) < half_width - PLAYER_HALF_WIDTH,
{
}

/// The laser one gun fires: offset horizontally from the player's
/// centre, slightly above it, at the fixed laser scale and the default
/// actor speed.
pub open spec fn fired_laser(p: PlayerV, offset: int) -> LaserV {
    LaserV {
        x: p.x + offset,
        y: p.y + GUN_Y_OFFSET,
        scale_x: LASER_SCALE_X_MILLI as int,
        scale_y: LASER_SCALE_Y_MILLI as int,
        speed: ACTOR_SPEED as int,
    }
}

/// The fire action. If the player is ready and the key is down, both
/// guns fire (right gun first) and readiness goes false; readiness
/// returns only on a release edge afterwards, so holding the key yields
/// one volley per press.
pub open spec fn player_shot(p: PlayerV, lasers: Seq<LaserV>, pressed: bool, released: bool) -> (
    PlayerV,
    Seq<LaserV>,
) {
    let fired = p.can_fire && pressed;
    let ls = if fired {
        lasers.push(fired_laser(p, GUN_X_OFFSET as int)).push(fired_laser(p, -(GUN_X_OFFSET as int)))
    } else {
        lasers
    };
    let ready = if fired {
        false
    } else {
        p.can_fire
    };
    let ready2 = if released && !ready {
        true
    } else {
        ready
    };
    (PlayerV { can_fire: ready2, ..p }, ls)
}

/// Fire pass for the player: may append two lasers and always settles
/// the fire-readiness gate from the key's edge signals.
pub fn player_shoot(
    p: &mut Player,
    lasers: &mut Vec<Laser>,
    pressed: bool,
    released: bool,
    cfg: &SimConfig,
)
    requires
        cfg.valid(),
        player_wf(old(p)@, *cfg),
    ensures
        final(p)@ == player_shot(old(p)@, views(old(lasers)@), pressed, released).0,
        views(final(lasers)@) == player_shot(old(p)@, views(old(lasers)@), pressed, released).1,
        player_wf(final(p)@, *cfg),
{
    if p.can_fire && pressed {
        let right = Laser {
            x: p.x + GUN_X_OFFSET,
            y: p.y + GUN_Y_OFFSET,
            scale_x_milli: LASER_SCALE_X_MILLI,
            scale_y_milli: LASER_SCALE_Y_MILLI,
            speed: ACTOR_SPEED,
        };
        let left = Laser { x: p.x - GUN_X_OFFSET, ..right };
        proof {
            lemma_views_push(lasers@, right);
            lemma_views_push(lasers@.push(right), left);
        }
        lasers.push(right);
        lasers.push(left);
        p.can_fire = false;
    }
    if released && !p.can_fire {
        p.can_fire = true;
    }
}

/// What a gun fires is a well-formed laser: it starts inside the play
/// area, near the player, well under the height bound.
pub proof fn lemma_fired_laser_wf(p: PlayerV, cfg: SimConfig)
    requires
        cfg.valid(),
        player_wf(p, cfg),
    ensures
        laser_wf(fired_laser(p, GUN_X_OFFSET as int), cfg),
        laser_wf(fired_laser(p, -(GUN_X_OFFSET as int)), cfg),
{
}

} // verus!
