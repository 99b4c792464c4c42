//! Core logic of a small fixed-timestep arcade simulation: a player actor,
//! roaming enemies spawned under a population cap, upward-travelling lasers,
//! axis-aligned collision with deduplicated destruction, and a timer-driven
//! explosion animation.
//!
//! All coordinates are integers in "fine units": one render unit is split
//! into 60_000 fine units, so that one tick's motion (a speed in units per
//! second over a 1/60 s tick) and milli-scaled headings are exact integers.
//! Randomness enters only through [`rng::GameRng`]; every function that
//! consumes a random value states what holds of every outcome.
use vstd::prelude::*;

pub mod geom;
pub mod rng;
pub mod player;
pub mod laser;
pub mod enemy;
pub mod explosion;
pub mod collision;
pub mod sim;

verus! {

/// Fine units per render unit: milli precision (1000) times the 60 ticks
/// that make up one second, so a speed of `s` units/second advances a
/// position by exactly `s * 1000` fine units each tick.
pub const FINE_PER_UNIT: i64 = 60_000;

/// Logical simulation rate: ticks per second.
pub const TICKS_PER_SECOND: u64 = 60;

/// Default speed of the player and of its lasers, in units per second.
pub const ACTOR_SPEED: u32 = 500;

/// Speed of an enemy, in units per second.
pub const ENEMY_SPEED: u32 = 200;

/// Half of the player sprite's width (32 render units), in fine units.
pub const PLAYER_HALF_WIDTH: i64 = 1_920_000;

/// The player sits this far above the lower edge of the play area:
/// half its sprite (32 units) plus 5 units of padding, in fine units.
pub const PLAYER_Y_INSET: i64 = 2_220_000;

/// Horizontal offset of each gun from the player's centre (20 units).
pub const GUN_X_OFFSET: i64 = 1_200_000;

/// Vertical offset of a fired laser above the player's centre (6 units).
pub const GUN_Y_OFFSET: i64 = 360_000;

/// Horizontal scale of a laser's transform, in thousandths (0.4).
pub const LASER_SCALE_X_MILLI: u32 = 400;

/// Vertical scale of a laser's transform, in thousandths (0.5).
pub const LASER_SCALE_Y_MILLI: u32 = 500;

/// A laser's collision box is its scale times a 32-unit base square.
/// One thousandth of scale contributes 32 * 60_000 / 1000 fine units.
pub const LASER_BOX_PER_MILLI: i64 = 1_920;

/// Half of an enemy's fixed collision width (16 units), in fine units.
pub const ENEMY_HALF_WIDTH: i64 = 960_000;

/// Half of an enemy's fixed collision height (16 units), in fine units.
pub const ENEMY_HALF_HEIGHT: i64 = 960_000;

/// Most enemies allowed to be alive at once.
pub const ENEMY_CAP: u8 = 5;

/// A freshly spawned enemy's heading is drawn in [-1, 1] per axis,
/// stored in thousandths.
pub const SPAWN_HEADING_BOUND: i64 = 1_000;

/// The periodic re-heading draws in [-2.5, 2.5] per axis, in thousandths.
pub const REHEAD_BOUND: i64 = 2_500;

/// The heading drawn when a move is rejected at a play-area edge lies in
/// [-5, 5] per axis, in thousandths.
pub const BOUNCE_BOUND: i64 = 5_000;

/// An enemy is spawned every 2.5 seconds of simulated time.
pub const SPAWN_INTERVAL_TICKS: u64 = 150;

/// Enemy headings are re-rolled every 0.5 seconds of simulated time.
pub const REHEAD_INTERVAL_TICKS: u64 = 30;

/// An explosion advances one animation frame every 50 ms, i.e. 3 ticks.
pub const EXPLOSION_FRAME_TICKS: u32 = 3;

/// Transform scale of an explosion sprite, in thousandths (0.4).
pub const EXPLOSION_SCALE_MILLI: u32 = 400;

/// Transform scale of the player sprite, in thousandths (1.0).
pub const PLAYER_SCALE_MILLI: u32 = 1_000;

/// Transform scale of an enemy sprite, in thousandths: the 32-unit
/// render size over the 64-pixel raw sprite (0.5).
pub const ENEMY_SCALE_MILLI: u32 = 500;

/// Largest half-extent of the play area the simulation accepts, in fine
/// units; keeps every position and collision product well inside `i64`.
pub const MAX_HALF_EXTENT: i64 = 0x1000_0000_0000;

/// Session-wide parameters, fixed at startup: the half-extents of the
/// play area (in fine units) and the number of frames of the explosion
/// sprite sheet, which the rendering collaborator resolves.
#[derive(Clone, Copy)]
pub struct SimConfig {
    pub half_width: i64,
    pub half_height: i64,
    pub explosion_frames: u32,
}

impl SimConfig {
    /// A configuration the simulation can run under: a play area roomy
    /// enough to hold the player with both guns, and a non-empty,
    /// bounded explosion sprite sheet.
    pub open spec fn valid(self) -> bool {
        &&& PLAYER_HALF_WIDTH + GUN_X_OFFSET < self.half_width <= MAX_HALF_EXTENT
        &&& PLAYER_Y_INSET + GUN_Y_OFFSET < self.half_height <= MAX_HALF_EXTENT
        &&& 1 <= self.explosion_frames <= 1_000_000
    }

    /// The standard 800 x 600 unit play area with a four-frame
    /// explosion sheet.
    pub fn standard() -> (c: SimConfig)
        ensures
            c.valid(),
            c.half_width == 400 * FINE_PER_UNIT,
            c.half_height == 300 * FINE_PER_UNIT,
            c.explosion_frames == 4,
    {
        SimConfig { half_width: 24_000_000, half_height: 18_000_000, explosion_frames: 4 }
    }
}

/// The player's horizontal intent for one tick, read from the keyboard
/// by the surrounding program.
#[derive(Clone, Copy, PartialEq, Eq, Structural)]
pub enum MoveDir {
    Left,
    Still,
    Right,
}

impl MoveDir {
    /// The sign this intent applies to the player's speed.
    pub open spec fn delta(self) -> int {
        match self {
            MoveDir::Left => -1,
            MoveDir::Still => 0,
            MoveDir::Right => 1,
        }
    }
}

/// Everything the surrounding program feeds into one tick: the
/// directional intent and the fire key's edge signals.
#[derive(Clone, Copy)]
pub struct TickInput {
    pub dir: MoveDir,
    pub fire_pressed: bool,
    pub fire_released: bool,
}

/// The sequence of mathematical views of a sequence of runtime values;
/// contracts relate runtime entity vectors to their spec-level models
/// through this function.
pub open spec fn views<T: View>(s: Seq<T>) -> Seq<T::V> {
    s.map_values(|x: T| x@)
}

/// Viewing commutes with appending one element.
pub proof fn lemma_views_push<T: View>(s: Seq<T>, x: T)
    ensures
        views(s.push(x)) == views(s).push(x@),
{
    assert(views(s.push(x)) =~= views(s).push(x@));
}

} // verus!
