//! The entity records of the simulation and their validity bounds.
//!
//! Coordinates are in milli-units (thousandths of a screen unit), speeds in
//! milli-units per second.  The bounds below are generous machine limits that
//! keep every arithmetic step of a frame inside `i64`.

use vstd::prelude::*;

verus! {

/// Milli-units per screen unit.
pub const SUBUNITS: i64 = 1_000;

/// Milliseconds per second.
pub const MS_PER_SECOND: i64 = 1_000;

/// Radius of the player's circular avatar.
pub const PLAYER_RADIUS: i64 = 16_000;

/// Speed of the player avatar while a direction is held.
pub const PLAYER_SPEED: i64 = 200_000;

/// Upward speed of a fired projectile (twice the player speed).
pub const PROJECTILE_SPEED: i64 = 400_000;

/// Edge length of a projectile.
pub const PROJECTILE_SIZE: i64 = 5_000;

/// Smallest edge length the spawner may draw for a hazard.
pub const HAZARD_SIZE_MIN: i64 = 16_000;

/// Exclusive upper bound on a spawned hazard's edge length.
pub const HAZARD_SIZE_MAX: i64 = 64_000;

/// Smallest downward speed the spawner may draw for a hazard.
pub const HAZARD_SPEED_MIN: i64 = 50_000;

/// Exclusive upper bound on a spawned hazard's downward speed.
pub const HAZARD_SPEED_MAX: i64 = 150_000;

/// Largest playfield dimension the core accepts.
pub const MAX_DIM: i64 = 1_000_000_000;

/// Largest entity edge length or radius the core accepts.
pub const MAX_SIZE: i64 = 1_000_000_000;

/// Largest entity speed the core accepts.
pub const MAX_SPEED: i64 = 1_000_000_000;

/// Bound on the magnitude of a stored coordinate.
pub const COORD_BOUND: i64 = 10_000_000_000_000;

/// Largest frame duration the core accepts: one day, in milliseconds.
pub const MAX_FRAME_MS: u32 = 86_400_000;

/// The player's circular avatar: a centre position and a radius.
#[derive(Clone, Copy, PartialEq, Eq, Structural, Debug)]
pub struct Player {
    pub x: i64,
    pub y: i64,
    pub radius: i64,
}

/// A falling square obstacle: centre position, edge length, downward speed,
/// and a flag set by the collision pass.  Once `destroyed` is set it is never
/// cleared; the lifecycle pass drops the record.
#[derive(Clone, Copy, PartialEq, Eq, Structural, Debug)]
pub struct Hazard {
    pub x: i64,
    pub y: i64,
    pub size: i64,
    pub speed: i64,
    pub destroyed: bool,
}

/// A small square fired upward from the player's position.
#[derive(Clone, Copy, PartialEq, Eq, Structural, Debug)]
pub struct Projectile {
    pub x: i64,
    pub y: i64,
    pub size: i64,
    pub speed: i64,
    pub destroyed: bool,
}

/// A fire-and-forget event emitted when a projectile destroys a hazard, for
/// the embedding program's particle effects.
#[derive(Clone, Copy, PartialEq, Eq, Structural, Debug)]
pub struct Explosion {
    pub x: i64,
    pub y: i64,
    pub magnitude: i64,
}

/// A hazard whose fields are within the machine bounds of the core.
pub open spec fn hazard_ok(h: Hazard) -> bool {
    &&& 0 < h.size <= MAX_SIZE
    &&& 0 <= h.speed <= MAX_SPEED
    &&& -COORD_BOUND <= h.x <= COORD_BOUND
    &&& -COORD_BOUND <= h.y <= COORD_BOUND
}

/// A projectile whose fields are within the machine bounds of the core.
pub open spec fn projectile_ok(p: Projectile) -> bool {
    &&& 0 < p.size <= MAX_SIZE
    &&& 0 <= p.speed <= MAX_SPEED
    &&& -COORD_BOUND <= p.x <= COORD_BOUND
    &&& -COORD_BOUND <= p.y <= COORD_BOUND
}

/// A player whose radius is within bounds and who stands inside the
/// playfield of the given dimensions, clamped as the movement pass leaves it.
pub open spec fn player_ok(p: Player, screen_w: i64, screen_h: i64) -> bool {
    &&& 0 < p.radius <= MAX_SIZE
    &&& 4 * p.radius <= screen_w
    &&& 4 * p.radius <= screen_h
    &&& p.radius <= p.x <= screen_w - 2 * p.radius
    &&& p.radius <= p.y <= screen_h - 2 * p.radius
}

/// Playfield dimensions the core accepts.
pub open spec fn dims_ok(screen_w: i64, screen_h: i64) -> bool {
    &&& 0 < screen_w <= MAX_DIM
    &&& 0 < screen_h <= MAX_DIM
}

} // verus!
