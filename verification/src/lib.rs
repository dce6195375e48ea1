//! Spatial collision and damage resolution for a two-dimensional
//! bullet-hell simulation.
//!
//! Hostile entities move, spawn and despawn every frame.  Rather than
//! rebuilding a spatial index each frame, the engine snapshots hostile
//! positions into an immutable k-d tree at a fixed wall-time cadence and
//! answers per-frame radius queries against the most recent snapshot.
//! Hits are resolved against the live entity set, so identities that
//! despawned since the last rebuild are silently dropped.

use vstd::prelude::*;

pub mod clock;
pub mod collision;
pub mod engine;
pub mod geom;
pub mod index;

verus! {

/// Radius, in distance units, of the per-projectile hit query.
pub const QUERY_RADIUS: i64 = 50;

/// Health subtracted from a hostile for each registered hit.
pub const BULLET_DAMAGE: i64 = 100;

/// Wall-time interval, in milliseconds, between index rebuilds.
pub const REBUILD_INTERVAL_MS: u64 = 200;

/// Default health pool of a freshly spawned hostile.
pub const ENEMY_HEALTH: i64 = 100;

/// Magnitude bound on coordinates and radii accepted by the engine;
/// keeps every squared-distance computation inside `i64`.
pub const MAX_COORD: i64 = 1_000_000_000;

} // verus!
