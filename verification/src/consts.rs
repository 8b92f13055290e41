//! Global tuning constants and the shared `Health` component.
//!
//! Scalars are fixed-point milli-units: a speed of `100_000` is one
//! hundred world units per second, a duration of `500` is half a
//! second, a health value of `2000` is two health points.

use vstd::prelude::*;

verus! {

/// Smallest camera zoom scale (0.5).
pub const CAMERA_ZOOM_MIN: i64 = 500;

/// Largest camera zoom scale (5.0).
pub const CAMERA_ZOOM_MAX: i64 = 5_000;

/// Projectile travel speed (500 units per second).
pub const PROJECTILE_SPEED: i64 = 500_000;

/// Period of the swarm spawner's repeating timer (1 second).
pub const SWARMLING_SPAWN_TIMER: i64 = 1_000;

/// Damage dealt to the player by one touching swarm agent each tick (1 point).
pub const SWARMLING_COLLISION_DAMAGE: i64 = 1_000;

/// Scale of the wander steering impulse (50 units per second).
pub const SWARMLING_SPEED: i64 = 50_000;

/// Magnitude of the vertical launch impulse of a freshly spawned agent.
pub const SWARMLING_LAUNCH_SPEED: i64 = 1_500_000;

/// Player walking speed (100 units per second).
pub const PLAYER_MOVEMENT_SPEED: i64 = 100_000;

/// Initial dash speed (1000 units per second).
pub const PLAYER_DASH_SPEED: i64 = 1_000_000;

/// How long a dash lasts (half a second).
pub const PLAYER_DASH_DURATION: i64 = 500;

/// Cooldown started when a dash ends (1 second).
pub const PLAYER_DASH_COOLDOWN: i64 = 1_000;

/// Distance ahead of the player, along the aim heading, at which a
/// projectile spawns (25 units).
pub const PROJECTILE_SPAWN_OFFSET: i64 = 25_000;

/// An entity whose health is at or below this value (0.1 points) is
/// dead; the margin avoids comparing against exact zero.
pub const DEATH_THRESHOLD: i64 = 100;

/// Largest tick delta a single simulation step accepts, so that all
/// per-tick integrations stay within machine bounds.
pub const MAX_DT: i64 = 1_000_000_000;

/// Top-level application state; the simulation currently starts in its
/// only state.
#[derive(Clone, Copy, Debug, Hash, PartialEq, Eq, Structural)]
pub enum AppState {
    Start,
}

impl Default for AppState {
    fn default() -> (r: AppState)
        ensures
            r == AppState::Start,
    {
        AppState::Start
    }
}

/// Scalar health of a damageable entity, in milli-points.
#[derive(Clone, Copy, Debug, PartialEq, Eq, Structural)]
pub struct Health(pub i64);

impl Default for Health {
    /// A fresh damageable entity has two health points.
    fn default() -> (r: Health)
        ensures
            r == Health(2_000),
    {
        Health(2_000)
    }
}

} // verus!
