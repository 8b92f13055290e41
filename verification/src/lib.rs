//! Simulation core of a top-down real-time action game.
//!
//! The library advances player movement, dashing and combat, projectile
//! ballistics, swarm-agent spawning and steering, and health/damage
//! resolution on a fixed simulation tick. All quantities are fixed-point
//! integers in milli-units (one thousandth of a world unit, of a second,
//! or of a health point), so the whole update pipeline is plain integer
//! arithmetic with proved contracts. Rendering, windowing, device input
//! and the rigid-body physics engine are external collaborators: they
//! hand the core plain values (intent events, collision sets, noise
//! samples, the tick delta) and take plain values back (velocities,
//! impulses, spawn orders, outcome events).

pub mod camera;
pub mod consts;
pub mod input;
pub mod math;
pub mod player;
pub mod projectile;
pub mod swarm;
pub mod tick;
