//! Core simulation for a 2D arcade game of a ship, bullets and splitting
//! asteroids.
//!
//! All geometry is carried in fixed-point units: one screen pixel is
//! `SCALE` units, so positions, radii and speeds are plain integers and
//! every frame rule (integration, screen wrap, cooldown-gated shooting,
//! collision resolution, asteroid splitting, wave respawn) is stated and
//! proved exactly. Trigonometry stays outside: callers hand the ship's
//! heading in as a fixed-point unit vector.

pub mod collide;
pub mod config;
pub mod entities;
pub mod geom;
pub mod laws;
pub mod motion;
mod rng;
pub mod state;

pub use geom::Vec2;
