//! Simulation core of a small 2D arcade shooter, on fixed-point coordinates
//! and an explicit clock.
//!
//! Lengths are whole numbers of sub-pixel units (`units::UNIT` to the pixel),
//! times are whole microseconds. Every step of the simulation is a total
//! function of the state, the elapsed time and the clock reading handed in.

pub mod cooldown;
pub mod coords;
pub mod enemy;
pub mod events;
pub mod gameplay;
pub mod player;
pub mod projectile;
pub mod theorems;
pub mod units;
pub mod world;
