//! Collision detection and response core of a small asteroid-field shooter.
//!
//! Geometry is exact: coordinates are integers and every test compares
//! squared quantities, so no square root or rounding enters a decision.
pub mod collidable;
pub mod entities;
pub mod events;
pub mod geometry;
pub mod response;
pub mod sweep;
pub mod world;
