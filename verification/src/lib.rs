//! Verified core of a networked object-placement system for a tick-driven
//! 3D world: the client-side placement state machine, the wall-edge snap
//! resolver, the client/server replication protocol with identity
//! translation, and the server-side authority validator.
//!
//! All world coordinates are fixed point: 1000 counts stand for one world
//! unit, so every geometric computation is exact integer arithmetic.

pub mod authority;
pub mod codec;
pub mod geometry;
pub mod identity;
pub mod orientation;
pub mod placement;
pub mod protocol;
pub mod snap;
pub mod visual;
