//! Autonomous vehicle intersection management: the verified core.
//!
//! The library holds the rules of the simulation in plain integer terms:
//! the waypoint paths of every lane, the hitbox speed ladder, the cooldown
//! gate on speed changes, the life cycle of each vehicle through the
//! intersection, the statistics, and the keyboard control state machine.
//! Geometry that needs floating point (headings, hitboxes, distances) is
//! computed by the caller and handed in as integer floors or booleans.

pub mod config;
pub mod vehicle;
pub mod path;
pub mod speed;
pub mod stats;
pub mod world;
pub mod controls;
pub mod renderer;
pub mod scanline;
