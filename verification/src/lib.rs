//! Procedural lighting patterns for an addressable LED strip, rendered one
//! fixed-size pixel frame per tick.
//!
//! The crate turns a bounded tick counter into full pixel-buffer snapshots:
//! position state machines (chases, composite arrows), deterministic palette
//! assignment, a time-windowed flicker effect, and a frame driver that lets
//! several generators share disjoint slices of one physical strip.

pub mod animation;
pub mod animations;
pub mod driver;
pub mod effects;
pub mod pixel;
pub mod tick;
