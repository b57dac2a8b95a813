//! Custom animations keyed off the clock.

pub mod glitch;
