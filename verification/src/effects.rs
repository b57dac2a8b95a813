//! Pixel-range effects: the palette cycler, the chase generator and the
//! composite arrow.

pub mod arrow;
pub mod color_set;
pub mod running_lights;

