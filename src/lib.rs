//! Attention-focusing overlay engine: geometry of the dimmed regions around a
//! focused window or terminal pane, the bookkeeping of overlay surfaces, and the
//! decisions that keep them in step with displays, focus and configuration.

pub mod pane;
pub mod platform;
pub mod geometry;
pub mod signals;
pub mod color;
pub mod overlay;
pub mod monitor;
