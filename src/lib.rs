//! A gamepad overlay: a declarative layout is resolved into drawable
//! geometry, live device input is normalised into an input state, and each
//! frame becomes a list of draw commands.
//!
//! Geometry is kept in fixed point: one pixel is `UNITS_PER_PX` units.
//! Normalised axis values are kept in fixed point as well: `1.0` is `NORM_ONE`.

pub mod color;
pub mod geometry;
pub mod config;
pub mod gamepad;
pub mod normalize;
pub mod render;
pub mod usb;
pub mod haybox;
