//! Frame composition for a 240x320 RGB565 display: a pixel canvas, the
//! animations that draw on it, the touch overlay and the frame-rate report.

pub mod bounce;
pub mod canvas;
pub mod color;
pub mod command;
pub mod label;
pub mod orbit;
pub mod raster;
pub mod report;
pub mod rng;
pub mod scheduler;
pub mod sparkle;
pub mod touch;
pub mod tunnel;
