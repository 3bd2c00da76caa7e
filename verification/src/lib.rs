//! Screen capture, decided here and performed elsewhere.
//!
//! The crate holds everything a capture backend decides: which displays exist,
//! what to ask of the window system next, what a refusal means, and how the raw
//! pixels become an RGB image. It never talks to the window system itself; a
//! caller performs each request and hands back the answer.

pub mod display;
pub mod linux;
pub mod macos;
pub mod raster;
pub mod step;
pub mod windows;
