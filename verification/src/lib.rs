//! A timeline viewer core for execution traces.
//!
//! A trace is a sequence of spans (a lane tag, a start timestamp, a stop
//! timestamp). The library decodes and filters raw trace records, keeps them
//! sorted in a store, maps timestamps to screen pixels under a zoomable and
//! scrollable viewport, lays spans out into lanes with a deterministic
//! palette, rebuilds a hit-test index of screen rectangles every frame, and
//! turns repeated key events into accelerating zoom and scroll adjustments.
//! Drawing and event polling stay outside; the library only computes.

pub mod error;
pub mod frame;
pub mod hittest;
pub mod input;
pub mod layout;
pub mod span;
pub mod store;
pub mod viewport;
