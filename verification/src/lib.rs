//! Post-detection reasoning core of a chess-board screen reader and autoplayer.
//!
//! The library covers the logic between the neural detector and the outside
//! world: letterbox geometry and its inverse, turning raw detections into a
//! board string with point-of-view correction, mapping algebraic squares back
//! to pixel points, the move-engine text protocol, and the polling state
//! machine that decides when a board change is committed. Image decoding,
//! screen capture, click injection and the engine subprocess live outside the
//! library and hand it plain values.

pub mod error;
pub mod types;
pub mod geometry;
pub mod detect;
pub mod encoder;
pub mod mapper;
pub mod controller;
pub mod engine;
pub mod capture;
