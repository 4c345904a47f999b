//! Discrete collision and movement resolution for axis-aligned boxes.
//!
//! Positions are whole units. A moving entity advances one unit at a time,
//! testing every unit step against a caller-supplied blocking predicate, and
//! keeps the fractional part of its requested motion between calls.
//! Rectangles given by corner and size offer intersection and a corrector that
//! rejects a proposed move landing on a solid.

pub mod geometry;
pub mod motion;
pub mod rect;

pub use geometry::{vec2, Entity, Unit, Vec2};
pub use motion::{MobileEntity, SUBUNITS};
pub use rect::{intersect, resolve, Rect};
