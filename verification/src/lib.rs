//! Exact layout of needle slots on a skewed grid.
//!
//! A template carries a row of grid lines whose horizontal position drifts
//! between the bottom and the top of the drawing. Needles are narrow
//! rectangles placed between those lines, and the same template is used
//! several times over, each use pushed sideways by one common shift. This
//! crate computes, for a needle and a shift, the horizontal interval that
//! stays clear of every grid line in every repetition, and searches a range
//! of shifts for the one that leaves the narrowest interval as wide as
//! possible.
//!
//! All quantities are integers. Lengths are given in a unit of the caller's
//! choice (the built-in configuration uses hundredths of a millimetre).
//! Horizontal positions on a skewed line are fractions of that unit, and are
//! handed out multiplied by the drawing height, so that no rounding ever
//! takes place: a *scaled* position `s` stands for `s / height` units.
//!
//! The vertical coordinate of a needle is measured upwards from the bottom
//! edge of the drawing. What is handed to a renderer is in the coordinates of
//! the drawing, which run downwards from its top edge.

pub mod arith;
pub mod border;
pub mod error;
pub mod layout;
pub mod needles;
pub mod optimize;
pub mod outline;
pub mod plan;
pub mod skew;
pub mod space;
pub mod template;
