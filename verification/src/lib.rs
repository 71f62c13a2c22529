//! Nearest named colour lookup.
//!
//! A colour is read from a `#RRGGBB` string, mapped into a luma/chroma space
//! and matched against a catalogue of named colours by Euclidean distance,
//! the first entry winning among equally near ones.
//!
//! Points of the luma/chroma space are held as exact fixed-point numbers, so
//! that distances are compared without rounding and every function can state
//! exactly what it returns.

pub mod catalog;
pub mod distance;
pub mod hex;
pub mod lookup;
pub mod search;
pub mod ycbcr;
