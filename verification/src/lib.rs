//! Verified core of a thermal RGB monitor: sensor readings are reduced to a
//! single representative temperature, mapped to a color through a configurable
//! piecewise-linear scale, and fanned out to lighting controllers.
//!
//! All temperatures are fixed-point values in hundredths of a degree Celsius
//! (centidegrees), so that the mapping arithmetic is exact and verifiable.

pub mod color;
pub mod dispatch;
pub mod monitor;
pub mod sensors;
