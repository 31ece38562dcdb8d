//! Encoding support: adaptive quality presets and content-specific tuning.

pub mod encoder;
pub mod performance;
pub mod quality;
