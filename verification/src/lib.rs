//! Kizuna: security policy and streaming support logic with verified contracts.

pub mod clock;
pub mod json;
pub mod platform;
pub mod random;
pub mod security;
pub mod streaming;
pub mod text;
pub mod unique_id;
