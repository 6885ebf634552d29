//! Electron structure of chemical elements, and the conversion of loosely
//! typed element records into a compact, validated layout.

pub mod error;
pub mod orbital;
pub mod configuration;
pub mod binary64;
pub mod parser;
pub mod data;
pub mod raw;
pub mod laws;
