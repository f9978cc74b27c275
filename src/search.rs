//! The search core: pattern compilation, line scanning and the result cache.

pub mod buffer;
pub mod cache;
pub mod error;
pub mod matcher;
pub mod pattern;
pub mod scanner;
pub mod engine;
