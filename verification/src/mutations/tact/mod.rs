//! The Tact dialect.

pub mod engine;
pub mod kinds;
pub mod syntax;
