//! The FunC dialect.

pub mod engine;
pub mod kinds;
