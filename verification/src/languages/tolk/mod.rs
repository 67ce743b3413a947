//! The Tolk language engine.

pub mod engine;
pub mod kinds;
pub mod syntax;
