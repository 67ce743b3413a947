//! The Tact language engine.

pub mod engine;
