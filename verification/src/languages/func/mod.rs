//! The FunC language engine.

pub mod engine;
pub mod syntax;
