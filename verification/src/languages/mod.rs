//! The language engines, one for each dialect, and the registry that
//! finds the engine of a file extension.

pub mod engine;
pub mod func;
pub mod registry;
pub mod tact;
pub mod tolk;

pub use engine::LanguageEngine;
pub use registry::engine_for_extension;
