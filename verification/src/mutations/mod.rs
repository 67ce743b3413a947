//! The mutation generator: catalogs, patterns and the dialect engines.

pub mod common;
pub mod engine_traits;
pub mod func;
pub mod registry;
pub mod tact;

pub use registry::{get_all_slugs, get_mutations_for_language, get_severity_by_slug};
