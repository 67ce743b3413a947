//! What every dialect shares: the common catalog and the patterns.

pub mod immunity;
pub mod kinds;
pub mod laws;
pub mod operators;
pub mod patterns;
pub mod slugs;
pub mod utils;
