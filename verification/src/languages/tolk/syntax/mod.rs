//! The vocabulary of the Tolk grammar: node kinds and field names.

pub mod fields;
pub mod nodes;
