//! The vocabulary of the Tact grammar: node kinds and field names.

pub mod fields;
pub mod nodes;
