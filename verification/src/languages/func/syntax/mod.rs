//! The vocabulary of the FunC grammar: node kinds and field names.

pub mod fields;
pub mod nodes;
