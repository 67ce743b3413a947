//! Mutation testing for smart-contract sources of the TON family.
//!
//! The crate holds the mutation generator, which turns a concrete syntax
//! tree and its source text into byte-exact edits, and the rules of the
//! campaign scheduler that decides which of those edits are tested.

pub mod cli;
pub mod cmds;
pub mod cst;
pub mod languages;
pub mod mutations;
pub mod report;
pub mod runner;
pub mod store;
pub mod text;
pub mod types;
