//! The data model: targets, mutants, outcomes and catalog entries.

pub mod config;
pub mod errors;
pub mod hash;
pub mod language;
pub mod mutants;
pub mod mutations;
pub mod outcomes;
pub mod targets;

pub use errors::{IoError, IoErrorKind, MutonError, StoreError};
pub use hash::HashError;
pub use language::Language;
pub use mutants::{Mutant, MutantView};
pub use mutations::{Mutation, MutationSeverity, MutationView};
pub use outcomes::{Outcome, OutcomeView, Status};
pub use targets::{Target, TargetView};
