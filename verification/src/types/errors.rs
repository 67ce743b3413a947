//! The errors that the library reports.

use crate::types::hash::HashError;
use vstd::prelude::*;

verus! {

/// What kind of input or output failure an error stands for.
#[derive(Clone, Copy, Debug, PartialEq, Eq, Structural)]
pub enum IoErrorKind {
    /// A parameter was wrong.
    InvalidInput,
    /// Data was not what it had to be, such as text that is not UTF-8.
    InvalidData,
    /// Something asked for does not exist.
    NotFound,
    /// The work was interrupted from outside.
    Interrupted,
    /// Any other failure.
    Other,
}

/// An input or output failure, with a message for people.
#[derive(Debug)]
pub struct IoError {
    pub kind: IoErrorKind,
    pub message: String,
}

/// A failure of the persistence store.
#[derive(Debug)]
pub enum StoreError {
    /// No row has this id.
    NotFound(i64),
    InvalidHash(HashError),
    InvalidStatus(String),
    InvalidTime(String),
    InvalidTarget(String),
    DatabaseError(String),
    MigrationError(String),
}

/// Any failure that ends a command.
#[derive(Debug)]
pub enum MutonError {
    Io(IoError),
    Store(StoreError),
    Custom(String),
    Database(String),
    TargetNotFound(String),
}

impl IoError {
    /// An error of the given kind with the given message.
    pub fn new(kind: IoErrorKind, message: &str) -> (r: IoError)
        ensures
            r.kind == kind,
            r.message@ == message@,
    {
        IoError { kind, message: message.to_owned() }
    }
}

} // verus!
