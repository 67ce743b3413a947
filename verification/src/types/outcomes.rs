//! Outcomes: what testing a mutant gave.

use crate::text::str_eq;
use vstd::prelude::*;

verus! {

/// How the test command ended for a mutant.
#[derive(Clone, Copy, Debug, PartialEq, Eq, Structural)]
pub enum Status {
    /// The tests passed with the mutation applied: the mutant survived.
    Uncaught,
    /// The tests failed with the mutation applied: the mutant was caught.
    TestFail,
    /// The mutant was not tested, because a more severe mutant on the
    /// same line was uncaught.
    Skipped,
    /// The mutant broke the build.
    BuildFail,
    /// The tests did not end in time.
    Timeout,
}

impl Status {
    /// The name of the status, as it is printed and stored.
    pub open spec fn name(self) -> Seq<char> {
        match self {
            Status::Uncaught => "Uncaught"@,
            Status::TestFail => "TestFail"@,
            Status::Skipped => "Skipped"@,
            Status::BuildFail => "BuildFail"@,
            Status::Timeout => "Timeout"@,
        }
    }

    /// The name of the status.
    pub fn to_string(&self) -> (r: String)
        ensures
            r@ == self.name(),
    {
        match self {
            Status::Uncaught => "Uncaught".to_owned(),
            Status::TestFail => "TestFail".to_owned(),
            Status::Skipped => "Skipped".to_owned(),
            Status::BuildFail => "BuildFail".to_owned(),
            Status::Timeout => "Timeout".to_owned(),
        }
    }

    /// The status with the given name, if there is one.
    pub fn from_str(s: &str) -> (r: Option<Status>)
        ensures
            match r {
                Some(v) => s@ == v.name(),
                None => forall|v: Status| s@ != v.name(),
            },
    {
        if str_eq(s, "Uncaught") {
            Some(Status::Uncaught)
        } else if str_eq(s, "TestFail") {
            Some(Status::TestFail)
        } else if str_eq(s, "Skipped") {
            Some(Status::Skipped)
        } else if str_eq(s, "BuildFail") {
            Some(Status::BuildFail)
        } else if str_eq(s, "Timeout") {
            Some(Status::Timeout)
        } else {
            None
        }
    }

    /// The status of a test command that ran to its end: a command that
    /// succeeds on mutated source did not catch the mutant.
    pub fn of_exit(success: bool) -> (r: Status)
        ensures
            r == if success {
                Status::Uncaught
            } else {
                Status::TestFail
            },
    {
        if success {
            Status::Uncaught
        } else {
            Status::TestFail
        }
    }
}

/// The result of testing one mutant.
#[derive(Clone, Debug)]
pub struct Outcome {
    /// The mutant that was tested; there is one outcome for each mutant.
    pub mutant_id: i64,
    pub status: Status,
    /// What the test command wrote.
    pub output: String,
    /// When the outcome was made, in milliseconds of UTC time since 1970.
    pub time: i64,
    pub duration_ms: u32,
}

/// An outcome as the rules see it.
pub struct OutcomeView {
    pub mutant_id: i64,
    pub status: Status,
    pub output: Seq<char>,
    pub time: i64,
    pub duration_ms: u32,
}

impl Outcome {
    /// A copy of the outcome.
    pub fn duplicate(&self) -> (r: Outcome)
        ensures
            r == *self,
    {
        Outcome {
            mutant_id: self.mutant_id,
            status: self.status,
            output: self.output.clone(),
            time: self.time,
            duration_ms: self.duration_ms,
        }
    }
}

impl View for Outcome {
    type V = OutcomeView;

    open spec fn view(&self) -> OutcomeView {
        OutcomeView {
            mutant_id: self.mutant_id,
            status: self.status,
            output: self.output@,
            time: self.time,
            duration_ms: self.duration_ms,
        }
    }
}

} // verus!
