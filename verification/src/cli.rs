//! What the command line holds, and what of it overrides the
//! configuration.

use crate::types::config::{optional_view, CliOverrides, CliView};
use vstd::prelude::*;

verus! {

/// The arguments of the `run` command.
#[derive(Debug, Default)]
pub struct RunArgs {
    /// File or directory to mutate; without it the mutants that are
    /// stored are tested.
    pub target: Option<String>,
    pub test_cmd: Option<String>,
    /// Seconds after which a test run counts as timed out.
    pub timeout: Option<u32>,
    /// Slugs to test, separated by commas.
    pub mutations: Option<String>,
    /// Test every mutant, even where a more severe one was uncaught.
    pub comprehensive: bool,
    pub verbose: bool,
}

/// The arguments of the `mutate` command.
#[derive(Debug, Default)]
pub struct MutateArgs {
    pub target: String,
}

/// The arguments of a list of mutations.
#[derive(Debug, Default)]
pub struct ListMutationsArgs {
    pub language: Option<String>,
}

/// The arguments of a list of outcomes.
#[derive(Debug, Default)]
pub struct ListOutcomesArgs {
    pub target: Option<String>,
}

/// The arguments of `print mutations`.
#[derive(Debug, Default)]
pub struct PrintMutationsArgs {
    pub language: Option<String>,
}

/// The arguments of `print results`.
#[derive(Debug, Default)]
pub struct PrintResultsArgs {
    pub target: Option<String>,
    pub verbose: bool,
    pub id: Option<i64>,
    pub all: bool,
}

/// The arguments of `print mutant`.
#[derive(Debug, Default)]
pub struct PrintMutantArgs {
    pub id: i64,
}

/// The arguments of `print mutants`.
#[derive(Debug, Default)]
pub struct PrintMutantsArgs {
    pub target: Option<String>,
}

/// The arguments of the `test` command.
#[derive(Debug, Default)]
pub struct TestArgs {
    /// Ids of the mutants to test, separated by commas.
    pub ids: String,
    pub test_cmd: Option<String>,
    pub timeout: Option<u32>,
    pub verbose: bool,
}

/// The arguments of the `purge` command.
#[derive(Debug, Default)]
pub struct PurgeArgs {
    /// The target to purge; every target where there is none.
    pub target: Option<String>,
}

/// What to print.
#[derive(Debug)]
pub enum PrintArgs {
    Mutations(PrintMutationsArgs),
    Results(PrintResultsArgs),
    Targets,
    Mutant(PrintMutantArgs),
    Mutants(PrintMutantsArgs),
}

/// The command.
#[derive(Debug)]
pub enum Commands {
    Init,
    Run(RunArgs),
    Mutate(MutateArgs),
    Clean,
    Print { command: PrintArgs },
    Test(TestArgs),
    Purge(PurgeArgs),
}

/// The whole command line.
#[derive(Debug)]
pub struct Args {
    /// The directory in which everything happens.
    pub cwd: Option<String>,
    pub db: Option<String>,
    pub log_level: Option<String>,
    pub log_color: Option<String>,
    /// Glob patterns of paths that are no targets, separated by commas.
    pub ignore: Option<String>,
    pub command: Commands,
}

/// What is printed, with all that the printing needs: for results the
/// target path, whether details are shown, the mutant, and whether every
/// outcome is shown.
#[derive(Debug)]
pub enum PrintCommand {
    Mutations(Option<String>),
    Results(Option<String>, bool, Option<i64>, bool),
    Targets,
    Mutant(i64),
    Mutants(Option<String>),
}

impl PrintCommand {
    /// Printing needs the store, but for the list of mutations.
    pub open spec fn wants_store(self) -> bool {
        !(self is Mutations)
    }

    /// Whether printing needs the store.
    pub fn needs_store(&self) -> (r: bool)
        ensures
            r == self.wants_store(),
    {
        match self {
            PrintCommand::Mutations(_) => false,
            _ => true,
        }
    }
}

impl PrintArgs {
    /// What is printed.
    pub fn command(self) -> (r: PrintCommand)
        ensures
            r == match self {
                PrintArgs::Mutations(args) => PrintCommand::Mutations(args.language),
                PrintArgs::Results(args) => PrintCommand::Results(
                    args.target,
                    args.verbose,
                    args.id,
                    args.all,
                ),
                PrintArgs::Targets => PrintCommand::Targets,
                PrintArgs::Mutant(args) => PrintCommand::Mutant(args.id),
                PrintArgs::Mutants(args) => PrintCommand::Mutants(args.target),
            },
    {
        match self {
            PrintArgs::Mutations(args) => PrintCommand::Mutations(args.language),
            PrintArgs::Results(args) => PrintCommand::Results(
                args.target,
                args.verbose,
                args.id,
                args.all,
            ),
            PrintArgs::Targets => PrintCommand::Targets,
            PrintArgs::Mutant(args) => PrintCommand::Mutant(args.id),
            PrintArgs::Mutants(args) => PrintCommand::Mutants(args.target),
        }
    }
}

/// A copy of a string that may be missing.
fn copy_optional(s: &Option<String>) -> (r: Option<String>)
    ensures
        r == *s,
{
    match s {
        Some(v) => Some(v.clone()),
        None => None,
    }
}

impl Args {
    /// What the command line says about the configuration. The slugs
    /// come from `run`, the test command and the timeout from `run` and
    /// `test`; no other command sets them.
    pub open spec fn overriding(self) -> CliView {
        CliView {
            db: optional_view(self.db),
            log_level: optional_view(self.log_level),
            log_color: optional_view(self.log_color),
            ignore_targets: optional_view(self.ignore),
            mutations_slugs: match self.command {
                Commands::Run(run) => optional_view(run.mutations),
                _ => None,
            },
            test_cmd: match self.command {
                Commands::Run(run) => optional_view(run.test_cmd),
                Commands::Test(test) => optional_view(test.test_cmd),
                _ => None,
            },
            test_timeout: match self.command {
                Commands::Run(run) => run.timeout,
                Commands::Test(test) => test.timeout,
                _ => None,
            },
        }
    }

    /// What the command line says about the configuration: see
    /// [`Args::overriding`].
    pub fn overrides(&self) -> (r: CliOverrides)
        ensures
            r@ == self.overriding(),
    {
        CliOverrides {
            db: copy_optional(&self.db),
            log_level: copy_optional(&self.log_level),
            log_color: copy_optional(&self.log_color),
            ignore_targets: copy_optional(&self.ignore),
            mutations_slugs: match &self.command {
                Commands::Run(run) => copy_optional(&run.mutations),
                _ => None,
            },
            test_cmd: match &self.command {
                Commands::Run(run) => copy_optional(&run.test_cmd),
                Commands::Test(test) => copy_optional(&test.test_cmd),
                _ => None,
            },
            test_timeout: match &self.command {
                Commands::Run(run) => run.timeout,
                Commands::Test(test) => test.timeout,
                _ => None,
            },
        }
    }
}

} // verus!
