//! Finding the language engine of a file extension.

use crate::cst::SyntaxTree;
use crate::languages::engine::LanguageEngine;
use crate::languages::func::engine::{
    func_language_catalog,
    func_language_mutants,
    FuncLanguageEngine,
};
use crate::languages::tact::engine::{
    tact_language_catalog,
    tact_language_mutants,
    TactLanguageEngine,
};
use crate::languages::tolk::engine::{tolk_catalog, tolk_mutants, TolkLanguageEngine};
use crate::text::str_eq;
use crate::types::mutants::{Mutant, MutantView};
use crate::types::mutations::{Mutation, MutationView};
use crate::types::targets::Target;
use vstd::prelude::*;

verus! {

/// The dialects that have a language engine.
#[derive(Clone, Copy, Debug, PartialEq, Eq, Structural)]
pub enum Dialect {
    FunC,
    Tact,
    Tolk,
}

/// The dialect that a file extension selects.
pub open spec fn dialect_of_extension(extension: Seq<char>) -> Option<Dialect> {
    if extension == "fc"@ {
        Some(Dialect::FunC)
    } else if extension == "tact"@ {
        Some(Dialect::Tact)
    } else if extension == "tolk"@ {
        Some(Dialect::Tolk)
    } else {
        None
    }
}

/// The merged catalog of a dialect's language engine.
pub open spec fn language_catalog(dialect: Dialect) -> Seq<MutationView> {
    match dialect {
        Dialect::FunC => func_language_catalog(),
        Dialect::Tact => tact_language_catalog(),
        Dialect::Tolk => tolk_catalog(),
    }
}

/// The edits that a dialect's language engine proposes.
pub open spec fn language_mutants(
    dialect: Dialect,
    tree: &SyntaxTree,
    target_id: i64,
    source: Seq<u8>,
) -> Seq<MutantView> {
    match dialect {
        Dialect::FunC => func_language_mutants(tree, target_id, source),
        Dialect::Tact => tact_language_mutants(tree, target_id, source),
        Dialect::Tolk => tolk_mutants(tree, target_id, source),
    }
}

/// The language engine of one of the dialects.
pub enum DialectLanguageEngine {
    FunC(FuncLanguageEngine),
    Tact(TactLanguageEngine),
    Tolk(TolkLanguageEngine),
}

impl DialectLanguageEngine {
    /// The dialect of the engine.
    pub open spec fn dialect(&self) -> Dialect {
        match self {
            DialectLanguageEngine::FunC(_) => Dialect::FunC,
            DialectLanguageEngine::Tact(_) => Dialect::Tact,
            DialectLanguageEngine::Tolk(_) => Dialect::Tolk,
        }
    }
}

impl LanguageEngine for DialectLanguageEngine {
    open spec fn engine_name(&self) -> Seq<char> {
        match self {
            DialectLanguageEngine::FunC(_) => "FunC"@,
            DialectLanguageEngine::Tact(_) => "Tact"@,
            DialectLanguageEngine::Tolk(_) => "Tolk"@,
        }
    }

    open spec fn engine_extensions(&self) -> Seq<Seq<char>> {
        match self {
            DialectLanguageEngine::FunC(_) => seq!["fc"@],
            DialectLanguageEngine::Tact(_) => seq!["tact"@],
            DialectLanguageEngine::Tolk(_) => seq!["tolk"@],
        }
    }

    open spec fn catalog(&self) -> Seq<MutationView> {
        language_catalog(self.dialect())
    }

    open spec fn mutants(&self, tree: &SyntaxTree, target_id: i64, source: Seq<u8>) -> Seq<
        MutantView,
    > {
        language_mutants(self.dialect(), tree, target_id, source)
    }

    fn name(&self) -> (r: &'static str) {
        match self {
            DialectLanguageEngine::FunC(engine) => engine.name(),
            DialectLanguageEngine::Tact(engine) => engine.name(),
            DialectLanguageEngine::Tolk(engine) => engine.name(),
        }
    }

    fn extensions(&self) -> (r: Vec<&'static str>) {
        match self {
            DialectLanguageEngine::FunC(engine) => engine.extensions(),
            DialectLanguageEngine::Tact(engine) => engine.extensions(),
            DialectLanguageEngine::Tolk(engine) => engine.extensions(),
        }
    }

    fn get_mutations(&self) -> (r: &[Mutation]) {
        match self {
            DialectLanguageEngine::FunC(engine) => engine.get_mutations(),
            DialectLanguageEngine::Tact(engine) => engine.get_mutations(),
            DialectLanguageEngine::Tolk(engine) => <TolkLanguageEngine>::get_mutations(engine),
        }
    }

    fn apply_all_mutations(&self, target: &Target, tree: &SyntaxTree) -> (r: Vec<Mutant>) {
        match self {
            DialectLanguageEngine::FunC(engine) => engine.apply_all_mutations(target, tree),
            DialectLanguageEngine::Tact(engine) => engine.apply_all_mutations(target, tree),
            DialectLanguageEngine::Tolk(engine) => <TolkLanguageEngine>::apply_all_mutations(
                engine,
                target,
                tree,
            ),
        }
    }
}

/// The language engine that a file extension selects: `fc` is FunC,
/// `tact` is Tact, `tolk` is Tolk. No other extension has an engine.
pub fn engine_for_extension(extension: &str) -> (r: Option<DialectLanguageEngine>)
    ensures
        match r {
            Some(engine) => dialect_of_extension(extension@) == Some(engine.dialect()),
            None => dialect_of_extension(extension@) is None,
        },
{
    if str_eq(extension, "fc") {
        Some(DialectLanguageEngine::FunC(FuncLanguageEngine::new()))
    } else if str_eq(extension, "tact") {
        Some(DialectLanguageEngine::Tact(TactLanguageEngine::new()))
    } else if str_eq(extension, "tolk") {
        Some(DialectLanguageEngine::Tolk(TolkLanguageEngine::new()))
    } else {
        None
    }
}

} // verus!
