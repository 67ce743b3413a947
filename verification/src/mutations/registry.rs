//! Finding the mutation engine of a dialect.

use crate::cst::SyntaxTree;
use crate::languages::tolk::engine::{tolk_catalog, tolk_mutants, TolkLanguageEngine};
use crate::mutations::common::slugs::{strictly_ascending, string_views};
use crate::mutations::engine_traits::MutationEngine;
use crate::mutations::func::engine::{func_catalog, func_mutants, FuncMutationEngine};
use crate::mutations::tact::engine::{tact_catalog, tact_mutants, TactMutationEngine};
use crate::types::language::Language;
use crate::types::mutants::{Mutant, MutantView};
use crate::types::mutations::{severity_in, slugs_of, Mutation, MutationSeverity, MutationView};
use crate::types::targets::Target;
use vstd::prelude::*;

verus! {

/// The merged catalog of a dialect.
pub open spec fn catalog_of(language: Language) -> Seq<MutationView> {
    match language {
        Language::FunC => func_catalog(),
        Language::Tact => tact_catalog(),
        Language::Tolk => tolk_catalog(),
    }
}

/// The edits that the engine of a dialect proposes for a source and its
/// tree.
pub open spec fn mutants_of(
    language: Language,
    tree: &SyntaxTree,
    target_id: i64,
    source: Seq<u8>,
) -> Seq<MutantView> {
    match language {
        Language::FunC => func_mutants(tree, target_id, source),
        Language::Tact => tact_mutants(tree, target_id, source),
        Language::Tolk => tolk_mutants(tree, target_id, source),
    }
}

/// The mutation engine of one of the dialects.
pub enum DialectEngine {
    FunC(FuncMutationEngine),
    Tact(TactMutationEngine),
    Tolk(TolkLanguageEngine),
}

impl DialectEngine {
    /// The dialect of the engine.
    pub open spec fn language(&self) -> Language {
        match self {
            DialectEngine::FunC(_) => Language::FunC,
            DialectEngine::Tact(_) => Language::Tact,
            DialectEngine::Tolk(_) => Language::Tolk,
        }
    }
}

impl MutationEngine for DialectEngine {
    open spec fn catalog(&self) -> Seq<MutationView> {
        catalog_of(self.language())
    }

    open spec fn mutants(&self, tree: &SyntaxTree, target_id: i64, source: Seq<u8>) -> Seq<
        MutantView,
    > {
        mutants_of(self.language(), tree, target_id, source)
    }

    fn get_mutations(&self) -> (r: &[Mutation]) {
        match self {
            DialectEngine::FunC(engine) => engine.get_mutations(),
            DialectEngine::Tact(engine) => engine.get_mutations(),
            DialectEngine::Tolk(engine) => engine.get_mutations(),
        }
    }

    fn apply_all_mutations(&self, target: &Target, tree: &SyntaxTree) -> (r: Vec<Mutant>) {
        match self {
            DialectEngine::FunC(engine) => engine.apply_all_mutations(target, tree),
            DialectEngine::Tact(engine) => engine.apply_all_mutations(target, tree),
            DialectEngine::Tolk(engine) => engine.apply_all_mutations(target, tree),
        }
    }

    fn get_all_slugs(&self) -> (r: Vec<String>) {
        match self {
            DialectEngine::FunC(engine) => engine.get_all_slugs(),
            DialectEngine::Tact(engine) => engine.get_all_slugs(),
            DialectEngine::Tolk(engine) => engine.get_all_slugs(),
        }
    }

    fn get_severity_by_slug(&self, slug: &str) -> (r: Option<MutationSeverity>) {
        match self {
            DialectEngine::FunC(engine) => engine.get_severity_by_slug(slug),
            DialectEngine::Tact(engine) => engine.get_severity_by_slug(slug),
            DialectEngine::Tolk(engine) => engine.get_severity_by_slug(slug),
        }
    }
}

/// Get mutations for a specific language: the engine of the dialect.
pub fn get_mutations_for_language(language: &Language) -> (r: DialectEngine)
    ensures
        r.language() == *language,
{
    match language {
        Language::FunC => DialectEngine::FunC(FuncMutationEngine::new()),
        Language::Tact => DialectEngine::Tact(TactMutationEngine::new()),
        Language::Tolk => DialectEngine::Tolk(TolkLanguageEngine::new()),
    }
}

/// Get the severity for a mutation slug in a dialect.
pub fn get_severity_by_slug(slug: &str, language: &Language) -> (r: Option<MutationSeverity>)
    ensures
        r == severity_in(catalog_of(*language), slug@),
{
    let engine = get_mutations_for_language(language);
    engine.get_severity_by_slug(slug)
}

/// Get all unique mutation slugs of a dialect, in the order of strings.
pub fn get_all_slugs(language: &Language) -> (r: Vec<String>)
    ensures
        strictly_ascending(string_views(r@)),
        forall|s: Seq<char>|
            string_views(r@).contains(s) <==> slugs_of(catalog_of(*language)).contains(s),
{
    let engine = get_mutations_for_language(language);
    engine.get_all_slugs()
}

} // verus!
