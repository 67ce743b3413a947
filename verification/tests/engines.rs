//! The catalogs of the engines.

use muton::cst::SyntaxTree;
use muton::languages::func::engine::FuncLanguageEngine;
use muton::languages::tact::engine::TactLanguageEngine;
use muton::languages::tolk::engine::TolkLanguageEngine;
use muton::languages::LanguageEngine;
use muton::mutations::engine_traits::MutationEngine;
use muton::mutations::func::engine::FuncMutationEngine;
use muton::mutations::tact::engine::TactMutationEngine;
use muton::types::language::Language;
use muton::types::mutations::{Mutation, MutationSeverity};
use muton::types::targets::Target;
use std::collections::{BTreeSet, HashSet};

fn duplicates(mutations: &[Mutation]) -> BTreeSet<String> {
    let mut seen: HashSet<&str> = HashSet::new();
    let mut dups: BTreeSet<String> = BTreeSet::new();
    for m in mutations {
        if !seen.insert(m.slug) {
            dups.insert(m.slug.to_string());
        }
    }
    dups
}

fn target(text: &str, language: Language) -> Target {
    Target {
        id: 0,
        path: "test".to_string(),
        file_hash: muton::types::hash::Hash::digest(text.to_string()),
        text: text.to_string(),
        language,
    }
}

#[test]
fn no_duplicate_slugs_in_combined_mutations() {
    let engine = FuncMutationEngine::new();
    let dups = duplicates(engine.get_mutations());
    assert!(dups.is_empty(), "Duplicate mutation slugs found in FunC engine: {dups:?}",);
    let engine = FuncLanguageEngine::new();
    let dups = duplicates(engine.get_mutations());
    assert!(dups.is_empty(), "Duplicate mutation slugs found in FunC engine: {dups:?}",);
    let engine = TolkLanguageEngine::new();
    let dups = duplicates(LanguageEngine::get_mutations(&engine));
    assert!(dups.is_empty(), "Duplicate mutation slugs found in Tolk engine: {dups:?}",);
}

#[test]
fn engine_no_duplicate_slugs_in_combined_mutations() {
    let engine = TactMutationEngine::new();
    let dups = duplicates(engine.get_mutations());
    assert!(dups.is_empty(), "Duplicate mutation slugs found in Tact engine: {dups:?}",);
    let engine = TactLanguageEngine::new();
    let dups = duplicates(engine.get_mutations());
    assert!(dups.is_empty(), "Duplicate mutation slugs found in Tact engine: {dups:?}",);
}

#[test]
fn all_defined_slugs_have_match_arms() {
    // An empty tree stands for a source that the parser gave nothing for.
    let text: &str = "() main() { return (); }";
    let tree = SyntaxTree::new();
    let engine = FuncMutationEngine::new();
    assert!(engine.apply_all_mutations(&target(text, Language::FunC), &tree).is_empty());
    let engine = FuncLanguageEngine::new();
    assert!(engine.apply_all_mutations(&target(text, Language::FunC), &tree).is_empty());
    let engine = TolkLanguageEngine::new();
    assert!(LanguageEngine::apply_all_mutations(&engine, &target(text, Language::Tolk), &tree)
        .is_empty());
}

#[test]
fn engine_all_defined_slugs_have_match_arms() {
    let text: &str = "contract C { fun f() { let x: Int = 1; } }";
    let tree = SyntaxTree::new();
    let engine = TactMutationEngine::new();
    assert!(engine.apply_all_mutations(&target(text, Language::Tact), &tree).is_empty());
    let engine = TactLanguageEngine::new();
    assert!(engine.apply_all_mutations(&target(text, Language::Tact), &tree).is_empty());
}

#[test]
fn catalogs_have_the_expected_sizes_and_severities() {
    let func = FuncMutationEngine::new();
    assert_eq!(func.get_mutations().len(), 27);
    let tact = TactMutationEngine::new();
    assert_eq!(tact.get_mutations().len(), 20);
    let tolk = TolkLanguageEngine::new();
    assert_eq!(LanguageEngine::get_mutations(&tolk).len(), 16);
    assert_eq!(func.get_severity_by_slug("ER"), Some(MutationSeverity::High));
    assert_eq!(func.get_severity_by_slug("CR"), Some(MutationSeverity::Medium));
    assert_eq!(func.get_severity_by_slug("IF"), Some(MutationSeverity::Medium));
    assert_eq!(func.get_severity_by_slug("BL"), Some(MutationSeverity::Low));
    assert_eq!(func.get_severity_by_slug("XX"), None);
    assert_eq!(tact.get_severity_by_slug("TT"), Some(MutationSeverity::Low));
    assert_eq!(tact.get_severity_by_slug("SU"), None);
}

#[test]
fn all_slugs_are_sorted_and_unique() {
    let func = FuncMutationEngine::new();
    let slugs = func.get_all_slugs();
    assert_eq!(slugs.len(), 27);
    let mut sorted = slugs.clone();
    sorted.sort();
    sorted.dedup();
    assert_eq!(slugs, sorted);
    assert_eq!(slugs[0], "AAOS");
    assert_eq!(slugs[26], "WF");
    let tolk = muton::mutations::get_all_slugs(&Language::Tolk);
    assert_eq!(tolk.len(), 16);
    assert_eq!(
        muton::mutations::get_severity_by_slug("ER", &Language::Tact),
        Some(MutationSeverity::High)
    );
    let engine = muton::mutations::get_mutations_for_language(&Language::Tact);
    assert_eq!(engine.get_mutations().len(), 20);
}

#[test]
fn registry_finds_the_engine_of_an_extension() {
    let engine = muton::languages::engine_for_extension("fc").expect("an engine");
    assert_eq!(engine.name(), "FunC");
    assert_eq!(engine.extensions(), vec!["fc"]);
    let engine = muton::languages::engine_for_extension("tact").expect("an engine");
    assert_eq!(engine.name(), "Tact");
    let engine = muton::languages::engine_for_extension("tolk").expect("an engine");
    assert_eq!(engine.name(), "Tolk");
    assert_eq!(engine.get_mutations().len(), 16);
    assert!(muton::languages::engine_for_extension("rs").is_none());
}
