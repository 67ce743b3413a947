//! What every mutation engine offers.

use crate::cst::SyntaxTree;
use crate::mutations::common::slugs::{strictly_ascending, string_views};
use crate::types::mutants::{mutant_views, Mutant, MutantView};
use crate::types::mutations::{
    mutation_views,
    severity_in,
    slugs_of,
    Mutation,
    MutationSeverity,
    MutationView,
};
use crate::types::targets::Target;
use vstd::prelude::*;

verus! {

/// Language-agnostic mutation engine interface.
pub trait MutationEngine {
    /// The merged catalog of the engine's dialect.
    spec fn catalog(&self) -> Seq<MutationView>;

    /// The edits that the engine proposes for a source and its tree.
    spec fn mutants(&self, tree: &SyntaxTree, target_id: i64, source: Seq<u8>) -> Seq<MutantView>;

    /// The catalog.
    fn get_mutations(&self) -> (r: &[Mutation])
        ensures
            mutation_views(r@) == self.catalog(),
    ;

    /// The edits of every slug of the catalog, in catalog order, for the
    /// target's text and its tree.
    fn apply_all_mutations(&self, target: &Target, tree: &SyntaxTree) -> (r: Vec<Mutant>)
        ensures
            mutant_views(r@) == self.mutants(tree, target.id, target.bytes()),
    ;

    /// The slugs of the catalog in the order of strings, each once.
    fn get_all_slugs(&self) -> (r: Vec<String>)
        ensures
            strictly_ascending(string_views(r@)),
            forall|s: Seq<char>|
                string_views(r@).contains(s) <==> slugs_of(self.catalog()).contains(s),
    ;

    /// The severity of the first entry of the catalog with the slug.
    fn get_severity_by_slug(&self, slug: &str) -> (r: Option<MutationSeverity>)
        ensures
            r == severity_in(self.catalog(), slug@),
    ;
}

} // verus!
