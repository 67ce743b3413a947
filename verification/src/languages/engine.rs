//! What every language engine offers.

use crate::cst::{str_views, SyntaxTree};
use crate::types::mutants::{mutant_views, Mutant, MutantView};
use crate::types::mutations::{mutation_views, Mutation, MutationView};
use crate::types::targets::Target;
use vstd::prelude::*;

verus! {

/// The capabilities of a language engine: a name, the file extensions it
/// is selected by, a catalog, and the edits it proposes.
pub trait LanguageEngine {
    /// The name of the dialect.
    spec fn engine_name(&self) -> Seq<char>;

    /// The file extensions of the dialect.
    spec fn engine_extensions(&self) -> Seq<Seq<char>>;

    /// The merged catalog of the dialect.
    spec fn catalog(&self) -> Seq<MutationView>;

    /// The edits that the engine proposes for a source and its tree.
    spec fn mutants(&self, tree: &SyntaxTree, target_id: i64, source: Seq<u8>) -> Seq<MutantView>;

    /// The name of the dialect.
    fn name(&self) -> (r: &'static str)
        ensures
            r@ == self.engine_name(),
    ;

    /// The file extensions that select this engine.
    fn extensions(&self) -> (r: Vec<&'static str>)
        ensures
            str_views(r@) == self.engine_extensions(),
    ;

    /// The catalog.
    fn get_mutations(&self) -> (r: &[Mutation])
        ensures
            mutation_views(r@) == self.catalog(),
    ;

    /// The edits of every slug of the catalog, in catalog order, for the
    /// target's text and its tree.
    fn apply_all_mutations(&self, target: &Target, tree: &SyntaxTree) -> (r: Vec<Mutant>)
        ensures
            mutant_views(r@) == self.mutants(tree, target.id, target.bytes()),
    ;
}

} // verus!
