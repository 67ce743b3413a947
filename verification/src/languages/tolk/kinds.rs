//! The mutation kinds that only Tolk has: none so far.

use crate::types::mutations::{mutation_views, Mutation, MutationView};
use vstd::prelude::*;

verus! {

/// The kinds of mutation that only Tolk has, as the rules see them.
pub open spec fn tolk_only_catalog() -> Seq<MutationView> {
    Seq::empty()
}

/// The kinds of mutation that only Tolk has.
pub fn tolk_mutations() -> (r: Vec<Mutation>)
    ensures
        mutation_views(r@) == tolk_only_catalog(),
{
    let all: Vec<Mutation> = Vec::new();
    assert(mutation_views(all@) =~= tolk_only_catalog());
    all
}

} // verus!
