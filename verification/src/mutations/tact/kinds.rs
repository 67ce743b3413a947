//! The mutation kinds that only Tact has.

use crate::types::mutations::{mutation_views, Mutation, MutationSeverity, MutationView};
use vstd::prelude::*;

verus! {

/// The kinds of mutation that only Tact has, as the rules see them, in catalog order.
pub open spec fn tact_only_catalog() -> Seq<MutationView> {
    seq![
        MutationView {
            slug: "RZ"@,
            description: "Repeat Zero: Hardcode repeat count/expression to 0"@,
            severity: MutationSeverity::Low,
        },
        MutationView {
            slug: "UF"@,
            description: "Until False: Hardcode do-until condition to false"@,
            severity: MutationSeverity::Low,
        },
        MutationView {
            slug: "TT"@,
            description: "Ternary True: Hardcode ternary condition to true"@,
            severity: MutationSeverity::Low,
        },
        MutationView {
            slug: "TF"@,
            description: "Ternary False: Hardcode ternary condition to false"@,
            severity: MutationSeverity::Low,
        },
    ]
}

/// The kinds of mutation that only Tact has.
pub fn tact_mutations() -> (r: Vec<Mutation>)
    ensures
        mutation_views(r@) == tact_only_catalog(),
{
    let mut all: Vec<Mutation> = Vec::new();
    all.push(
        Mutation {
            slug: "RZ",
            description: "Repeat Zero: Hardcode repeat count/expression to 0",
            severity: MutationSeverity::Low,
        },
    );
    all.push(
        Mutation {
            slug: "UF",
            description: "Until False: Hardcode do-until condition to false",
            severity: MutationSeverity::Low,
        },
    );
    all.push(
        Mutation {
            slug: "TT",
            description: "Ternary True: Hardcode ternary condition to true",
            severity: MutationSeverity::Low,
        },
    );
    all.push(
        Mutation {
            slug: "TF",
            description: "Ternary False: Hardcode ternary condition to false",
            severity: MutationSeverity::Low,
        },
    );
    assert(mutation_views(all@) =~= tact_only_catalog());
    all
}

} // verus!
