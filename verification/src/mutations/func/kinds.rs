//! The mutation kinds that only FunC has.

use crate::types::mutations::{mutation_views, Mutation, MutationSeverity, MutationView};
use vstd::prelude::*;

verus! {

/// The kinds of mutation that only FunC has, as the rules see them, in catalog order.
pub open spec fn func_only_catalog() -> Seq<MutationView> {
    seq![
        MutationView {
            slug: "INF"@,
            description: "If Not False: Hardcode an ifnot expression to false"@,
            severity: MutationSeverity::Low,
        },
        MutationView {
            slug: "INT"@,
            description: "If Not True: Hardcode an ifnot expression to true"@,
            severity: MutationSeverity::Low,
        },
        MutationView {
            slug: "RZ"@,
            description: "Repeat Zero: Hardcode a repeat expression to repeat 0 times"@,
            severity: MutationSeverity::Low,
        },
        MutationView {
            slug: "UF"@,
            description: "Until False: Hardcode an until expression to false"@,
            severity: MutationSeverity::Low,
        },
        MutationView {
            slug: "SU"@,
            description: "Store Uint: replace stored uint with zero"@,
            severity: MutationSeverity::Low,
        },
        MutationView {
            slug: "SI"@,
            description: "Store Int: replace stored int with zero"@,
            severity: MutationSeverity::Low,
        },
        MutationView {
            slug: "SC"@,
            description: "Store Coins: replace stored coins with zero"@,
            severity: MutationSeverity::Low,
        },
        MutationView {
            slug: "DOS"@,
            description: "Division Operator Shuffle: Replace division operators (/, ~/, ^/)"@,
            severity: MutationSeverity::Low,
        },
        MutationView {
            slug: "DAOS"@,
            description: "Division Assignment Operator Shuffle: Replace division assignment operators (/=, ~/=, ^/=)"@,
            severity: MutationSeverity::Low,
        },
        MutationView {
            slug: "MOS"@,
            description: "Modulo Operator Shuffle: Replace modulo operators (%, ~%, ^%)"@,
            severity: MutationSeverity::Low,
        },
        MutationView {
            slug: "MAOS"@,
            description: "Modulo Assignment Operator Shuffle: Replace modulo assignment operators (%=, ~%=, ^%=)"@,
            severity: MutationSeverity::Low,
        },
    ]
}

/// The kinds of mutation that only FunC has.
pub fn func_mutations() -> (r: Vec<Mutation>)
    ensures
        mutation_views(r@) == func_only_catalog(),
{
    let mut all: Vec<Mutation> = Vec::new();
    all.push(
        Mutation {
            slug: "INF",
            description: "If Not False: Hardcode an ifnot expression to false",
            severity: MutationSeverity::Low,
        },
    );
    all.push(
        Mutation {
            slug: "INT",
            description: "If Not True: Hardcode an ifnot expression to true",
            severity: MutationSeverity::Low,
        },
    );
    all.push(
        Mutation {
            slug: "RZ",
            description: "Repeat Zero: Hardcode a repeat expression to repeat 0 times",
            severity: MutationSeverity::Low,
        },
    );
    all.push(
        Mutation {
            slug: "UF",
            description: "Until False: Hardcode an until expression to false",
            severity: MutationSeverity::Low,
        },
    );
    all.push(
        Mutation {
            slug: "SU",
            description: "Store Uint: replace stored uint with zero",
            severity: MutationSeverity::Low,
        },
    );
    all.push(
        Mutation {
            slug: "SI",
            description: "Store Int: replace stored int with zero",
            severity: MutationSeverity::Low,
        },
    );
    all.push(
        Mutation {
            slug: "SC",
            description: "Store Coins: replace stored coins with zero",
            severity: MutationSeverity::Low,
        },
    );
    all.push(
        Mutation {
            slug: "DOS",
            description: "Division Operator Shuffle: Replace division operators (/, ~/, ^/)",
            severity: MutationSeverity::Low,
        },
    );
    all.push(
        Mutation {
            slug: "DAOS",
            description: "Division Assignment Operator Shuffle: Replace division assignment operators (/=, ~/=, ^/=)",
            severity: MutationSeverity::Low,
        },
    );
    all.push(
        Mutation {
            slug: "MOS",
            description: "Modulo Operator Shuffle: Replace modulo operators (%, ~%, ^%)",
            severity: MutationSeverity::Low,
        },
    );
    all.push(
        Mutation {
            slug: "MAOS",
            description: "Modulo Assignment Operator Shuffle: Replace modulo assignment operators (%=, ~%=, ^%=)",
            severity: MutationSeverity::Low,
        },
    );
    assert(mutation_views(all@) =~= func_only_catalog());
    all
}

} // verus!
