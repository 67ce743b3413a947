//! The mutation kinds that every dialect has.

use crate::types::mutations::{mutation_views, Mutation, MutationSeverity, MutationView};
use vstd::prelude::*;

verus! {

/// The kinds of mutation that every dialect has, as the rules see them, in catalog order.
pub open spec fn common_catalog() -> Seq<MutationView> {
    seq![
        MutationView {
            slug: "ER"@,
            description: "Error Replacement: Replace statement with a throw statement"@,
            severity: MutationSeverity::High,
        },
        MutationView {
            slug: "CR"@,
            description: "Comment Replacement: Replace statement with an in-line comment"@,
            severity: MutationSeverity::Medium,
        },
        MutationView {
            slug: "IF"@,
            description: "If False: Hardcode an if expression to false"@,
            severity: MutationSeverity::Medium,
        },
        MutationView {
            slug: "IT"@,
            description: "If True: Hardcode an if expression to true"@,
            severity: MutationSeverity::Medium,
        },
        MutationView {
            slug: "WF"@,
            description: "While False: Hardcode while condition to false"@,
            severity: MutationSeverity::Low,
        },
        MutationView {
            slug: "AS"@,
            description: "Argument Swap: swap two arguments in parentheses"@,
            severity: MutationSeverity::Low,
        },
        MutationView {
            slug: "LC"@,
            description: "Loop Control: Swap break and continue statements"@,
            severity: MutationSeverity::Low,
        },
        MutationView {
            slug: "BL"@,
            description: "Boolean Literal Flip: true <-> false"@,
            severity: MutationSeverity::Low,
        },
        MutationView {
            slug: "AOS"@,
            description: "Arithmetic Operator Shuffle: Replace arithmetic operators (+, -, *, /)"@,
            severity: MutationSeverity::Low,
        },
        MutationView {
            slug: "AAOS"@,
            description: "Arithmetic Assignment Operator Shuffle: Replace arithmetic assignment operators (+=, -=, *=, /=)"@,
            severity: MutationSeverity::Low,
        },
        MutationView {
            slug: "BOS"@,
            description: "Bitwise Operator Shuffle: Replace bitwise operators (&, |, ^)"@,
            severity: MutationSeverity::Low,
        },
        MutationView {
            slug: "BAOS"@,
            description: "Bitwise Assignment Operator Shuffle: Replace bitwise assignment operators (&=, |=, ^=)"@,
            severity: MutationSeverity::Low,
        },
        MutationView {
            slug: "LOS"@,
            description: "Logical Operator Shuffle: Replace logical operators (&&, ||)"@,
            severity: MutationSeverity::Low,
        },
        MutationView {
            slug: "COS"@,
            description: "Comparison Operator Shuffle: Replace comparison operators (==, !=, <, <=, >, >=)"@,
            severity: MutationSeverity::Low,
        },
        MutationView {
            slug: "SOS"@,
            description: "Shift Operator Shuffle: Replace shift operators (<<, >>)"@,
            severity: MutationSeverity::Low,
        },
        MutationView {
            slug: "SAOS"@,
            description: "Shift Assignment Operator Shuffle: Replace shift assignment operators (<<=, >>=)"@,
            severity: MutationSeverity::Low,
        },
    ]
}

/// The kinds of mutation that every dialect has.
pub fn common_mutations() -> (r: Vec<Mutation>)
    ensures
        mutation_views(r@) == common_catalog(),
{
    let mut all: Vec<Mutation> = Vec::new();
    all.push(
        Mutation {
            slug: "ER",
            description: "Error Replacement: Replace statement with a throw statement",
            severity: MutationSeverity::High,
        },
    );
    all.push(
        Mutation {
            slug: "CR",
            description: "Comment Replacement: Replace statement with an in-line comment",
            severity: MutationSeverity::Medium,
        },
    );
    all.push(
        Mutation {
            slug: "IF",
            description: "If False: Hardcode an if expression to false",
            severity: MutationSeverity::Medium,
        },
    );
    all.push(
        Mutation {
            slug: "IT",
            description: "If True: Hardcode an if expression to true",
            severity: MutationSeverity::Medium,
        },
    );
    all.push(
        Mutation {
            slug: "WF",
            description: "While False: Hardcode while condition to false",
            severity: MutationSeverity::Low,
        },
    );
    all.push(
        Mutation {
            slug: "AS",
            description: "Argument Swap: swap two arguments in parentheses",
            severity: MutationSeverity::Low,
        },
    );
    all.push(
        Mutation {
            slug: "LC",
            description: "Loop Control: Swap break and continue statements",
            severity: MutationSeverity::Low,
        },
    );
    all.push(
        Mutation {
            slug: "BL",
            description: "Boolean Literal Flip: true <-> false",
            severity: MutationSeverity::Low,
        },
    );
    all.push(
        Mutation {
            slug: "AOS",
            description: "Arithmetic Operator Shuffle: Replace arithmetic operators (+, -, *, /)",
            severity: MutationSeverity::Low,
        },
    );
    all.push(
        Mutation {
            slug: "AAOS",
            description: "Arithmetic Assignment Operator Shuffle: Replace arithmetic assignment operators (+=, -=, *=, /=)",
            severity: MutationSeverity::Low,
        },
    );
    all.push(
        Mutation {
            slug: "BOS",
            description: "Bitwise Operator Shuffle: Replace bitwise operators (&, |, ^)",
            severity: MutationSeverity::Low,
        },
    );
    all.push(
        Mutation {
            slug: "BAOS",
            description: "Bitwise Assignment Operator Shuffle: Replace bitwise assignment operators (&=, |=, ^=)",
            severity: MutationSeverity::Low,
        },
    );
    all.push(
        Mutation {
            slug: "LOS",
            description: "Logical Operator Shuffle: Replace logical operators (&&, ||)",
            severity: MutationSeverity::Low,
        },
    );
    all.push(
        Mutation {
            slug: "COS",
            description: "Comparison Operator Shuffle: Replace comparison operators (==, !=, <, <=, >, >=)",
            severity: MutationSeverity::Low,
        },
    );
    all.push(
        Mutation {
            slug: "SOS",
            description: "Shift Operator Shuffle: Replace shift operators (<<, >>)",
            severity: MutationSeverity::Low,
        },
    );
    all.push(
        Mutation {
            slug: "SAOS",
            description: "Shift Assignment Operator Shuffle: Replace shift assignment operators (<<=, >>=)",
            severity: MutationSeverity::Low,
        },
    );
    assert(mutation_views(all@) =~= common_catalog());
    all
}

} // verus!
