//! The FunC language engine: the merged FunC catalog and, for each of its
//! slugs, the pattern that makes its edits.

use crate::cst::{str_views, SyntaxTree};
use crate::languages::LanguageEngine;
use crate::languages::func::syntax::{fields, nodes};
use crate::mutations::common::immunity::{
    all_immune,
    all_replace_free_nodes,
    in_block_comment,
    is_wrapping,
    lemma_block_comment_is_not_nested,
    lemma_immune_concat,
    lemma_replace_condition_immune,
    lemma_replace_entire_immune,
    lemma_replace_entire_replaces_free_nodes,
    lemma_replace_first_argument_immune,
    lemma_shuffle_nodes_immune,
    lemma_shuffle_operators_immune,
    lemma_swap_arguments_immune,
    lemma_wrap_immune,
    lemma_wrap_is_wrapping,
    lemma_wrap_replaces_free_nodes,
    occurs_only_at,
};
use crate::mutations::common::kinds::{common_catalog, common_mutations};
use crate::mutations::common::laws::{
    all_edits_of,
    is_edit_of,
    lemma_edits_concat,
    lemma_replace_condition_are_edits,
    lemma_replace_entire_are_edits,
    lemma_replace_first_argument_are_edits,
    lemma_shuffle_nodes_are_edits,
    lemma_shuffle_operators_are_edits,
    lemma_swap_arguments_are_edits,
    lemma_wrap_are_edits,
};
use crate::mutations::common::operators::{
    arithmetic_assignment_set,
    arithmetic_assignment_texts,
    arithmetic_set,
    arithmetic_texts,
    bitwise_assignment_set,
    bitwise_assignment_texts,
    bitwise_set,
    bitwise_texts,
    boolean_set,
    boolean_texts,
    comparison_set,
    comparison_texts,
    division_assignment_set,
    division_assignment_texts,
    division_set,
    division_texts,
    logical_set,
    logical_texts,
    loop_control_set,
    loop_control_texts,
    modulo_assignment_set,
    modulo_assignment_texts,
    modulo_set,
    modulo_texts,
    rounding_shift_assignment_set,
    rounding_shift_assignment_texts,
    rounding_shift_set,
    rounding_shift_texts,
};
use crate::mutations::common::patterns::{
    replace_condition_for_nodes_of_kind,
    replace_condition_upto,
    replace_entire_nodes_of_kinds_filtered,
    replace_entire_upto,
    replace_first_argument_for_calls_matching,
    replace_first_argument_upto,
    replace_repeat_count_for_nodes_of_kind,
    shuffle_nodes,
    shuffle_nodes_upto,
    shuffle_operators_in_expressions,
    shuffle_operators_upto,
    swap_adjacent_arguments_for_kinds,
    swap_arguments_upto,
    wrap_nodes_of_kinds_with_wrappers,
    wrap_upto,
};
use crate::mutations::func::kinds::{func_mutations, func_only_catalog};
use crate::text::str_eq;
use crate::types::mutants::{append_mutants, Mutant, mutant_views, MutantView};
use crate::types::mutations::{Mutation, mutation_views, MutationView};
use crate::types::targets::Target;
use vstd::prelude::*;
use vstd::utf8::*;

verus! {

/// The merged catalog of FunC: the common kinds, then FunC's own.
pub open spec fn func_language_catalog() -> Seq<MutationView> {
    common_catalog() + func_only_catalog()
}

/// The kinds of statement that are replaced and wrapped as a whole.
pub open spec fn statement_kinds() -> Seq<Seq<char>> {
    seq![
        nodes::EXPRESSION_STATEMENT@,
        nodes::RETURN_STATEMENT@,
        nodes::ASSIGNMENT_STATEMENT@,
        nodes::VARIABLE_DECLARATION@,
        nodes::IF_STATEMENT@,
    ]
}

/// The kinds of statement that are replaced and wrapped as a whole.
fn statement_kind_list() -> (r: [&'static str; 5])
    ensures
        str_views(r@) == statement_kinds(),
{
    let kinds = [
        nodes::EXPRESSION_STATEMENT,
        nodes::RETURN_STATEMENT,
        nodes::ASSIGNMENT_STATEMENT,
        nodes::VARIABLE_DECLARATION,
        nodes::IF_STATEMENT,
    ];
    assert(str_views(kinds@) =~= statement_kinds());
    kinds
}

/// The kinds of call.
pub open spec fn call_kinds() -> Seq<Seq<char>> {
    seq![
        nodes::CALL_EXPRESSION@,
        nodes::FUNCTION_APPLICATION@,
        nodes::METHOD_CALL@,
    ]
}

/// The kinds of call.
fn call_kind_list() -> (r: [&'static str; 3])
    ensures
        str_views(r@) == call_kinds(),
{
    let kinds = [
        nodes::CALL_EXPRESSION,
        nodes::FUNCTION_APPLICATION,
        nodes::METHOD_CALL,
    ];
    assert(str_views(kinds@) =~= call_kinds());
    kinds
}

/// The kinds of node that hold the arguments of a call.
pub open spec fn argument_list_kinds() -> Seq<Seq<char>> {
    seq![nodes::ARGUMENT_LIST@]
}

/// The kinds of node that hold the arguments of a call.
fn argument_list_kind_list() -> (r: [&'static str; 1])
    ensures
        str_views(r@) == argument_list_kinds(),
{
    let kinds = [nodes::ARGUMENT_LIST];
    assert(str_views(kinds@) =~= argument_list_kinds());
    kinds
}

/// The kinds of loop control statement.
pub open spec fn loop_control_kinds() -> Seq<Seq<char>> {
    seq![nodes::BREAK_STATEMENT@, nodes::CONTINUE_STATEMENT@]
}

/// The kinds of loop control statement.
fn loop_control_kind_list() -> (r: [&'static str; 2])
    ensures
        str_views(r@) == loop_control_kinds(),
{
    let kinds = [nodes::BREAK_STATEMENT, nodes::CONTINUE_STATEMENT];
    assert(str_views(kinds@) =~= loop_control_kinds());
    kinds
}

/// The kinds of boolean literal.
pub open spec fn boolean_kinds() -> Seq<Seq<char>> {
    seq![nodes::BOOLEAN@]
}

/// The kinds of boolean literal.
fn boolean_kind_list() -> (r: [&'static str; 1])
    ensures
        str_views(r@) == boolean_kinds(),
{
    let kinds = [nodes::BOOLEAN];
    assert(str_views(kinds@) =~= boolean_kinds());
    kinds
}

/// The kinds of expression that hold operators.
pub open spec fn expression_kinds() -> Seq<Seq<char>> {
    seq![nodes::EXPRESSION@]
}

/// The kinds of expression that hold operators.
fn expression_kind_list() -> (r: [&'static str; 1])
    ensures
        str_views(r@) == expression_kinds(),
{
    let kinds = [nodes::EXPRESSION];
    assert(str_views(kinds@) =~= expression_kinds());
    kinds
}

/// The edits that the engine makes for one slug, with the node kinds,
/// fields and texts of FunC. A slug that the engine does not know has none.
pub open spec fn func_language_mutants_for_slug(
    tree: &SyntaxTree,
    target_id: i64,
    source: Seq<u8>,
    slug: Seq<char>,
) -> Option<Seq<MutantView>> {
    if slug == "ER"@ {
        Some(
            replace_entire_upto(
                tree,
                target_id,
                source,
                statement_kinds(),
                "ER"@,
                encode_utf8("throw(1);"@),
                encode_utf8("throw("@),
                tree.len(),
            ),
        )
    } else if slug == "CR"@ {
        Some(
            wrap_upto(
                tree,
                target_id,
                source,
                statement_kinds(),
                "CR"@,
                encode_utf8("{- "@),
                encode_utf8(" -}"@),
                tree.len(),
            ),
        )
    } else if slug == "IF"@ {
        Some(
            replace_condition_upto(
                tree,
                target_id,
                source,
                nodes::IF_STATEMENT@,
                fields::CONDITION@,
                seq!["if"@],
                "IF"@,
                encode_utf8("false"@),
                tree.len(),
            ),
        )
    } else if slug == "IT"@ {
        Some(
            replace_condition_upto(
                tree,
                target_id,
                source,
                nodes::IF_STATEMENT@,
                fields::CONDITION@,
                seq!["if"@],
                "IT"@,
                encode_utf8("true"@),
                tree.len(),
            ),
        )
    } else if slug == "INF"@ {
        Some(
            replace_condition_upto(
                tree,
                target_id,
                source,
                nodes::IFNOT_STATEMENT@,
                fields::CONDITION@,
                seq!["ifnot"@],
                "INF"@,
                encode_utf8("false"@),
                tree.len(),
            ),
        )
    } else if slug == "INT"@ {
        Some(
            replace_condition_upto(
                tree,
                target_id,
                source,
                nodes::IFNOT_STATEMENT@,
                fields::CONDITION@,
                seq!["ifnot"@],
                "INT"@,
                encode_utf8("true"@),
                tree.len(),
            ),
        )
    } else if slug == "WF"@ {
        Some(
            replace_condition_upto(
                tree,
                target_id,
                source,
                nodes::WHILE_STATEMENT@,
                fields::CONDITION@,
                seq!["while"@],
                "WF"@,
                encode_utf8("false"@),
                tree.len(),
            ),
        )
    } else if slug == "RZ"@ {
        Some(
            replace_condition_upto(
                tree,
                target_id,
                source,
                nodes::REPEAT_STATEMENT@,
                fields::COUNT@,
                seq!["repeat"@],
                "RZ"@,
                encode_utf8("0"@),
                tree.len(),
            ),
        )
    } else if slug == "UF"@ {
        Some(
            replace_condition_upto(
                tree,
                target_id,
                source,
                nodes::UNTIL_STATEMENT@,
                fields::CONDITION@,
                seq!["until"@],
                "UF"@,
                encode_utf8("false"@),
                tree.len(),
            ),
        )
    } else if slug == "AS"@ {
        Some(
            swap_arguments_upto(
                tree,
                target_id,
                source,
                call_kinds(),
                fields::ARGUMENTS@,
                "AS"@,
                tree.len(),
            ) + swap_arguments_upto(
                tree,
                target_id,
                source,
                call_kinds(),
                nodes::ARGUMENT_LIST@,
                "AS"@,
                tree.len(),
            ),
        )
    } else if slug == "SU"@ {
        Some(
            replace_first_argument_upto(
                tree,
                target_id,
                source,
                call_kinds(),
                fields::ARGUMENTS@,
                argument_list_kinds(),
                "SU"@,
                encode_utf8("store_uint"@),
                encode_utf8("0"@),
                tree.len(),
            ),
        )
    } else if slug == "SI"@ {
        Some(
            replace_first_argument_upto(
                tree,
                target_id,
                source,
                call_kinds(),
                fields::ARGUMENTS@,
                argument_list_kinds(),
                "SI"@,
                encode_utf8("store_int"@),
                encode_utf8("0"@),
                tree.len(),
            ),
        )
    } else if slug == "SC"@ {
        Some(
            replace_first_argument_upto(
                tree,
                target_id,
                source,
                call_kinds(),
                fields::ARGUMENTS@,
                argument_list_kinds(),
                "SC"@,
                encode_utf8("store_coins"@),
                encode_utf8("0"@),
                tree.len(),
            ),
        )
    } else if slug == "LC"@ {
        Some(
            shuffle_nodes_upto(
                tree,
                target_id,
                source,
                loop_control_kinds(),
                loop_control_texts(),
                "LC"@,
                tree.len(),
            ),
        )
    } else if slug == "BL"@ {
        Some(
            shuffle_nodes_upto(
                tree,
                target_id,
                source,
                boolean_kinds(),
                boolean_texts(),
                "BL"@,
                tree.len(),
            ),
        )
    } else if slug == "AOS"@ {
        Some(
            shuffle_operators_upto(
                tree,
                target_id,
                source,
                expression_kinds(),
                arithmetic_texts(),
                "AOS"@,
                tree.len(),
            ),
        )
    } else if slug == "AAOS"@ {
        Some(
            shuffle_operators_upto(
                tree,
                target_id,
                source,
                expression_kinds(),
                arithmetic_assignment_texts(),
                "AAOS"@,
                tree.len(),
            ),
        )
    } else if slug == "BOS"@ {
        Some(
            shuffle_operators_upto(
                tree,
                target_id,
                source,
                expression_kinds(),
                bitwise_texts(),
                "BOS"@,
                tree.len(),
            ),
        )
    } else if slug == "BAOS"@ {
        Some(
            shuffle_operators_upto(
                tree,
                target_id,
                source,
                expression_kinds(),
                bitwise_assignment_texts(),
                "BAOS"@,
                tree.len(),
            ),
        )
    } else if slug == "COS"@ {
        Some(
            shuffle_operators_upto(
                tree,
                target_id,
                source,
                expression_kinds(),
                comparison_texts(),
                "COS"@,
                tree.len(),
            ),
        )
    } else if slug == "DOS"@ {
        Some(
            shuffle_operators_upto(
                tree,
                target_id,
                source,
                expression_kinds(),
                division_texts(),
                "DOS"@,
                tree.len(),
            ),
        )
    } else if slug == "DAOS"@ {
        Some(
            shuffle_operators_upto(
                tree,
                target_id,
                source,
                expression_kinds(),
                division_assignment_texts(),
                "DAOS"@,
                tree.len(),
            ),
        )
    } else if slug == "LOS"@ {
        Some(
            shuffle_operators_upto(
                tree,
                target_id,
                source,
                expression_kinds(),
                logical_texts(),
                "LOS"@,
                tree.len(),
            ),
        )
    } else if slug == "MOS"@ {
        Some(
            shuffle_operators_upto(
                tree,
                target_id,
                source,
                expression_kinds(),
                modulo_texts(),
                "MOS"@,
                tree.len(),
            ),
        )
    } else if slug == "MAOS"@ {
        Some(
            shuffle_operators_upto(
                tree,
                target_id,
                source,
                expression_kinds(),
                modulo_assignment_texts(),
                "MAOS"@,
                tree.len(),
            ),
        )
    } else if slug == "SOS"@ {
        Some(
            shuffle_operators_upto(
                tree,
                target_id,
                source,
                expression_kinds(),
                rounding_shift_texts(),
                "SOS"@,
                tree.len(),
            ),
        )
    } else if slug == "SAOS"@ {
        Some(
            shuffle_operators_upto(
                tree,
                target_id,
                source,
                expression_kinds(),
                rounding_shift_assignment_texts(),
                "SAOS"@,
                tree.len(),
            ),
        )
    } else {
        None
    }
}

/// What the engine emits for the first `n` entries of a catalog: for
/// each entry in turn, the edits of its slug.
pub open spec fn func_language_mutants_upto(
    tree: &SyntaxTree,
    target_id: i64,
    source: Seq<u8>,
    catalog: Seq<MutationView>,
    n: nat,
) -> Seq<MutantView>
    decreases n,
{
    if n == 0 {
        Seq::empty()
    } else {
        func_language_mutants_upto(tree, target_id, source, catalog, (n - 1) as nat) + (
        match func_language_mutants_for_slug(tree, target_id, source, catalog[n - 1].slug) {
            Some(found) => found,
            None => Seq::empty(),
        })
    }
}

/// All the edits that the engine proposes for a source and its tree: the
/// edits of every slug of the catalog, in catalog order.
pub open spec fn func_language_mutants(
    tree: &SyntaxTree,
    target_id: i64,
    source: Seq<u8>,
) -> Seq<MutantView> {
    let catalog = func_language_catalog();
    func_language_mutants_upto(tree, target_id, source, catalog, catalog.len())
}

/// The edits for one slug.
#[verifier::spinoff_prover]
#[verifier::rlimit(60)]
fn mutants_for_slug(target: &Target, tree: &SyntaxTree, slug: &str) -> (r: Option<Vec<Mutant>>)
    ensures
        match r {
            Some(found) => func_language_mutants_for_slug(tree, target.id, target.bytes(), slug@)
                == Some(mutant_views(found@)),
            None => func_language_mutants_for_slug(tree, target.id, target.bytes(), slug@) is None,
        },
{
    let source = target.text.as_str();
    if str_eq(slug, "ER") {
        return Some(
            replace_entire_nodes_of_kinds_filtered(
                target,
                tree,
                source,
                statement_kind_list().as_slice(),
                "ER",
                "throw(1);",
                "throw(",
            ),
        );
    }
    if str_eq(slug, "CR") {
        return Some(
            wrap_nodes_of_kinds_with_wrappers(
                target,
                tree,
                source,
                statement_kind_list().as_slice(),
                "CR",
                "{- ",
                " -}",
            ),
        );
    }
    if str_eq(slug, "IF") {
        let keywords = ["if"];
        assert(str_views(keywords@) =~= seq!["if"@]);
        return Some(
            replace_condition_for_nodes_of_kind(
                target,
                tree,
                source,
                nodes::IF_STATEMENT,
                fields::CONDITION,
                keywords.as_slice(),
                "IF",
                "false",
            ),
        );
    }
    if str_eq(slug, "IT") {
        let keywords = ["if"];
        assert(str_views(keywords@) =~= seq!["if"@]);
        return Some(
            replace_condition_for_nodes_of_kind(
                target,
                tree,
                source,
                nodes::IF_STATEMENT,
                fields::CONDITION,
                keywords.as_slice(),
                "IT",
                "true",
            ),
        );
    }
    if str_eq(slug, "INF") {
        let keywords = ["ifnot"];
        assert(str_views(keywords@) =~= seq!["ifnot"@]);
        return Some(
            replace_condition_for_nodes_of_kind(
                target,
                tree,
                source,
                nodes::IFNOT_STATEMENT,
                fields::CONDITION,
                keywords.as_slice(),
                "INF",
                "false",
            ),
        );
    }
    if str_eq(slug, "INT") {
        let keywords = ["ifnot"];
        assert(str_views(keywords@) =~= seq!["ifnot"@]);
        return Some(
            replace_condition_for_nodes_of_kind(
                target,
                tree,
                source,
                nodes::IFNOT_STATEMENT,
                fields::CONDITION,
                keywords.as_slice(),
                "INT",
                "true",
            ),
        );
    }
    if str_eq(slug, "WF") {
        let keywords = ["while"];
        assert(str_views(keywords@) =~= seq!["while"@]);
        return Some(
            replace_condition_for_nodes_of_kind(
                target,
                tree,
                source,
                nodes::WHILE_STATEMENT,
                fields::CONDITION,
                keywords.as_slice(),
                "WF",
                "false",
            ),
        );
    }
    if str_eq(slug, "RZ") {
        let keywords = ["repeat"];
        assert(str_views(keywords@) =~= seq!["repeat"@]);
        return Some(
            replace_repeat_count_for_nodes_of_kind(
                target,
                tree,
                source,
                nodes::REPEAT_STATEMENT,
                fields::COUNT,
                keywords.as_slice(),
                "RZ",
                "0",
            ),
        );
    }
    if str_eq(slug, "UF") {
        let keywords = ["until"];
        assert(str_views(keywords@) =~= seq!["until"@]);
        return Some(
            replace_condition_for_nodes_of_kind(
                target,
                tree,
                source,
                nodes::UNTIL_STATEMENT,
                fields::CONDITION,
                keywords.as_slice(),
                "UF",
                "false",
            ),
        );
    }
    if str_eq(slug, "AS") {
        let mut found = swap_adjacent_arguments_for_kinds(
            target,
            tree,
            source,
            call_kind_list().as_slice(),
            fields::ARGUMENTS,
            "AS",
        );
        let fallback = swap_adjacent_arguments_for_kinds(
            target,
            tree,
            source,
            call_kind_list().as_slice(),
            nodes::ARGUMENT_LIST,
            "AS",
        );
        append_mutants(&mut found, fallback);
        return Some(
            found,
        );
    }
    if str_eq(slug, "SU") {
        return Some(
            replace_first_argument_for_calls_matching(
                target,
                tree,
                source,
                call_kind_list().as_slice(),
                fields::ARGUMENTS,
                argument_list_kind_list().as_slice(),
                "SU",
                "store_uint",
                "0",
            ),
        );
    }
    if str_eq(slug, "SI") {
        return Some(
            replace_first_argument_for_calls_matching(
                target,
                tree,
                source,
                call_kind_list().as_slice(),
                fields::ARGUMENTS,
                argument_list_kind_list().as_slice(),
                "SI",
                "store_int",
                "0",
            ),
        );
    }
    if str_eq(slug, "SC") {
        return Some(
            replace_first_argument_for_calls_matching(
                target,
                tree,
                source,
                call_kind_list().as_slice(),
                fields::ARGUMENTS,
                argument_list_kind_list().as_slice(),
                "SC",
                "store_coins",
                "0",
            ),
        );
    }
    if str_eq(slug, "LC") {
        return Some(
            shuffle_nodes(
                target,
                tree,
                source,
                loop_control_kind_list().as_slice(),
                loop_control_set().as_slice(),
                "LC",
            ),
        );
    }
    if str_eq(slug, "BL") {
        return Some(
            shuffle_nodes(
                target,
                tree,
                source,
                boolean_kind_list().as_slice(),
                boolean_set().as_slice(),
                "BL",
            ),
        );
    }
    if str_eq(slug, "AOS") {
        return Some(
            shuffle_operators_in_expressions(
                target,
                tree,
                source,
                expression_kind_list().as_slice(),
                arithmetic_set().as_slice(),
                "AOS",
            ),
        );
    }
    if str_eq(slug, "AAOS") {
        return Some(
            shuffle_operators_in_expressions(
                target,
                tree,
                source,
                expression_kind_list().as_slice(),
                arithmetic_assignment_set().as_slice(),
                "AAOS",
            ),
        );
    }
    if str_eq(slug, "BOS") {
        return Some(
            shuffle_operators_in_expressions(
                target,
                tree,
                source,
                expression_kind_list().as_slice(),
                bitwise_set().as_slice(),
                "BOS",
            ),
        );
    }
    if str_eq(slug, "BAOS") {
        return Some(
            shuffle_operators_in_expressions(
                target,
                tree,
                source,
                expression_kind_list().as_slice(),
                bitwise_assignment_set().as_slice(),
                "BAOS",
            ),
        );
    }
    if str_eq(slug, "COS") {
        return Some(
            shuffle_operators_in_expressions(
                target,
                tree,
                source,
                expression_kind_list().as_slice(),
                comparison_set().as_slice(),
                "COS",
            ),
        );
    }
    if str_eq(slug, "DOS") {
        return Some(
            shuffle_operators_in_expressions(
                target,
                tree,
                source,
                expression_kind_list().as_slice(),
                division_set().as_slice(),
                "DOS",
            ),
        );
    }
    if str_eq(slug, "DAOS") {
        return Some(
            shuffle_operators_in_expressions(
                target,
                tree,
                source,
                expression_kind_list().as_slice(),
                division_assignment_set().as_slice(),
                "DAOS",
            ),
        );
    }
    if str_eq(slug, "LOS") {
        return Some(
            shuffle_operators_in_expressions(
                target,
                tree,
                source,
                expression_kind_list().as_slice(),
                logical_set().as_slice(),
                "LOS",
            ),
        );
    }
    if str_eq(slug, "MOS") {
        return Some(
            shuffle_operators_in_expressions(
                target,
                tree,
                source,
                expression_kind_list().as_slice(),
                modulo_set().as_slice(),
                "MOS",
            ),
        );
    }
    if str_eq(slug, "MAOS") {
        return Some(
            shuffle_operators_in_expressions(
                target,
                tree,
                source,
                expression_kind_list().as_slice(),
                modulo_assignment_set().as_slice(),
                "MAOS",
            ),
        );
    }
    if str_eq(slug, "SOS") {
        return Some(
            shuffle_operators_in_expressions(
                target,
                tree,
                source,
                expression_kind_list().as_slice(),
                rounding_shift_set().as_slice(),
                "SOS",
            ),
        );
    }
    if str_eq(slug, "SAOS") {
        return Some(
            shuffle_operators_in_expressions(
                target,
                tree,
                source,
                expression_kind_list().as_slice(),
                rounding_shift_assignment_set().as_slice(),
                "SAOS",
            ),
        );
    }
    None
}

/// The language engine of the FunC dialect.
pub struct FuncLanguageEngine {
    mutations: Vec<Mutation>,
}

impl FuncLanguageEngine {
    #[verifier::type_invariant]
    spec fn holds_catalog(self) -> bool {
        mutation_views(self.mutations@) == func_language_catalog()
    }

    /// The catalog that the engine holds.
    pub closed spec fn held(&self) -> Seq<MutationView> {
        mutation_views(self.mutations@)
    }

    /// An engine with the merged catalog of FunC.
    pub fn new() -> (r: Self)
        ensures
            r.held() == func_language_catalog(),
    {
        let mut mutations: Vec<Mutation> = common_mutations();
        let mut own = func_mutations();
        let ghost head = mutation_views(mutations@);
        let ghost tail = mutation_views(own@);
        mutations.append(&mut own);
        assert(mutation_views(mutations@) =~= head + tail);
        Self { mutations }
    }

    /// Get all mutations for this engine.
    pub fn get_mutations(&self) -> (r: &[Mutation])
        ensures
            mutation_views(r@) == func_language_catalog(),
            self.held() == func_language_catalog(),
    {
        proof {
            use_type_invariant(self);
        }
        self.mutations.as_slice()
    }

    /// Apply all mutations to a target: the edits of every slug of the
    /// catalog, in catalog order, for the target's text and its tree.
    pub fn apply_all_mutations(&self, target: &Target, tree: &SyntaxTree) -> (r: Vec<Mutant>)
        ensures
            mutant_views(r@) == func_language_mutants(tree, target.id, target.bytes()),
    {
        proof {
            use_type_invariant(self);
        }
        let mut all_mutants: Vec<Mutant> = Vec::new();
        let mut k: usize = 0;
        assert(mutant_views(all_mutants@) =~= Seq::<MutantView>::empty());
        while k < self.mutations.len()
            invariant
                k <= self.mutations@.len(),
                mutation_views(self.mutations@) == func_language_catalog(),
                mutant_views(all_mutants@) == func_language_mutants_upto(
                    tree,
                    target.id,
                    target.bytes(),
                    func_language_catalog(),
                    k as nat,
                ),
            decreases self.mutations@.len() - k,
        {
            let ghost before = mutant_views(all_mutants@);
            assert(func_language_catalog()[k as int].slug == self.mutations@[k as int].slug@);
            match mutants_for_slug(target, tree, self.mutations[k].slug) {
                Some(found) => {
                    append_mutants(&mut all_mutants, found);
                },
                None => {
                    assert(before + Seq::<MutantView>::empty() =~= before);
                },
            }
            k += 1;
        }
        all_mutants
    }
}

impl Default for FuncLanguageEngine {
    fn default() -> (r: Self)
        ensures
            r.held() == func_language_catalog(),
    {
        Self::new()
    }
}

impl LanguageEngine for FuncLanguageEngine {
    open spec fn engine_name(&self) -> Seq<char> {
        "FunC"@
    }

    open spec fn engine_extensions(&self) -> Seq<Seq<char>> {
        seq!["fc"@]
    }

    open spec fn catalog(&self) -> Seq<MutationView> {
        func_language_catalog()
    }

    open spec fn mutants(&self, tree: &SyntaxTree, target_id: i64, source: Seq<u8>) -> Seq<
        MutantView,
    > {
        func_language_mutants(tree, target_id, source)
    }

    fn name(&self) -> (r: &'static str) {
        "FunC"
    }

    fn extensions(&self) -> (r: Vec<&'static str>) {
        let mut all: Vec<&'static str> = Vec::new();
        all.push("fc");
        assert(str_views(all@) =~= seq!["fc"@]);
        all
    }

    fn get_mutations(&self) -> (r: &[Mutation]) {
        <FuncLanguageEngine>::get_mutations(self)
    }

    fn apply_all_mutations(&self, target: &Target, tree: &SyntaxTree) -> (r: Vec<Mutant>) {
        <FuncLanguageEngine>::apply_all_mutations(self, target, tree)
    }
}

/// The edit is one that the engine makes from the source for the
/// target: an edit of a pattern, with a slug of the catalog.
pub open spec fn is_func_language_edit(
    tree: &SyntaxTree,
    target_id: i64,
    source: Seq<u8>,
    m: MutantView,
) -> bool {
    exists|k: int|
        0 <= k < func_language_catalog().len() && is_edit_of(
            tree,
            target_id,
            source,
            (#[trigger] func_language_catalog()[k]).slug,
            m,
        )
}

/// The edits that the engine makes for one slug are edits of a pattern
/// with that slug.
#[verifier::spinoff_prover]
#[verifier::rlimit(60)]
pub proof fn lemma_func_language_slug_edits(
    tree: &SyntaxTree,
    target_id: i64,
    source: Seq<u8>,
    slug: Seq<char>,
)
    ensures
        func_language_mutants_for_slug(tree, target_id, source, slug) matches Some(found)
            ==> all_edits_of(tree, target_id, source, slug, found),
{
    if slug == "ER"@ {
        lemma_replace_entire_are_edits(
            tree,
            target_id,
            source,
            statement_kinds(),
            "ER"@,
            encode_utf8("throw(1);"@),
            encode_utf8("throw("@),
            tree.len(),
        );
    } else if slug == "CR"@ {
        lemma_wrap_are_edits(
            tree,
            target_id,
            source,
            statement_kinds(),
            "CR"@,
            encode_utf8("{- "@),
            encode_utf8(" -}"@),
            tree.len(),
        );
    } else if slug == "IF"@ {
        lemma_replace_condition_are_edits(
            tree,
            target_id,
            source,
            nodes::IF_STATEMENT@,
            fields::CONDITION@,
            seq!["if"@],
            "IF"@,
            encode_utf8("false"@),
            tree.len(),
        );
    } else if slug == "IT"@ {
        lemma_replace_condition_are_edits(
            tree,
            target_id,
            source,
            nodes::IF_STATEMENT@,
            fields::CONDITION@,
            seq!["if"@],
            "IT"@,
            encode_utf8("true"@),
            tree.len(),
        );
    } else if slug == "INF"@ {
        lemma_replace_condition_are_edits(
            tree,
            target_id,
            source,
            nodes::IFNOT_STATEMENT@,
            fields::CONDITION@,
            seq!["ifnot"@],
            "INF"@,
            encode_utf8("false"@),
            tree.len(),
        );
    } else if slug == "INT"@ {
        lemma_replace_condition_are_edits(
            tree,
            target_id,
            source,
            nodes::IFNOT_STATEMENT@,
            fields::CONDITION@,
            seq!["ifnot"@],
            "INT"@,
            encode_utf8("true"@),
            tree.len(),
        );
    } else if slug == "WF"@ {
        lemma_replace_condition_are_edits(
            tree,
            target_id,
            source,
            nodes::WHILE_STATEMENT@,
            fields::CONDITION@,
            seq!["while"@],
            "WF"@,
            encode_utf8("false"@),
            tree.len(),
        );
    } else if slug == "RZ"@ {
        lemma_replace_condition_are_edits(
            tree,
            target_id,
            source,
            nodes::REPEAT_STATEMENT@,
            fields::COUNT@,
            seq!["repeat"@],
            "RZ"@,
            encode_utf8("0"@),
            tree.len(),
        );
    } else if slug == "UF"@ {
        lemma_replace_condition_are_edits(
            tree,
            target_id,
            source,
            nodes::UNTIL_STATEMENT@,
            fields::CONDITION@,
            seq!["until"@],
            "UF"@,
            encode_utf8("false"@),
            tree.len(),
        );
    } else if slug == "AS"@ {
        lemma_swap_arguments_are_edits(
            tree,
            target_id,
            source,
            call_kinds(),
            fields::ARGUMENTS@,
            "AS"@,
            tree.len(),
        );
        lemma_swap_arguments_are_edits(
            tree,
            target_id,
            source,
            call_kinds(),
            nodes::ARGUMENT_LIST@,
            "AS"@,
            tree.len(),
        );
        lemma_edits_concat(
            tree,
            target_id,
            source,
            "AS"@,
            swap_arguments_upto(
                tree,
                target_id,
                source,
                call_kinds(),
                fields::ARGUMENTS@,
                "AS"@,
                tree.len(),
            ),
            swap_arguments_upto(
                tree,
                target_id,
                source,
                call_kinds(),
                nodes::ARGUMENT_LIST@,
                "AS"@,
                tree.len(),
            ),
        );
    } else if slug == "SU"@ {
        lemma_replace_first_argument_are_edits(
            tree,
            target_id,
            source,
            call_kinds(),
            fields::ARGUMENTS@,
            argument_list_kinds(),
            "SU"@,
            encode_utf8("store_uint"@),
            encode_utf8("0"@),
            tree.len(),
        );
    } else if slug == "SI"@ {
        lemma_replace_first_argument_are_edits(
            tree,
            target_id,
            source,
            call_kinds(),
            fields::ARGUMENTS@,
            argument_list_kinds(),
            "SI"@,
            encode_utf8("store_int"@),
            encode_utf8("0"@),
            tree.len(),
        );
    } else if slug == "SC"@ {
        lemma_replace_first_argument_are_edits(
            tree,
            target_id,
            source,
            call_kinds(),
            fields::ARGUMENTS@,
            argument_list_kinds(),
            "SC"@,
            encode_utf8("store_coins"@),
            encode_utf8("0"@),
            tree.len(),
        );
    } else if slug == "LC"@ {
        lemma_shuffle_nodes_are_edits(
            tree,
            target_id,
            source,
            loop_control_kinds(),
            loop_control_texts(),
            "LC"@,
            tree.len(),
        );
    } else if slug == "BL"@ {
        lemma_shuffle_nodes_are_edits(
            tree,
            target_id,
            source,
            boolean_kinds(),
            boolean_texts(),
            "BL"@,
            tree.len(),
        );
    } else if slug == "AOS"@ {
        lemma_shuffle_operators_are_edits(
            tree,
            target_id,
            source,
            expression_kinds(),
            arithmetic_texts(),
            "AOS"@,
            tree.len(),
        );
    } else if slug == "AAOS"@ {
        lemma_shuffle_operators_are_edits(
            tree,
            target_id,
            source,
            expression_kinds(),
            arithmetic_assignment_texts(),
            "AAOS"@,
            tree.len(),
        );
    } else if slug == "BOS"@ {
        lemma_shuffle_operators_are_edits(
            tree,
            target_id,
            source,
            expression_kinds(),
            bitwise_texts(),
            "BOS"@,
            tree.len(),
        );
    } else if slug == "BAOS"@ {
        lemma_shuffle_operators_are_edits(
            tree,
            target_id,
            source,
            expression_kinds(),
            bitwise_assignment_texts(),
            "BAOS"@,
            tree.len(),
        );
    } else if slug == "COS"@ {
        lemma_shuffle_operators_are_edits(
            tree,
            target_id,
            source,
            expression_kinds(),
            comparison_texts(),
            "COS"@,
            tree.len(),
        );
    } else if slug == "DOS"@ {
        lemma_shuffle_operators_are_edits(
            tree,
            target_id,
            source,
            expression_kinds(),
            division_texts(),
            "DOS"@,
            tree.len(),
        );
    } else if slug == "DAOS"@ {
        lemma_shuffle_operators_are_edits(
            tree,
            target_id,
            source,
            expression_kinds(),
            division_assignment_texts(),
            "DAOS"@,
            tree.len(),
        );
    } else if slug == "LOS"@ {
        lemma_shuffle_operators_are_edits(
            tree,
            target_id,
            source,
            expression_kinds(),
            logical_texts(),
            "LOS"@,
            tree.len(),
        );
    } else if slug == "MOS"@ {
        lemma_shuffle_operators_are_edits(
            tree,
            target_id,
            source,
            expression_kinds(),
            modulo_texts(),
            "MOS"@,
            tree.len(),
        );
    } else if slug == "MAOS"@ {
        lemma_shuffle_operators_are_edits(
            tree,
            target_id,
            source,
            expression_kinds(),
            modulo_assignment_texts(),
            "MAOS"@,
            tree.len(),
        );
    } else if slug == "SOS"@ {
        lemma_shuffle_operators_are_edits(
            tree,
            target_id,
            source,
            expression_kinds(),
            rounding_shift_texts(),
            "SOS"@,
            tree.len(),
        );
    } else if slug == "SAOS"@ {
        lemma_shuffle_operators_are_edits(
            tree,
            target_id,
            source,
            expression_kinds(),
            rounding_shift_assignment_texts(),
            "SAOS"@,
            tree.len(),
        );
    }
}

/// What the engine emits for the first `n` entries of its catalog are
/// edits of the engine.
pub proof fn lemma_func_language_mutants_upto_are_edits(
    tree: &SyntaxTree,
    target_id: i64,
    source: Seq<u8>,
    n: nat,
)
    requires
        n <= func_language_catalog().len(),
    ensures
        ({
            let found = func_language_mutants_upto(
                tree,
                target_id,
                source,
                func_language_catalog(),
                n,
            );
            forall|k: int|
                0 <= k < found.len() ==> is_func_language_edit(
                    tree,
                    target_id,
                    source,
                    #[trigger] found[k],
                )
        }),
    decreases n,
{
    if n > 0 {
        lemma_func_language_mutants_upto_are_edits(tree, target_id, source, (n - 1) as nat);
        let slug = func_language_catalog()[n - 1].slug;
        lemma_func_language_slug_edits(tree, target_id, source, slug);
        let earlier = func_language_mutants_upto(
            tree,
            target_id,
            source,
            func_language_catalog(),
            (n - 1) as nat,
        );
        let found = match func_language_mutants_for_slug(tree, target_id, source, slug) {
            Some(found) => found,
            None => Seq::empty(),
        };
        assert forall|k: int| 0 <= k < (earlier + found).len() implies is_func_language_edit(
            tree,
            target_id,
            source,
            #[trigger] (earlier + found)[k],
        ) by {
            if k < earlier.len() {
                assert((earlier + found)[k] == earlier[k]);
            } else {
                assert((earlier + found)[k] == found[k - earlier.len()]);
                assert(is_edit_of(
                    tree,
                    target_id,
                    source,
                    func_language_catalog()[n - 1].slug,
                    found[k - earlier.len()],
                ));
            }
        }
    }
}

/// Every edit that the engine proposes is byte-exact on the source: its
/// old text is what the source holds at its offset. It belongs to the
/// target, carries a slug of the catalog, and starts where a node starts.
pub proof fn lemma_func_language_mutants_are_edits(
    tree: &SyntaxTree,
    target_id: i64,
    source: Seq<u8>,
)
    ensures
        forall|k: int|
            0 <= k < func_language_mutants(tree, target_id, source).len() ==> is_func_language_edit(
                tree,
                target_id,
                source,
                #[trigger] func_language_mutants(tree, target_id, source)[k],
            ),
{
    lemma_func_language_mutants_upto_are_edits(
        tree,
        target_id,
        source,
        func_language_catalog().len(),
    );
}

/// The edits that the engine makes for one slug come from nodes outside
/// comments.
#[verifier::spinoff_prover]
#[verifier::rlimit(60)]
pub proof fn lemma_func_language_slug_immune(
    tree: &SyntaxTree,
    target_id: i64,
    source: Seq<u8>,
    slug: Seq<char>,
)
    ensures
        func_language_mutants_for_slug(tree, target_id, source, slug) matches Some(found)
            ==> all_immune(tree, found),
{
    if slug == "ER"@ {
        lemma_replace_entire_immune(
            tree,
            target_id,
            source,
            statement_kinds(),
            "ER"@,
            encode_utf8("throw(1);"@),
            encode_utf8("throw("@),
            tree.len(),
        );
    } else if slug == "CR"@ {
        lemma_wrap_immune(
            tree,
            target_id,
            source,
            statement_kinds(),
            "CR"@,
            encode_utf8("{- "@),
            encode_utf8(" -}"@),
            tree.len(),
        );
    } else if slug == "IF"@ {
        lemma_replace_condition_immune(
            tree,
            target_id,
            source,
            nodes::IF_STATEMENT@,
            fields::CONDITION@,
            seq!["if"@],
            "IF"@,
            encode_utf8("false"@),
            tree.len(),
        );
    } else if slug == "IT"@ {
        lemma_replace_condition_immune(
            tree,
            target_id,
            source,
            nodes::IF_STATEMENT@,
            fields::CONDITION@,
            seq!["if"@],
            "IT"@,
            encode_utf8("true"@),
            tree.len(),
        );
    } else if slug == "INF"@ {
        lemma_replace_condition_immune(
            tree,
            target_id,
            source,
            nodes::IFNOT_STATEMENT@,
            fields::CONDITION@,
            seq!["ifnot"@],
            "INF"@,
            encode_utf8("false"@),
            tree.len(),
        );
    } else if slug == "INT"@ {
        lemma_replace_condition_immune(
            tree,
            target_id,
            source,
            nodes::IFNOT_STATEMENT@,
            fields::CONDITION@,
            seq!["ifnot"@],
            "INT"@,
            encode_utf8("true"@),
            tree.len(),
        );
    } else if slug == "WF"@ {
        lemma_replace_condition_immune(
            tree,
            target_id,
            source,
            nodes::WHILE_STATEMENT@,
            fields::CONDITION@,
            seq!["while"@],
            "WF"@,
            encode_utf8("false"@),
            tree.len(),
        );
    } else if slug == "RZ"@ {
        lemma_replace_condition_immune(
            tree,
            target_id,
            source,
            nodes::REPEAT_STATEMENT@,
            fields::COUNT@,
            seq!["repeat"@],
            "RZ"@,
            encode_utf8("0"@),
            tree.len(),
        );
    } else if slug == "UF"@ {
        lemma_replace_condition_immune(
            tree,
            target_id,
            source,
            nodes::UNTIL_STATEMENT@,
            fields::CONDITION@,
            seq!["until"@],
            "UF"@,
            encode_utf8("false"@),
            tree.len(),
        );
    } else if slug == "AS"@ {
        lemma_swap_arguments_immune(
            tree,
            target_id,
            source,
            call_kinds(),
            fields::ARGUMENTS@,
            "AS"@,
            tree.len(),
        );
        lemma_swap_arguments_immune(
            tree,
            target_id,
            source,
            call_kinds(),
            nodes::ARGUMENT_LIST@,
            "AS"@,
            tree.len(),
        );
        lemma_immune_concat(
            tree,
            swap_arguments_upto(
                tree,
                target_id,
                source,
                call_kinds(),
                fields::ARGUMENTS@,
                "AS"@,
                tree.len(),
            ),
            swap_arguments_upto(
                tree,
                target_id,
                source,
                call_kinds(),
                nodes::ARGUMENT_LIST@,
                "AS"@,
                tree.len(),
            ),
        );
    } else if slug == "SU"@ {
        lemma_replace_first_argument_immune(
            tree,
            target_id,
            source,
            call_kinds(),
            fields::ARGUMENTS@,
            argument_list_kinds(),
            "SU"@,
            encode_utf8("store_uint"@),
            encode_utf8("0"@),
            tree.len(),
        );
    } else if slug == "SI"@ {
        lemma_replace_first_argument_immune(
            tree,
            target_id,
            source,
            call_kinds(),
            fields::ARGUMENTS@,
            argument_list_kinds(),
            "SI"@,
            encode_utf8("store_int"@),
            encode_utf8("0"@),
            tree.len(),
        );
    } else if slug == "SC"@ {
        lemma_replace_first_argument_immune(
            tree,
            target_id,
            source,
            call_kinds(),
            fields::ARGUMENTS@,
            argument_list_kinds(),
            "SC"@,
            encode_utf8("store_coins"@),
            encode_utf8("0"@),
            tree.len(),
        );
    } else if slug == "LC"@ {
        lemma_shuffle_nodes_immune(
            tree,
            target_id,
            source,
            loop_control_kinds(),
            loop_control_texts(),
            "LC"@,
            tree.len(),
        );
    } else if slug == "BL"@ {
        lemma_shuffle_nodes_immune(
            tree,
            target_id,
            source,
            boolean_kinds(),
            boolean_texts(),
            "BL"@,
            tree.len(),
        );
    } else if slug == "AOS"@ {
        lemma_shuffle_operators_immune(
            tree,
            target_id,
            source,
            expression_kinds(),
            arithmetic_texts(),
            "AOS"@,
            tree.len(),
        );
    } else if slug == "AAOS"@ {
        lemma_shuffle_operators_immune(
            tree,
            target_id,
            source,
            expression_kinds(),
            arithmetic_assignment_texts(),
            "AAOS"@,
            tree.len(),
        );
    } else if slug == "BOS"@ {
        lemma_shuffle_operators_immune(
            tree,
            target_id,
            source,
            expression_kinds(),
            bitwise_texts(),
            "BOS"@,
            tree.len(),
        );
    } else if slug == "BAOS"@ {
        lemma_shuffle_operators_immune(
            tree,
            target_id,
            source,
            expression_kinds(),
            bitwise_assignment_texts(),
            "BAOS"@,
            tree.len(),
        );
    } else if slug == "COS"@ {
        lemma_shuffle_operators_immune(
            tree,
            target_id,
            source,
            expression_kinds(),
            comparison_texts(),
            "COS"@,
            tree.len(),
        );
    } else if slug == "DOS"@ {
        lemma_shuffle_operators_immune(
            tree,
            target_id,
            source,
            expression_kinds(),
            division_texts(),
            "DOS"@,
            tree.len(),
        );
    } else if slug == "DAOS"@ {
        lemma_shuffle_operators_immune(
            tree,
            target_id,
            source,
            expression_kinds(),
            division_assignment_texts(),
            "DAOS"@,
            tree.len(),
        );
    } else if slug == "LOS"@ {
        lemma_shuffle_operators_immune(
            tree,
            target_id,
            source,
            expression_kinds(),
            logical_texts(),
            "LOS"@,
            tree.len(),
        );
    } else if slug == "MOS"@ {
        lemma_shuffle_operators_immune(
            tree,
            target_id,
            source,
            expression_kinds(),
            modulo_texts(),
            "MOS"@,
            tree.len(),
        );
    } else if slug == "MAOS"@ {
        lemma_shuffle_operators_immune(
            tree,
            target_id,
            source,
            expression_kinds(),
            modulo_assignment_texts(),
            "MAOS"@,
            tree.len(),
        );
    } else if slug == "SOS"@ {
        lemma_shuffle_operators_immune(
            tree,
            target_id,
            source,
            expression_kinds(),
            rounding_shift_texts(),
            "SOS"@,
            tree.len(),
        );
    } else if slug == "SAOS"@ {
        lemma_shuffle_operators_immune(
            tree,
            target_id,
            source,
            expression_kinds(),
            rounding_shift_assignment_texts(),
            "SAOS"@,
            tree.len(),
        );
    }
}

/// Whole statements are replaced and wrapped only outside comments: every
/// edit with the slug `ER` or `CR` replaces the whole text of a node that
/// is no comment and lies in none.
pub proof fn lemma_func_language_statements_outside_comments(
    tree: &SyntaxTree,
    target_id: i64,
    source: Seq<u8>,
    slug: Seq<char>,
)
    requires
        slug == "ER"@ || slug == "CR"@,
    ensures
        func_language_mutants_for_slug(tree, target_id, source, slug) matches Some(found)
            && all_replace_free_nodes(tree, source, found),
{
    if slug == "ER"@ {
        lemma_replace_entire_replaces_free_nodes(
            tree,
            target_id,
            source,
            statement_kinds(),
            "ER"@,
            encode_utf8("throw(1);"@),
            encode_utf8("throw("@),
            tree.len(),
        );
    } else {
        lemma_wrap_replaces_free_nodes(
            tree,
            target_id,
            source,
            statement_kinds(),
            "CR"@,
            encode_utf8("{- "@),
            encode_utf8(" -}"@),
            tree.len(),
        );
    }
}

/// The delimiter that opens a block comment in FunC.
pub open spec fn comment_open() -> Seq<u8> {
    seq![0x7bu8, 0x2du8]
}

/// The delimiter that closes a block comment in FunC.
pub open spec fn comment_close() -> Seq<u8> {
    seq![0x2du8, 0x7du8]
}

/// Comment replacement does not nest comments. An edit with the slug `CR`
/// puts its old text into a block comment; where the old text holds no
/// comment delimiter, the new text holds the opening delimiter at its
/// start and nowhere else, and the closing delimiter at its end and
/// nowhere else.
pub proof fn lemma_func_language_comment_replacement_is_not_nested(
    tree: &SyntaxTree,
    target_id: i64,
    source: Seq<u8>,
    k: int,
)
    requires
        0 <= k < func_language_mutants_for_slug(tree, target_id, source, "CR"@)->0.len(),
        !crate::text::contains_bytes(
            func_language_mutants_for_slug(tree, target_id, source, "CR"@)->0[k].old_text,
            comment_open(),
        ),
        !crate::text::contains_bytes(
            func_language_mutants_for_slug(tree, target_id, source, "CR"@)->0[k].old_text,
            comment_close(),
        ),
    ensures
        ({
            let edit = func_language_mutants_for_slug(tree, target_id, source, "CR"@)->0[k];
            &&& edit.new_text == in_block_comment(edit.old_text, comment_open(), comment_close())
            &&& occurs_only_at(edit.new_text, comment_open(), 0)
            &&& occurs_only_at(edit.new_text, comment_close(), edit.new_text.len() - 2)
        }),
{
    let prefix = encode_utf8("{- "@);
    let suffix = encode_utf8(" -}"@);
    let edit = func_language_mutants_for_slug(tree, target_id, source, "CR"@)->0[k];
    reveal_strlit("ER");
    reveal_strlit("CR");
    assert("ER"@[0] == 'E' && "CR"@[0] == 'C');
    reveal_strlit("{- ");
    reveal_strlit(" -}");
    assert("{- "@[0] == '{' && "{- "@[1] == '-' && "{- "@[2] == ' ');
    assert(" -}"@[0] == ' ' && " -}"@[1] == '-' && " -}"@[2] == '}');
    is_ascii_chars_encode_utf8("{- "@);
    is_ascii_chars_encode_utf8(" -}"@);
    assert(prefix =~= comment_open() + seq![0x20u8]);
    assert(suffix =~= seq![0x20u8] + comment_close());
    lemma_wrap_is_wrapping(
        tree,
        target_id,
        source,
        statement_kinds(),
        "CR"@,
        encode_utf8("{- "@),
        encode_utf8(" -}"@),
        tree.len(),
    );
    assert(is_wrapping(edit, prefix, suffix));
    assert(edit.new_text =~= in_block_comment(edit.old_text, comment_open(), comment_close()));
    lemma_block_comment_is_not_nested(edit.old_text, comment_open(), comment_close());
}

/// What the engine emits for the first `n` entries of its catalog comes
/// from nodes outside comments.
pub proof fn lemma_func_language_mutants_upto_are_immune(
    tree: &SyntaxTree,
    target_id: i64,
    source: Seq<u8>,
    n: nat,
)
    requires
        n <= func_language_catalog().len(),
    ensures
        all_immune(
            tree,
            func_language_mutants_upto(tree, target_id, source, func_language_catalog(), n),
        ),
    decreases n,
{
    if n > 0 {
        lemma_func_language_mutants_upto_are_immune(tree, target_id, source, (n - 1) as nat);
        let slug = func_language_catalog()[n - 1].slug;
        lemma_func_language_slug_immune(tree, target_id, source, slug);
        lemma_immune_concat(
            tree,
            func_language_mutants_upto(
                tree,
                target_id,
                source,
                func_language_catalog(),
                (n - 1) as nat,
            ),
            match func_language_mutants_for_slug(tree, target_id, source, slug) {
                Some(found) => found,
                None => Seq::empty(),
            },
        );
    }
}

/// Comment immunity. Every edit that the engine proposes was made by a
/// pattern that acted on a node which is no comment and lies in none; the
/// edit starts at that node, at one of its children, or at a child of one
/// of its children, and the node at which it starts is no comment and
/// lies in none either.
pub proof fn lemma_func_language_mutants_are_immune(
    tree: &SyntaxTree,
    target_id: i64,
    source: Seq<u8>,
)
    ensures
        all_immune(tree, func_language_mutants(tree, target_id, source)),
{
    lemma_func_language_mutants_upto_are_immune(
        tree,
        target_id,
        source,
        func_language_catalog().len(),
    );
}

/// The place of a slug in the merged catalog, or -1.
pub open spec fn func_language_slug_place(slug: Seq<char>) -> int {
    if slug == "ER"@ {
        0
    } else if slug == "CR"@ {
        1
    } else if slug == "IF"@ {
        2
    } else if slug == "IT"@ {
        3
    } else if slug == "WF"@ {
        4
    } else if slug == "AS"@ {
        5
    } else if slug == "LC"@ {
        6
    } else if slug == "BL"@ {
        7
    } else if slug == "AOS"@ {
        8
    } else if slug == "AAOS"@ {
        9
    } else if slug == "BOS"@ {
        10
    } else if slug == "BAOS"@ {
        11
    } else if slug == "LOS"@ {
        12
    } else if slug == "COS"@ {
        13
    } else if slug == "SOS"@ {
        14
    } else if slug == "SAOS"@ {
        15
    } else if slug == "INF"@ {
        16
    } else if slug == "INT"@ {
        17
    } else if slug == "RZ"@ {
        18
    } else if slug == "UF"@ {
        19
    } else if slug == "SU"@ {
        20
    } else if slug == "SI"@ {
        21
    } else if slug == "SC"@ {
        22
    } else if slug == "DOS"@ {
        23
    } else if slug == "DAOS"@ {
        24
    } else if slug == "MOS"@ {
        25
    } else if slug == "MAOS"@ {
        26
    } else {
        -1
    }
}

/// Each entry of the merged catalog is the first with its slug.
#[verifier::spinoff_prover]
#[verifier::rlimit(100)]
proof fn lemma_func_language_slug_places()
    ensures
        forall|k: int|
            0 <= k < func_language_catalog().len() ==> func_language_slug_place(
                (#[trigger] func_language_catalog()[k]).slug,
            ) == k,
{
    reveal_strlit("ER");
    reveal_strlit("CR");
    reveal_strlit("IF");
    reveal_strlit("IT");
    reveal_strlit("WF");
    reveal_strlit("AS");
    reveal_strlit("LC");
    reveal_strlit("BL");
    reveal_strlit("AOS");
    reveal_strlit("AAOS");
    reveal_strlit("BOS");
    reveal_strlit("BAOS");
    reveal_strlit("LOS");
    reveal_strlit("COS");
    reveal_strlit("SOS");
    reveal_strlit("SAOS");
    reveal_strlit("INF");
    reveal_strlit("INT");
    reveal_strlit("RZ");
    reveal_strlit("UF");
    reveal_strlit("SU");
    reveal_strlit("SI");
    reveal_strlit("SC");
    reveal_strlit("DOS");
    reveal_strlit("DAOS");
    reveal_strlit("MOS");
    reveal_strlit("MAOS");
    assert("ER"@.len() == 2 && "ER"@[0] == 'E' && "ER"@[1] == 'R');
    assert("CR"@.len() == 2 && "CR"@[0] == 'C' && "CR"@[1] == 'R');
    assert("IF"@.len() == 2 && "IF"@[0] == 'I' && "IF"@[1] == 'F');
    assert("IT"@.len() == 2 && "IT"@[0] == 'I' && "IT"@[1] == 'T');
    assert("WF"@.len() == 2 && "WF"@[0] == 'W' && "WF"@[1] == 'F');
    assert("AS"@.len() == 2 && "AS"@[0] == 'A' && "AS"@[1] == 'S');
    assert("LC"@.len() == 2 && "LC"@[0] == 'L' && "LC"@[1] == 'C');
    assert("BL"@.len() == 2 && "BL"@[0] == 'B' && "BL"@[1] == 'L');
    assert("AOS"@.len() == 3 && "AOS"@[0] == 'A' && "AOS"@[1] == 'O' && "AOS"@[2] == 'S');
    assert("AAOS"@.len() == 4
        && "AAOS"@[0] == 'A'
        && "AAOS"@[1] == 'A'
        && "AAOS"@[2] == 'O'
        && "AAOS"@[3] == 'S');
    assert("BOS"@.len() == 3 && "BOS"@[0] == 'B' && "BOS"@[1] == 'O' && "BOS"@[2] == 'S');
    assert("BAOS"@.len() == 4
        && "BAOS"@[0] == 'B'
        && "BAOS"@[1] == 'A'
        && "BAOS"@[2] == 'O'
        && "BAOS"@[3] == 'S');
    assert("LOS"@.len() == 3 && "LOS"@[0] == 'L' && "LOS"@[1] == 'O' && "LOS"@[2] == 'S');
    assert("COS"@.len() == 3 && "COS"@[0] == 'C' && "COS"@[1] == 'O' && "COS"@[2] == 'S');
    assert("SOS"@.len() == 3 && "SOS"@[0] == 'S' && "SOS"@[1] == 'O' && "SOS"@[2] == 'S');
    assert("SAOS"@.len() == 4
        && "SAOS"@[0] == 'S'
        && "SAOS"@[1] == 'A'
        && "SAOS"@[2] == 'O'
        && "SAOS"@[3] == 'S');
    assert("INF"@.len() == 3 && "INF"@[0] == 'I' && "INF"@[1] == 'N' && "INF"@[2] == 'F');
    assert("INT"@.len() == 3 && "INT"@[0] == 'I' && "INT"@[1] == 'N' && "INT"@[2] == 'T');
    assert("RZ"@.len() == 2 && "RZ"@[0] == 'R' && "RZ"@[1] == 'Z');
    assert("UF"@.len() == 2 && "UF"@[0] == 'U' && "UF"@[1] == 'F');
    assert("SU"@.len() == 2 && "SU"@[0] == 'S' && "SU"@[1] == 'U');
    assert("SI"@.len() == 2 && "SI"@[0] == 'S' && "SI"@[1] == 'I');
    assert("SC"@.len() == 2 && "SC"@[0] == 'S' && "SC"@[1] == 'C');
    assert("DOS"@.len() == 3 && "DOS"@[0] == 'D' && "DOS"@[1] == 'O' && "DOS"@[2] == 'S');
    assert("DAOS"@.len() == 4
        && "DAOS"@[0] == 'D'
        && "DAOS"@[1] == 'A'
        && "DAOS"@[2] == 'O'
        && "DAOS"@[3] == 'S');
    assert("MOS"@.len() == 3 && "MOS"@[0] == 'M' && "MOS"@[1] == 'O' && "MOS"@[2] == 'S');
    assert("MAOS"@.len() == 4
        && "MAOS"@[0] == 'M'
        && "MAOS"@[1] == 'A'
        && "MAOS"@[2] == 'O'
        && "MAOS"@[3] == 'S');
    let c = func_language_catalog();
    assert(c[0].slug == "ER"@ && func_language_slug_place("ER"@) == 0);
    assert(c[1].slug == "CR"@ && func_language_slug_place("CR"@) == 1);
    assert(c[2].slug == "IF"@ && func_language_slug_place("IF"@) == 2);
    assert(c[3].slug == "IT"@ && func_language_slug_place("IT"@) == 3);
    assert(c[4].slug == "WF"@ && func_language_slug_place("WF"@) == 4);
    assert(c[5].slug == "AS"@ && func_language_slug_place("AS"@) == 5);
    assert(c[6].slug == "LC"@ && func_language_slug_place("LC"@) == 6);
    assert(c[7].slug == "BL"@ && func_language_slug_place("BL"@) == 7);
    assert(c[8].slug == "AOS"@ && func_language_slug_place("AOS"@) == 8);
    assert(c[9].slug == "AAOS"@ && func_language_slug_place("AAOS"@) == 9);
    assert(c[10].slug == "BOS"@ && func_language_slug_place("BOS"@) == 10);
    assert(c[11].slug == "BAOS"@ && func_language_slug_place("BAOS"@) == 11);
    assert(c[12].slug == "LOS"@ && func_language_slug_place("LOS"@) == 12);
    assert(c[13].slug == "COS"@ && func_language_slug_place("COS"@) == 13);
    assert(c[14].slug == "SOS"@ && func_language_slug_place("SOS"@) == 14);
    assert(c[15].slug == "SAOS"@ && func_language_slug_place("SAOS"@) == 15);
    assert(c[16].slug == "INF"@ && func_language_slug_place("INF"@) == 16);
    assert(c[17].slug == "INT"@ && func_language_slug_place("INT"@) == 17);
    assert(c[18].slug == "RZ"@ && func_language_slug_place("RZ"@) == 18);
    assert(c[19].slug == "UF"@ && func_language_slug_place("UF"@) == 19);
    assert(c[20].slug == "SU"@ && func_language_slug_place("SU"@) == 20);
    assert(c[21].slug == "SI"@ && func_language_slug_place("SI"@) == 21);
    assert(c[22].slug == "SC"@ && func_language_slug_place("SC"@) == 22);
    assert(c[23].slug == "DOS"@ && func_language_slug_place("DOS"@) == 23);
    assert(c[24].slug == "DAOS"@ && func_language_slug_place("DAOS"@) == 24);
    assert(c[25].slug == "MOS"@ && func_language_slug_place("MOS"@) == 25);
    assert(c[26].slug == "MAOS"@ && func_language_slug_place("MAOS"@) == 26);
    assert forall|k: int| 0 <= k < c.len() implies func_language_slug_place(
        (#[trigger] c[k]).slug,
    ) == k by {
        if k == 0 {
        } else if k == 1 {
        } else if k == 2 {
        } else if k == 3 {
        } else if k == 4 {
        } else if k == 5 {
        } else if k == 6 {
        } else if k == 7 {
        } else if k == 8 {
        } else if k == 9 {
        } else if k == 10 {
        } else if k == 11 {
        } else if k == 12 {
        } else if k == 13 {
        } else if k == 14 {
        } else if k == 15 {
        } else if k == 16 {
        } else if k == 17 {
        } else if k == 18 {
        } else if k == 19 {
        } else if k == 20 {
        } else if k == 21 {
        } else if k == 22 {
        } else if k == 23 {
        } else if k == 24 {
        } else if k == 25 {
        } else if k == 26 {
        }
    }
}

/// No two entries of the merged catalog have the same slug.
pub proof fn lemma_func_language_catalog_has_no_duplicates()
    ensures
        ({
            let catalog = func_language_catalog();
            forall|i: int, j: int|
                0 <= i < j < catalog.len() ==> (#[trigger] catalog[i]).slug != (
                #[trigger] catalog[j]).slug
        }),
{
    lemma_func_language_slug_places();
}

/// Every slug of the merged catalog is one that the engine knows: for
/// each entry it makes the edits of a pattern.
pub proof fn lemma_func_language_catalog_is_dispatched(
    tree: &SyntaxTree,
    target_id: i64,
    source: Seq<u8>,
    i: int,
)
    requires
        0 <= i < func_language_catalog().len(),
    ensures
        ({
            let slug = func_language_catalog()[i].slug;
            func_language_mutants_for_slug(tree, target_id, source, slug) is Some
        }),
{
}

} // verus!
