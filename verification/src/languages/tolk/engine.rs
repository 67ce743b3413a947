//! The Tolk language engine: the common catalog and, for each of its
//! slugs, the pattern that makes its edits.

use crate::cst::{str_views, SyntaxTree};
use crate::languages::LanguageEngine;
use crate::languages::tolk::kinds::{tolk_mutations, tolk_only_catalog};
use crate::languages::tolk::syntax::{fields, nodes};
use crate::mutations::common::immunity::{
    all_immune,
    all_replace_free_nodes,
    in_block_comment,
    is_wrapping,
    lemma_block_comment_is_not_nested,
    lemma_immune_concat,
    lemma_replace_condition_immune,
    lemma_replace_entire_immune,
    lemma_replace_entire_replaces_free_nodes,
    lemma_shuffle_nodes_immune,
    lemma_shuffle_operators_immune,
    lemma_swap_arguments_immune,
    lemma_wrap_immune,
    lemma_wrap_is_wrapping,
    lemma_wrap_replaces_free_nodes,
    occurs_only_at,
};
use crate::mutations::common::kinds::{common_catalog, common_mutations};
use crate::mutations::common::laws::{
    all_edits_of,
    is_edit_of,
    lemma_replace_condition_are_edits,
    lemma_replace_entire_are_edits,
    lemma_shuffle_nodes_are_edits,
    lemma_shuffle_operators_are_edits,
    lemma_swap_arguments_are_edits,
    lemma_wrap_are_edits,
};
use crate::mutations::common::operators::{
    arithmetic_assignment_set,
    arithmetic_assignment_texts,
    arithmetic_set,
    arithmetic_texts,
    bitwise_assignment_set,
    bitwise_assignment_texts,
    bitwise_set,
    bitwise_texts,
    boolean_set,
    boolean_texts,
    comparison_set,
    comparison_texts,
    logical_set,
    logical_texts,
    loop_control_set,
    loop_control_texts,
    shift_assignment_set,
    shift_assignment_texts,
    shift_set,
    shift_texts,
};
use crate::mutations::common::patterns::{
    replace_condition_for_nodes_of_kind,
    replace_condition_upto,
    replace_entire_nodes_of_kinds_filtered,
    replace_entire_upto,
    shuffle_nodes,
    shuffle_nodes_upto,
    shuffle_operators_in_expressions,
    shuffle_operators_upto,
    swap_adjacent_arguments_for_kinds,
    swap_arguments_upto,
    wrap_nodes_of_kinds_with_wrappers,
    wrap_upto,
};
use crate::mutations::common::slugs::{sorted_unique_slugs, strictly_ascending, string_views};
use crate::mutations::engine_traits::MutationEngine;
use crate::text::str_eq;
use crate::types::mutants::{append_mutants, Mutant, mutant_views, MutantView};
use crate::types::mutations::{
    find_severity,
    Mutation,
    mutation_views,
    MutationSeverity,
    MutationView,
    severity_in,
    slugs_of,
};
use crate::types::targets::Target;
use vstd::prelude::*;
use vstd::utf8::*;

verus! {

/// The merged catalog of Tolk: the common kinds, then Tolk's own.
pub open spec fn tolk_catalog() -> Seq<MutationView> {
    common_catalog() + tolk_only_catalog()
}

/// The kinds of statement that are replaced and wrapped as a whole.
pub open spec fn statement_kinds() -> Seq<Seq<char>> {
    seq![
        nodes::EXPRESSION_STATEMENT@,
        nodes::RETURN_STATEMENT@,
        nodes::IF_STATEMENT@,
        nodes::WHILE_STATEMENT@,
        nodes::DO_WHILE_STATEMENT@,
    ]
}

/// The kinds of statement that are replaced and wrapped as a whole.
fn statement_kind_list() -> (r: [&'static str; 5])
    ensures
        str_views(r@) == statement_kinds(),
{
    let kinds = [
        nodes::EXPRESSION_STATEMENT,
        nodes::RETURN_STATEMENT,
        nodes::IF_STATEMENT,
        nodes::WHILE_STATEMENT,
        nodes::DO_WHILE_STATEMENT,
    ];
    assert(str_views(kinds@) =~= statement_kinds());
    kinds
}

/// The kinds of call.
pub open spec fn call_kinds() -> Seq<Seq<char>> {
    seq![nodes::FUNCTION_CALL@]
}

/// The kinds of call.
fn call_kind_list() -> (r: [&'static str; 1])
    ensures
        str_views(r@) == call_kinds(),
{
    let kinds = [nodes::FUNCTION_CALL];
    assert(str_views(kinds@) =~= call_kinds());
    kinds
}

/// The kinds of loop control statement.
pub open spec fn loop_control_kinds() -> Seq<Seq<char>> {
    seq![nodes::BREAK_STATEMENT@, nodes::CONTINUE_STATEMENT@]
}

/// The kinds of loop control statement.
fn loop_control_kind_list() -> (r: [&'static str; 2])
    ensures
        str_views(r@) == loop_control_kinds(),
{
    let kinds = [nodes::BREAK_STATEMENT, nodes::CONTINUE_STATEMENT];
    assert(str_views(kinds@) =~= loop_control_kinds());
    kinds
}

/// The kinds of boolean literal.
pub open spec fn boolean_kinds() -> Seq<Seq<char>> {
    seq![nodes::BOOLEAN_LITERAL@]
}

/// The kinds of boolean literal.
fn boolean_kind_list() -> (r: [&'static str; 1])
    ensures
        str_views(r@) == boolean_kinds(),
{
    let kinds = [nodes::BOOLEAN_LITERAL];
    assert(str_views(kinds@) =~= boolean_kinds());
    kinds
}

/// The kinds of expression that hold operators.
pub open spec fn expression_kinds() -> Seq<Seq<char>> {
    seq![nodes::BINARY_OPERATOR@]
}

/// The kinds of expression that hold operators.
fn expression_kind_list() -> (r: [&'static str; 1])
    ensures
        str_views(r@) == expression_kinds(),
{
    let kinds = [nodes::BINARY_OPERATOR];
    assert(str_views(kinds@) =~= expression_kinds());
    kinds
}

/// The kinds of expression that hold assignment operators.
pub open spec fn assignment_kinds() -> Seq<Seq<char>> {
    seq![nodes::ASSIGNMENT@]
}

/// The kinds of expression that hold assignment operators.
fn assignment_kind_list() -> (r: [&'static str; 1])
    ensures
        str_views(r@) == assignment_kinds(),
{
    let kinds = [nodes::ASSIGNMENT];
    assert(str_views(kinds@) =~= assignment_kinds());
    kinds
}

/// The edits that the engine makes for one slug, with the node kinds,
/// fields and texts of Tolk. A slug that the engine does not know has none.
pub open spec fn tolk_mutants_for_slug(
    tree: &SyntaxTree,
    target_id: i64,
    source: Seq<u8>,
    slug: Seq<char>,
) -> Option<Seq<MutantView>> {
    if slug == "ER"@ {
        Some(
            replace_entire_upto(
                tree,
                target_id,
                source,
                statement_kinds(),
                "ER"@,
                encode_utf8("throw 1;"@),
                encode_utf8("throw "@),
                tree.len(),
            ),
        )
    } else if slug == "CR"@ {
        Some(
            wrap_upto(
                tree,
                target_id,
                source,
                statement_kinds(),
                "CR"@,
                encode_utf8("/* "@),
                encode_utf8(" */"@),
                tree.len(),
            ),
        )
    } else if slug == "IF"@ {
        Some(
            replace_condition_upto(
                tree,
                target_id,
                source,
                nodes::IF_STATEMENT@,
                fields::CONDITION@,
                seq!["if"@],
                "IF"@,
                encode_utf8("false"@),
                tree.len(),
            ),
        )
    } else if slug == "IT"@ {
        Some(
            replace_condition_upto(
                tree,
                target_id,
                source,
                nodes::IF_STATEMENT@,
                fields::CONDITION@,
                seq!["if"@],
                "IT"@,
                encode_utf8("true"@),
                tree.len(),
            ),
        )
    } else if slug == "WF"@ {
        Some(
            replace_condition_upto(
                tree,
                target_id,
                source,
                nodes::WHILE_STATEMENT@,
                fields::CONDITION@,
                seq!["while"@],
                "WF"@,
                encode_utf8("false"@),
                tree.len(),
            ),
        )
    } else if slug == "AS"@ {
        Some(
            swap_arguments_upto(
                tree,
                target_id,
                source,
                call_kinds(),
                fields::ARGUMENTS@,
                "AS"@,
                tree.len(),
            ),
        )
    } else if slug == "LC"@ {
        Some(
            shuffle_nodes_upto(
                tree,
                target_id,
                source,
                loop_control_kinds(),
                loop_control_texts(),
                "LC"@,
                tree.len(),
            ),
        )
    } else if slug == "BL"@ {
        Some(
            shuffle_nodes_upto(
                tree,
                target_id,
                source,
                boolean_kinds(),
                boolean_texts(),
                "BL"@,
                tree.len(),
            ),
        )
    } else if slug == "AOS"@ {
        Some(
            shuffle_operators_upto(
                tree,
                target_id,
                source,
                expression_kinds(),
                arithmetic_texts(),
                "AOS"@,
                tree.len(),
            ),
        )
    } else if slug == "AAOS"@ {
        Some(
            shuffle_operators_upto(
                tree,
                target_id,
                source,
                assignment_kinds(),
                arithmetic_assignment_texts(),
                "AAOS"@,
                tree.len(),
            ),
        )
    } else if slug == "BOS"@ {
        Some(
            shuffle_operators_upto(
                tree,
                target_id,
                source,
                expression_kinds(),
                bitwise_texts(),
                "BOS"@,
                tree.len(),
            ),
        )
    } else if slug == "BAOS"@ {
        Some(
            shuffle_operators_upto(
                tree,
                target_id,
                source,
                assignment_kinds(),
                bitwise_assignment_texts(),
                "BAOS"@,
                tree.len(),
            ),
        )
    } else if slug == "COS"@ {
        Some(
            shuffle_operators_upto(
                tree,
                target_id,
                source,
                expression_kinds(),
                comparison_texts(),
                "COS"@,
                tree.len(),
            ),
        )
    } else if slug == "LOS"@ {
        Some(
            shuffle_operators_upto(
                tree,
                target_id,
                source,
                expression_kinds(),
                logical_texts(),
                "LOS"@,
                tree.len(),
            ),
        )
    } else if slug == "SOS"@ {
        Some(
            shuffle_operators_upto(
                tree,
                target_id,
                source,
                expression_kinds(),
                shift_texts(),
                "SOS"@,
                tree.len(),
            ),
        )
    } else if slug == "SAOS"@ {
        Some(
            shuffle_operators_upto(
                tree,
                target_id,
                source,
                assignment_kinds(),
                shift_assignment_texts(),
                "SAOS"@,
                tree.len(),
            ),
        )
    } else {
        None
    }
}

/// What the engine emits for the first `n` entries of a catalog: for
/// each entry in turn, the edits of its slug.
pub open spec fn tolk_mutants_upto(
    tree: &SyntaxTree,
    target_id: i64,
    source: Seq<u8>,
    catalog: Seq<MutationView>,
    n: nat,
) -> Seq<MutantView>
    decreases n,
{
    if n == 0 {
        Seq::empty()
    } else {
        tolk_mutants_upto(tree, target_id, source, catalog, (n - 1) as nat) + (
        match tolk_mutants_for_slug(tree, target_id, source, catalog[n - 1].slug) {
            Some(found) => found,
            None => Seq::empty(),
        })
    }
}

/// All the edits that the engine proposes for a source and its tree: the
/// edits of every slug of the catalog, in catalog order.
pub open spec fn tolk_mutants(
    tree: &SyntaxTree,
    target_id: i64,
    source: Seq<u8>,
) -> Seq<MutantView> {
    let catalog = tolk_catalog();
    tolk_mutants_upto(tree, target_id, source, catalog, catalog.len())
}

/// The edits for one slug.
#[verifier::spinoff_prover]
#[verifier::rlimit(60)]
fn mutants_for_slug(target: &Target, tree: &SyntaxTree, slug: &str) -> (r: Option<Vec<Mutant>>)
    ensures
        match r {
            Some(found) => tolk_mutants_for_slug(tree, target.id, target.bytes(), slug@)
                == Some(mutant_views(found@)),
            None => tolk_mutants_for_slug(tree, target.id, target.bytes(), slug@) is None,
        },
{
    let source = target.text.as_str();
    if str_eq(slug, "ER") {
        return Some(
            replace_entire_nodes_of_kinds_filtered(
                target,
                tree,
                source,
                statement_kind_list().as_slice(),
                "ER",
                "throw 1;",
                "throw ",
            ),
        );
    }
    if str_eq(slug, "CR") {
        return Some(
            wrap_nodes_of_kinds_with_wrappers(
                target,
                tree,
                source,
                statement_kind_list().as_slice(),
                "CR",
                "/* ",
                " */",
            ),
        );
    }
    if str_eq(slug, "IF") {
        let keywords = ["if"];
        assert(str_views(keywords@) =~= seq!["if"@]);
        return Some(
            replace_condition_for_nodes_of_kind(
                target,
                tree,
                source,
                nodes::IF_STATEMENT,
                fields::CONDITION,
                keywords.as_slice(),
                "IF",
                "false",
            ),
        );
    }
    if str_eq(slug, "IT") {
        let keywords = ["if"];
        assert(str_views(keywords@) =~= seq!["if"@]);
        return Some(
            replace_condition_for_nodes_of_kind(
                target,
                tree,
                source,
                nodes::IF_STATEMENT,
                fields::CONDITION,
                keywords.as_slice(),
                "IT",
                "true",
            ),
        );
    }
    if str_eq(slug, "WF") {
        let keywords = ["while"];
        assert(str_views(keywords@) =~= seq!["while"@]);
        return Some(
            replace_condition_for_nodes_of_kind(
                target,
                tree,
                source,
                nodes::WHILE_STATEMENT,
                fields::CONDITION,
                keywords.as_slice(),
                "WF",
                "false",
            ),
        );
    }
    if str_eq(slug, "AS") {
        return Some(
            swap_adjacent_arguments_for_kinds(
                target,
                tree,
                source,
                call_kind_list().as_slice(),
                fields::ARGUMENTS,
                "AS",
            ),
        );
    }
    if str_eq(slug, "LC") {
        return Some(
            shuffle_nodes(
                target,
                tree,
                source,
                loop_control_kind_list().as_slice(),
                loop_control_set().as_slice(),
                "LC",
            ),
        );
    }
    if str_eq(slug, "BL") {
        return Some(
            shuffle_nodes(
                target,
                tree,
                source,
                boolean_kind_list().as_slice(),
                boolean_set().as_slice(),
                "BL",
            ),
        );
    }
    if str_eq(slug, "AOS") {
        return Some(
            shuffle_operators_in_expressions(
                target,
                tree,
                source,
                expression_kind_list().as_slice(),
                arithmetic_set().as_slice(),
                "AOS",
            ),
        );
    }
    if str_eq(slug, "AAOS") {
        return Some(
            shuffle_operators_in_expressions(
                target,
                tree,
                source,
                assignment_kind_list().as_slice(),
                arithmetic_assignment_set().as_slice(),
                "AAOS",
            ),
        );
    }
    if str_eq(slug, "BOS") {
        return Some(
            shuffle_operators_in_expressions(
                target,
                tree,
                source,
                expression_kind_list().as_slice(),
                bitwise_set().as_slice(),
                "BOS",
            ),
        );
    }
    if str_eq(slug, "BAOS") {
        return Some(
            shuffle_operators_in_expressions(
                target,
                tree,
                source,
                assignment_kind_list().as_slice(),
                bitwise_assignment_set().as_slice(),
                "BAOS",
            ),
        );
    }
    if str_eq(slug, "COS") {
        return Some(
            shuffle_operators_in_expressions(
                target,
                tree,
                source,
                expression_kind_list().as_slice(),
                comparison_set().as_slice(),
                "COS",
            ),
        );
    }
    if str_eq(slug, "LOS") {
        return Some(
            shuffle_operators_in_expressions(
                target,
                tree,
                source,
                expression_kind_list().as_slice(),
                logical_set().as_slice(),
                "LOS",
            ),
        );
    }
    if str_eq(slug, "SOS") {
        return Some(
            shuffle_operators_in_expressions(
                target,
                tree,
                source,
                expression_kind_list().as_slice(),
                shift_set().as_slice(),
                "SOS",
            ),
        );
    }
    if str_eq(slug, "SAOS") {
        return Some(
            shuffle_operators_in_expressions(
                target,
                tree,
                source,
                assignment_kind_list().as_slice(),
                shift_assignment_set().as_slice(),
                "SAOS",
            ),
        );
    }
    None
}

/// The language engine of the Tolk dialect.
pub struct TolkLanguageEngine {
    mutations: Vec<Mutation>,
}

impl TolkLanguageEngine {
    #[verifier::type_invariant]
    spec fn holds_catalog(self) -> bool {
        mutation_views(self.mutations@) == tolk_catalog()
    }

    /// The catalog that the engine holds.
    pub closed spec fn held(&self) -> Seq<MutationView> {
        mutation_views(self.mutations@)
    }

    /// An engine with the merged catalog of Tolk.
    pub fn new() -> (r: Self)
        ensures
            r.held() == tolk_catalog(),
    {
        let mut mutations: Vec<Mutation> = common_mutations();
        let mut own = tolk_mutations();
        let ghost head = mutation_views(mutations@);
        let ghost tail = mutation_views(own@);
        mutations.append(&mut own);
        assert(mutation_views(mutations@) =~= head + tail);
        Self { mutations }
    }

    /// Get all mutations for this engine.
    pub fn get_mutations(&self) -> (r: &[Mutation])
        ensures
            mutation_views(r@) == tolk_catalog(),
            self.held() == tolk_catalog(),
    {
        proof {
            use_type_invariant(self);
        }
        self.mutations.as_slice()
    }

    /// Apply all mutations to a target: the edits of every slug of the
    /// catalog, in catalog order, for the target's text and its tree.
    pub fn apply_all_mutations(&self, target: &Target, tree: &SyntaxTree) -> (r: Vec<Mutant>)
        ensures
            mutant_views(r@) == tolk_mutants(tree, target.id, target.bytes()),
    {
        proof {
            use_type_invariant(self);
        }
        let mut all_mutants: Vec<Mutant> = Vec::new();
        let mut k: usize = 0;
        assert(mutant_views(all_mutants@) =~= Seq::<MutantView>::empty());
        while k < self.mutations.len()
            invariant
                k <= self.mutations@.len(),
                mutation_views(self.mutations@) == tolk_catalog(),
                mutant_views(all_mutants@) == tolk_mutants_upto(
                    tree,
                    target.id,
                    target.bytes(),
                    tolk_catalog(),
                    k as nat,
                ),
            decreases self.mutations@.len() - k,
        {
            let ghost before = mutant_views(all_mutants@);
            assert(tolk_catalog()[k as int].slug == self.mutations@[k as int].slug@);
            match mutants_for_slug(target, tree, self.mutations[k].slug) {
                Some(found) => {
                    append_mutants(&mut all_mutants, found);
                },
                None => {
                    assert(before + Seq::<MutantView>::empty() =~= before);
                },
            }
            k += 1;
        }
        all_mutants
    }

    /// Get all unique mutation slugs, in the order of strings.
    pub fn get_all_slugs(&self) -> (r: Vec<String>)
        ensures
            strictly_ascending(string_views(r@)),
            forall|s: Seq<char>|
                string_views(r@).contains(s) <==> slugs_of(tolk_catalog()).contains(s),
    {
        proof {
            use_type_invariant(self);
        }
        sorted_unique_slugs(self.mutations.as_slice())
    }

    /// Get the severity for a mutation slug: that of the first entry of
    /// the catalog with the slug.
    pub fn get_severity_by_slug(&self, slug: &str) -> (r: Option<MutationSeverity>)
        ensures
            r == severity_in(tolk_catalog(), slug@),
    {
        proof {
            use_type_invariant(self);
        }
        find_severity(self.mutations.as_slice(), slug)
    }
}

impl Default for TolkLanguageEngine {
    fn default() -> (r: Self)
        ensures
            r.held() == tolk_catalog(),
    {
        Self::new()
    }
}

impl LanguageEngine for TolkLanguageEngine {
    open spec fn engine_name(&self) -> Seq<char> {
        "Tolk"@
    }

    open spec fn engine_extensions(&self) -> Seq<Seq<char>> {
        seq!["tolk"@]
    }

    open spec fn catalog(&self) -> Seq<MutationView> {
        tolk_catalog()
    }

    open spec fn mutants(&self, tree: &SyntaxTree, target_id: i64, source: Seq<u8>) -> Seq<
        MutantView,
    > {
        tolk_mutants(tree, target_id, source)
    }

    fn name(&self) -> (r: &'static str) {
        "Tolk"
    }

    fn extensions(&self) -> (r: Vec<&'static str>) {
        let mut all: Vec<&'static str> = Vec::new();
        all.push("tolk");
        assert(str_views(all@) =~= seq!["tolk"@]);
        all
    }

    fn get_mutations(&self) -> (r: &[Mutation]) {
        <TolkLanguageEngine>::get_mutations(self)
    }

    fn apply_all_mutations(&self, target: &Target, tree: &SyntaxTree) -> (r: Vec<Mutant>) {
        <TolkLanguageEngine>::apply_all_mutations(self, target, tree)
    }
}

impl MutationEngine for TolkLanguageEngine {
    open spec fn catalog(&self) -> Seq<MutationView> {
        tolk_catalog()
    }

    open spec fn mutants(&self, tree: &SyntaxTree, target_id: i64, source: Seq<u8>) -> Seq<
        MutantView,
    > {
        tolk_mutants(tree, target_id, source)
    }

    fn get_mutations(&self) -> (r: &[Mutation]) {
        <TolkLanguageEngine>::get_mutations(self)
    }

    fn apply_all_mutations(&self, target: &Target, tree: &SyntaxTree) -> (r: Vec<Mutant>) {
        <TolkLanguageEngine>::apply_all_mutations(self, target, tree)
    }

    fn get_all_slugs(&self) -> (r: Vec<String>) {
        <TolkLanguageEngine>::get_all_slugs(self)
    }

    fn get_severity_by_slug(&self, slug: &str) -> (r: Option<MutationSeverity>) {
        <TolkLanguageEngine>::get_severity_by_slug(self, slug)
    }
}

/// The edit is one that the engine makes from the source for the
/// target: an edit of a pattern, with a slug of the catalog.
pub open spec fn is_tolk_edit(
    tree: &SyntaxTree,
    target_id: i64,
    source: Seq<u8>,
    m: MutantView,
) -> bool {
    exists|k: int|
        0 <= k < tolk_catalog().len() && is_edit_of(
            tree,
            target_id,
            source,
            (#[trigger] tolk_catalog()[k]).slug,
            m,
        )
}

/// The edits that the engine makes for one slug are edits of a pattern
/// with that slug.
#[verifier::spinoff_prover]
#[verifier::rlimit(60)]
pub proof fn lemma_tolk_slug_edits(
    tree: &SyntaxTree,
    target_id: i64,
    source: Seq<u8>,
    slug: Seq<char>,
)
    ensures
        tolk_mutants_for_slug(tree, target_id, source, slug) matches Some(found)
            ==> all_edits_of(tree, target_id, source, slug, found),
{
    if slug == "ER"@ {
        lemma_replace_entire_are_edits(
            tree,
            target_id,
            source,
            statement_kinds(),
            "ER"@,
            encode_utf8("throw 1;"@),
            encode_utf8("throw "@),
            tree.len(),
        );
    } else if slug == "CR"@ {
        lemma_wrap_are_edits(
            tree,
            target_id,
            source,
            statement_kinds(),
            "CR"@,
            encode_utf8("/* "@),
            encode_utf8(" */"@),
            tree.len(),
        );
    } else if slug == "IF"@ {
        lemma_replace_condition_are_edits(
            tree,
            target_id,
            source,
            nodes::IF_STATEMENT@,
            fields::CONDITION@,
            seq!["if"@],
            "IF"@,
            encode_utf8("false"@),
            tree.len(),
        );
    } else if slug == "IT"@ {
        lemma_replace_condition_are_edits(
            tree,
            target_id,
            source,
            nodes::IF_STATEMENT@,
            fields::CONDITION@,
            seq!["if"@],
            "IT"@,
            encode_utf8("true"@),
            tree.len(),
        );
    } else if slug == "WF"@ {
        lemma_replace_condition_are_edits(
            tree,
            target_id,
            source,
            nodes::WHILE_STATEMENT@,
            fields::CONDITION@,
            seq!["while"@],
            "WF"@,
            encode_utf8("false"@),
            tree.len(),
        );
    } else if slug == "AS"@ {
        lemma_swap_arguments_are_edits(
            tree,
            target_id,
            source,
            call_kinds(),
            fields::ARGUMENTS@,
            "AS"@,
            tree.len(),
        );
    } else if slug == "LC"@ {
        lemma_shuffle_nodes_are_edits(
            tree,
            target_id,
            source,
            loop_control_kinds(),
            loop_control_texts(),
            "LC"@,
            tree.len(),
        );
    } else if slug == "BL"@ {
        lemma_shuffle_nodes_are_edits(
            tree,
            target_id,
            source,
            boolean_kinds(),
            boolean_texts(),
            "BL"@,
            tree.len(),
        );
    } else if slug == "AOS"@ {
        lemma_shuffle_operators_are_edits(
            tree,
            target_id,
            source,
            expression_kinds(),
            arithmetic_texts(),
            "AOS"@,
            tree.len(),
        );
    } else if slug == "AAOS"@ {
        lemma_shuffle_operators_are_edits(
            tree,
            target_id,
            source,
            assignment_kinds(),
            arithmetic_assignment_texts(),
            "AAOS"@,
            tree.len(),
        );
    } else if slug == "BOS"@ {
        lemma_shuffle_operators_are_edits(
            tree,
            target_id,
            source,
            expression_kinds(),
            bitwise_texts(),
            "BOS"@,
            tree.len(),
        );
    } else if slug == "BAOS"@ {
        lemma_shuffle_operators_are_edits(
            tree,
            target_id,
            source,
            assignment_kinds(),
            bitwise_assignment_texts(),
            "BAOS"@,
            tree.len(),
        );
    } else if slug == "COS"@ {
        lemma_shuffle_operators_are_edits(
            tree,
            target_id,
            source,
            expression_kinds(),
            comparison_texts(),
            "COS"@,
            tree.len(),
        );
    } else if slug == "LOS"@ {
        lemma_shuffle_operators_are_edits(
            tree,
            target_id,
            source,
            expression_kinds(),
            logical_texts(),
            "LOS"@,
            tree.len(),
        );
    } else if slug == "SOS"@ {
        lemma_shuffle_operators_are_edits(
            tree,
            target_id,
            source,
            expression_kinds(),
            shift_texts(),
            "SOS"@,
            tree.len(),
        );
    } else if slug == "SAOS"@ {
        lemma_shuffle_operators_are_edits(
            tree,
            target_id,
            source,
            assignment_kinds(),
            shift_assignment_texts(),
            "SAOS"@,
            tree.len(),
        );
    }
}

/// What the engine emits for the first `n` entries of its catalog are
/// edits of the engine.
pub proof fn lemma_tolk_mutants_upto_are_edits(
    tree: &SyntaxTree,
    target_id: i64,
    source: Seq<u8>,
    n: nat,
)
    requires
        n <= tolk_catalog().len(),
    ensures
        ({
            let found = tolk_mutants_upto(tree, target_id, source, tolk_catalog(), n);
            forall|k: int|
                0 <= k < found.len() ==> is_tolk_edit(tree, target_id, source, #[trigger] found[k])
        }),
    decreases n,
{
    if n > 0 {
        lemma_tolk_mutants_upto_are_edits(tree, target_id, source, (n - 1) as nat);
        let slug = tolk_catalog()[n - 1].slug;
        lemma_tolk_slug_edits(tree, target_id, source, slug);
        let earlier = tolk_mutants_upto(tree, target_id, source, tolk_catalog(), (n - 1) as nat);
        let found = match tolk_mutants_for_slug(tree, target_id, source, slug) {
            Some(found) => found,
            None => Seq::empty(),
        };
        assert forall|k: int| 0 <= k < (earlier + found).len() implies is_tolk_edit(
            tree,
            target_id,
            source,
            #[trigger] (earlier + found)[k],
        ) by {
            if k < earlier.len() {
                assert((earlier + found)[k] == earlier[k]);
            } else {
                assert((earlier + found)[k] == found[k - earlier.len()]);
                assert(is_edit_of(
                    tree,
                    target_id,
                    source,
                    tolk_catalog()[n - 1].slug,
                    found[k - earlier.len()],
                ));
            }
        }
    }
}

/// Every edit that the engine proposes is byte-exact on the source: its
/// old text is what the source holds at its offset. It belongs to the
/// target, carries a slug of the catalog, and starts where a node starts.
pub proof fn lemma_tolk_mutants_are_edits(tree: &SyntaxTree, target_id: i64, source: Seq<u8>)
    ensures
        forall|k: int|
            0 <= k < tolk_mutants(tree, target_id, source).len() ==> is_tolk_edit(
                tree,
                target_id,
                source,
                #[trigger] tolk_mutants(tree, target_id, source)[k],
            ),
{
    lemma_tolk_mutants_upto_are_edits(tree, target_id, source, tolk_catalog().len());
}

/// The edits that the engine makes for one slug come from nodes outside
/// comments.
#[verifier::spinoff_prover]
#[verifier::rlimit(60)]
pub proof fn lemma_tolk_slug_immune(
    tree: &SyntaxTree,
    target_id: i64,
    source: Seq<u8>,
    slug: Seq<char>,
)
    ensures
        tolk_mutants_for_slug(tree, target_id, source, slug) matches Some(found)
            ==> all_immune(tree, found),
{
    if slug == "ER"@ {
        lemma_replace_entire_immune(
            tree,
            target_id,
            source,
            statement_kinds(),
            "ER"@,
            encode_utf8("throw 1;"@),
            encode_utf8("throw "@),
            tree.len(),
        );
    } else if slug == "CR"@ {
        lemma_wrap_immune(
            tree,
            target_id,
            source,
            statement_kinds(),
            "CR"@,
            encode_utf8("/* "@),
            encode_utf8(" */"@),
            tree.len(),
        );
    } else if slug == "IF"@ {
        lemma_replace_condition_immune(
            tree,
            target_id,
            source,
            nodes::IF_STATEMENT@,
            fields::CONDITION@,
            seq!["if"@],
            "IF"@,
            encode_utf8("false"@),
            tree.len(),
        );
    } else if slug == "IT"@ {
        lemma_replace_condition_immune(
            tree,
            target_id,
            source,
            nodes::IF_STATEMENT@,
            fields::CONDITION@,
            seq!["if"@],
            "IT"@,
            encode_utf8("true"@),
            tree.len(),
        );
    } else if slug == "WF"@ {
        lemma_replace_condition_immune(
            tree,
            target_id,
            source,
            nodes::WHILE_STATEMENT@,
            fields::CONDITION@,
            seq!["while"@],
            "WF"@,
            encode_utf8("false"@),
            tree.len(),
        );
    } else if slug == "AS"@ {
        lemma_swap_arguments_immune(
            tree,
            target_id,
            source,
            call_kinds(),
            fields::ARGUMENTS@,
            "AS"@,
            tree.len(),
        );
    } else if slug == "LC"@ {
        lemma_shuffle_nodes_immune(
            tree,
            target_id,
            source,
            loop_control_kinds(),
            loop_control_texts(),
            "LC"@,
            tree.len(),
        );
    } else if slug == "BL"@ {
        lemma_shuffle_nodes_immune(
            tree,
            target_id,
            source,
            boolean_kinds(),
            boolean_texts(),
            "BL"@,
            tree.len(),
        );
    } else if slug == "AOS"@ {
        lemma_shuffle_operators_immune(
            tree,
            target_id,
            source,
            expression_kinds(),
            arithmetic_texts(),
            "AOS"@,
            tree.len(),
        );
    } else if slug == "AAOS"@ {
        lemma_shuffle_operators_immune(
            tree,
            target_id,
            source,
            assignment_kinds(),
            arithmetic_assignment_texts(),
            "AAOS"@,
            tree.len(),
        );
    } else if slug == "BOS"@ {
        lemma_shuffle_operators_immune(
            tree,
            target_id,
            source,
            expression_kinds(),
            bitwise_texts(),
            "BOS"@,
            tree.len(),
        );
    } else if slug == "BAOS"@ {
        lemma_shuffle_operators_immune(
            tree,
            target_id,
            source,
            assignment_kinds(),
            bitwise_assignment_texts(),
            "BAOS"@,
            tree.len(),
        );
    } else if slug == "COS"@ {
        lemma_shuffle_operators_immune(
            tree,
            target_id,
            source,
            expression_kinds(),
            comparison_texts(),
            "COS"@,
            tree.len(),
        );
    } else if slug == "LOS"@ {
        lemma_shuffle_operators_immune(
            tree,
            target_id,
            source,
            expression_kinds(),
            logical_texts(),
            "LOS"@,
            tree.len(),
        );
    } else if slug == "SOS"@ {
        lemma_shuffle_operators_immune(
            tree,
            target_id,
            source,
            expression_kinds(),
            shift_texts(),
            "SOS"@,
            tree.len(),
        );
    } else if slug == "SAOS"@ {
        lemma_shuffle_operators_immune(
            tree,
            target_id,
            source,
            assignment_kinds(),
            shift_assignment_texts(),
            "SAOS"@,
            tree.len(),
        );
    }
}

/// Whole statements are replaced and wrapped only outside comments: every
/// edit with the slug `ER` or `CR` replaces the whole text of a node that
/// is no comment and lies in none.
pub proof fn lemma_tolk_statements_outside_comments(
    tree: &SyntaxTree,
    target_id: i64,
    source: Seq<u8>,
    slug: Seq<char>,
)
    requires
        slug == "ER"@ || slug == "CR"@,
    ensures
        tolk_mutants_for_slug(tree, target_id, source, slug) matches Some(found)
            && all_replace_free_nodes(tree, source, found),
{
    if slug == "ER"@ {
        lemma_replace_entire_replaces_free_nodes(
            tree,
            target_id,
            source,
            statement_kinds(),
            "ER"@,
            encode_utf8("throw 1;"@),
            encode_utf8("throw "@),
            tree.len(),
        );
    } else {
        lemma_wrap_replaces_free_nodes(
            tree,
            target_id,
            source,
            statement_kinds(),
            "CR"@,
            encode_utf8("/* "@),
            encode_utf8(" */"@),
            tree.len(),
        );
    }
}

/// The delimiter that opens a block comment in Tolk.
pub open spec fn comment_open() -> Seq<u8> {
    seq![0x2fu8, 0x2au8]
}

/// The delimiter that closes a block comment in Tolk.
pub open spec fn comment_close() -> Seq<u8> {
    seq![0x2au8, 0x2fu8]
}

/// Comment replacement does not nest comments. An edit with the slug `CR`
/// puts its old text into a block comment; where the old text holds no
/// comment delimiter, the new text holds the opening delimiter at its
/// start and nowhere else, and the closing delimiter at its end and
/// nowhere else.
pub proof fn lemma_tolk_comment_replacement_is_not_nested(
    tree: &SyntaxTree,
    target_id: i64,
    source: Seq<u8>,
    k: int,
)
    requires
        0 <= k < tolk_mutants_for_slug(tree, target_id, source, "CR"@)->0.len(),
        !crate::text::contains_bytes(
            tolk_mutants_for_slug(tree, target_id, source, "CR"@)->0[k].old_text,
            comment_open(),
        ),
        !crate::text::contains_bytes(
            tolk_mutants_for_slug(tree, target_id, source, "CR"@)->0[k].old_text,
            comment_close(),
        ),
    ensures
        ({
            let edit = tolk_mutants_for_slug(tree, target_id, source, "CR"@)->0[k];
            &&& edit.new_text == in_block_comment(edit.old_text, comment_open(), comment_close())
            &&& occurs_only_at(edit.new_text, comment_open(), 0)
            &&& occurs_only_at(edit.new_text, comment_close(), edit.new_text.len() - 2)
        }),
{
    let prefix = encode_utf8("/* "@);
    let suffix = encode_utf8(" */"@);
    let edit = tolk_mutants_for_slug(tree, target_id, source, "CR"@)->0[k];
    reveal_strlit("ER");
    reveal_strlit("CR");
    assert("ER"@[0] == 'E' && "CR"@[0] == 'C');
    reveal_strlit("/* ");
    reveal_strlit(" */");
    assert("/* "@[0] == '/' && "/* "@[1] == '*' && "/* "@[2] == ' ');
    assert(" */"@[0] == ' ' && " */"@[1] == '*' && " */"@[2] == '/');
    is_ascii_chars_encode_utf8("/* "@);
    is_ascii_chars_encode_utf8(" */"@);
    assert(prefix =~= comment_open() + seq![0x20u8]);
    assert(suffix =~= seq![0x20u8] + comment_close());
    lemma_wrap_is_wrapping(
        tree,
        target_id,
        source,
        statement_kinds(),
        "CR"@,
        encode_utf8("/* "@),
        encode_utf8(" */"@),
        tree.len(),
    );
    assert(is_wrapping(edit, prefix, suffix));
    assert(edit.new_text =~= in_block_comment(edit.old_text, comment_open(), comment_close()));
    lemma_block_comment_is_not_nested(edit.old_text, comment_open(), comment_close());
}

/// What the engine emits for the first `n` entries of its catalog comes
/// from nodes outside comments.
pub proof fn lemma_tolk_mutants_upto_are_immune(
    tree: &SyntaxTree,
    target_id: i64,
    source: Seq<u8>,
    n: nat,
)
    requires
        n <= tolk_catalog().len(),
    ensures
        all_immune(tree, tolk_mutants_upto(tree, target_id, source, tolk_catalog(), n)),
    decreases n,
{
    if n > 0 {
        lemma_tolk_mutants_upto_are_immune(tree, target_id, source, (n - 1) as nat);
        let slug = tolk_catalog()[n - 1].slug;
        lemma_tolk_slug_immune(tree, target_id, source, slug);
        lemma_immune_concat(
            tree,
            tolk_mutants_upto(tree, target_id, source, tolk_catalog(), (n - 1) as nat),
            match tolk_mutants_for_slug(tree, target_id, source, slug) {
                Some(found) => found,
                None => Seq::empty(),
            },
        );
    }
}

/// Comment immunity. Every edit that the engine proposes was made by a
/// pattern that acted on a node which is no comment and lies in none; the
/// edit starts at that node, at one of its children, or at a child of one
/// of its children, and the node at which it starts is no comment and
/// lies in none either.
pub proof fn lemma_tolk_mutants_are_immune(tree: &SyntaxTree, target_id: i64, source: Seq<u8>)
    ensures
        all_immune(tree, tolk_mutants(tree, target_id, source)),
{
    lemma_tolk_mutants_upto_are_immune(tree, target_id, source, tolk_catalog().len());
}

/// The place of a slug in the merged catalog, or -1.
pub open spec fn tolk_slug_place(slug: Seq<char>) -> int {
    if slug == "ER"@ {
        0
    } else if slug == "CR"@ {
        1
    } else if slug == "IF"@ {
        2
    } else if slug == "IT"@ {
        3
    } else if slug == "WF"@ {
        4
    } else if slug == "AS"@ {
        5
    } else if slug == "LC"@ {
        6
    } else if slug == "BL"@ {
        7
    } else if slug == "AOS"@ {
        8
    } else if slug == "AAOS"@ {
        9
    } else if slug == "BOS"@ {
        10
    } else if slug == "BAOS"@ {
        11
    } else if slug == "LOS"@ {
        12
    } else if slug == "COS"@ {
        13
    } else if slug == "SOS"@ {
        14
    } else if slug == "SAOS"@ {
        15
    } else {
        -1
    }
}

/// Each entry of the merged catalog is the first with its slug.
#[verifier::spinoff_prover]
#[verifier::rlimit(100)]
proof fn lemma_tolk_slug_places()
    ensures
        forall|k: int|
            0 <= k < tolk_catalog().len() ==> tolk_slug_place(
                (#[trigger] tolk_catalog()[k]).slug,
            ) == k,
{
    reveal_strlit("ER");
    reveal_strlit("CR");
    reveal_strlit("IF");
    reveal_strlit("IT");
    reveal_strlit("WF");
    reveal_strlit("AS");
    reveal_strlit("LC");
    reveal_strlit("BL");
    reveal_strlit("AOS");
    reveal_strlit("AAOS");
    reveal_strlit("BOS");
    reveal_strlit("BAOS");
    reveal_strlit("LOS");
    reveal_strlit("COS");
    reveal_strlit("SOS");
    reveal_strlit("SAOS");
    assert("ER"@.len() == 2 && "ER"@[0] == 'E' && "ER"@[1] == 'R');
    assert("CR"@.len() == 2 && "CR"@[0] == 'C' && "CR"@[1] == 'R');
    assert("IF"@.len() == 2 && "IF"@[0] == 'I' && "IF"@[1] == 'F');
    assert("IT"@.len() == 2 && "IT"@[0] == 'I' && "IT"@[1] == 'T');
    assert("WF"@.len() == 2 && "WF"@[0] == 'W' && "WF"@[1] == 'F');
    assert("AS"@.len() == 2 && "AS"@[0] == 'A' && "AS"@[1] == 'S');
    assert("LC"@.len() == 2 && "LC"@[0] == 'L' && "LC"@[1] == 'C');
    assert("BL"@.len() == 2 && "BL"@[0] == 'B' && "BL"@[1] == 'L');
    assert("AOS"@.len() == 3 && "AOS"@[0] == 'A' && "AOS"@[1] == 'O' && "AOS"@[2] == 'S');
    assert("AAOS"@.len() == 4
        && "AAOS"@[0] == 'A'
        && "AAOS"@[1] == 'A'
        && "AAOS"@[2] == 'O'
        && "AAOS"@[3] == 'S');
    assert("BOS"@.len() == 3 && "BOS"@[0] == 'B' && "BOS"@[1] == 'O' && "BOS"@[2] == 'S');
    assert("BAOS"@.len() == 4
        && "BAOS"@[0] == 'B'
        && "BAOS"@[1] == 'A'
        && "BAOS"@[2] == 'O'
        && "BAOS"@[3] == 'S');
    assert("LOS"@.len() == 3 && "LOS"@[0] == 'L' && "LOS"@[1] == 'O' && "LOS"@[2] == 'S');
    assert("COS"@.len() == 3 && "COS"@[0] == 'C' && "COS"@[1] == 'O' && "COS"@[2] == 'S');
    assert("SOS"@.len() == 3 && "SOS"@[0] == 'S' && "SOS"@[1] == 'O' && "SOS"@[2] == 'S');
    assert("SAOS"@.len() == 4
        && "SAOS"@[0] == 'S'
        && "SAOS"@[1] == 'A'
        && "SAOS"@[2] == 'O'
        && "SAOS"@[3] == 'S');
    let c = tolk_catalog();
    assert(c[0].slug == "ER"@ && tolk_slug_place("ER"@) == 0);
    assert(c[1].slug == "CR"@ && tolk_slug_place("CR"@) == 1);
    assert(c[2].slug == "IF"@ && tolk_slug_place("IF"@) == 2);
    assert(c[3].slug == "IT"@ && tolk_slug_place("IT"@) == 3);
    assert(c[4].slug == "WF"@ && tolk_slug_place("WF"@) == 4);
    assert(c[5].slug == "AS"@ && tolk_slug_place("AS"@) == 5);
    assert(c[6].slug == "LC"@ && tolk_slug_place("LC"@) == 6);
    assert(c[7].slug == "BL"@ && tolk_slug_place("BL"@) == 7);
    assert(c[8].slug == "AOS"@ && tolk_slug_place("AOS"@) == 8);
    assert(c[9].slug == "AAOS"@ && tolk_slug_place("AAOS"@) == 9);
    assert(c[10].slug == "BOS"@ && tolk_slug_place("BOS"@) == 10);
    assert(c[11].slug == "BAOS"@ && tolk_slug_place("BAOS"@) == 11);
    assert(c[12].slug == "LOS"@ && tolk_slug_place("LOS"@) == 12);
    assert(c[13].slug == "COS"@ && tolk_slug_place("COS"@) == 13);
    assert(c[14].slug == "SOS"@ && tolk_slug_place("SOS"@) == 14);
    assert(c[15].slug == "SAOS"@ && tolk_slug_place("SAOS"@) == 15);
    assert forall|k: int| 0 <= k < c.len() implies tolk_slug_place(
        (#[trigger] c[k]).slug,
    ) == k by {
        if k == 0 {
        } else if k == 1 {
        } else if k == 2 {
        } else if k == 3 {
        } else if k == 4 {
        } else if k == 5 {
        } else if k == 6 {
        } else if k == 7 {
        } else if k == 8 {
        } else if k == 9 {
        } else if k == 10 {
        } else if k == 11 {
        } else if k == 12 {
        } else if k == 13 {
        } else if k == 14 {
        } else if k == 15 {
        }
    }
}

/// No two entries of the merged catalog have the same slug.
pub proof fn lemma_tolk_catalog_has_no_duplicates()
    ensures
        ({
            let catalog = tolk_catalog();
            forall|i: int, j: int|
                0 <= i < j < catalog.len() ==> (#[trigger] catalog[i]).slug != (
                #[trigger] catalog[j]).slug
        }),
{
    lemma_tolk_slug_places();
}

/// Every slug of the merged catalog is one that the engine knows: for
/// each entry it makes the edits of a pattern.
pub proof fn lemma_tolk_catalog_is_dispatched(
    tree: &SyntaxTree,
    target_id: i64,
    source: Seq<u8>,
    i: int,
)
    requires
        0 <= i < tolk_catalog().len(),
    ensures
        ({
            let slug = tolk_catalog()[i].slug;
            tolk_mutants_for_slug(tree, target_id, source, slug) is Some
        }),
{
}

} // verus!
