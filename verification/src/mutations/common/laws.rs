//! What holds of every edit that a pattern emits.
//!
//! Each edit starts where a node of the tree starts, takes its old text
//! from the source at that place, counts its line from the line feeds
//! before it, and carries the target and the slug that the pattern was
//! given.

use crate::cst::SyntaxTree;
use crate::mutations::common::patterns::{
    alternatives_upto,
    argument_container,
    argument_container_among,
    condition_node,
    condition_replacement,
    first_non_punctuation,
    flipped_boolean,
    non_punctuation,
    swapped_loop_control,
    flip_boolean_at,
    flip_boolean_upto,
    replace_condition_at,
    replace_condition_upto,
    replace_entire_at,
    replace_entire_upto,
    replace_field_at,
    replace_field_upto,
    replace_first_argument_at,
    replace_first_argument_upto,
    shuffle_at,
    shuffle_each_upto,
    shuffle_nodes_at,
    shuffle_nodes_upto,
    shuffle_operators_at,
    shuffle_operators_upto,
    swap_arguments_at,
    swap_arguments_upto,
    swap_loop_control_at,
    swap_loop_control_upto,
    swapped_pair,
    swapped_pairs_upto,
    wrap_at,
    wrap_upto,
};
use crate::mutations::common::utils::{as_list, mutant_for, mutant_for_node, text_at};
use crate::text::{lemma_count_byte_bound, newlines_before};
use crate::types::mutants::MutantView;
use crate::types::targets::byte_exact;
use vstd::prelude::*;
use vstd::utf8::*;

verus! {

/// The edit is one that a pattern makes from the source for the target
/// and the slug: it has no id yet, it is byte-exact on the source, it
/// starts where a node of the tree starts, and its line is the number of
/// line feeds before its offset.
pub open spec fn is_edit_of(
    tree: &SyntaxTree,
    target_id: i64,
    source: Seq<u8>,
    slug: Seq<char>,
    m: MutantView,
) -> bool {
    &&& m.id == 0
    &&& m.target_id == target_id
    &&& m.mutation_slug == slug
    &&& byte_exact(source, m)
    &&& m.line_offset == newlines_before(source, m.byte_offset as int)
    &&& exists|i: int|
        0 <= i < tree.nodes@.len() && (#[trigger] tree.nodes@[i]).start_byte == m.byte_offset
}

/// Every edit of the list is one that a pattern makes from the source.
pub open spec fn all_edits_of(
    tree: &SyntaxTree,
    target_id: i64,
    source: Seq<u8>,
    slug: Seq<char>,
    edits: Seq<MutantView>,
) -> bool {
    forall|k: int| 0 <= k < edits.len() ==> is_edit_of(
        tree,
        target_id,
        source,
        slug,
        #[trigger] edits[k],
    )
}

/// Two lists of such edits, one after the other, are a list of such edits.
pub proof fn lemma_edits_concat(
    tree: &SyntaxTree,
    target_id: i64,
    source: Seq<u8>,
    slug: Seq<char>,
    a: Seq<MutantView>,
    b: Seq<MutantView>,
)
    requires
        all_edits_of(tree, target_id, source, slug, a),
        all_edits_of(tree, target_id, source, slug, b),
    ensures
        all_edits_of(tree, target_id, source, slug, a + b),
{
    assert forall|k: int| 0 <= k < (a + b).len() implies is_edit_of(
        tree,
        target_id,
        source,
        slug,
        #[trigger] (a + b)[k],
    ) by {
        if k < a.len() {
            assert((a + b)[k] == a[k]);
        } else {
            assert((a + b)[k] == b[k - a.len()]);
        }
    }
}

/// The edit between two offsets, of which the first is where node `i`
/// starts, is such an edit.
pub proof fn lemma_edit_between(
    tree: &SyntaxTree,
    target_id: i64,
    source: Seq<u8>,
    slug: Seq<char>,
    new_text: Seq<u8>,
    i: int,
    end: int,
)
    requires
        0 <= i < tree.nodes@.len(),
    ensures
        all_edits_of(
            tree,
            target_id,
            source,
            slug,
            as_list(
                mutant_for(
                    target_id,
                    source,
                    tree.nodes@[i].start_byte as int,
                    end,
                    slug,
                    new_text,
                ),
            ),
        ),
{
    let start = tree.nodes@[i].start_byte as int;
    if text_at(source, start, end) is Some {
        lemma_count_byte_bound(source.subrange(0, start), 10u8);
        lemma_count_byte_bound(source, 10u8);
        let m = mutant_for(target_id, source, start, end, slug, new_text)->0;
        assert(tree.nodes@[i].start_byte == m.byte_offset);
    }
}

/// The edit of a whole node is such an edit.
pub proof fn lemma_edit_of_node(
    tree: &SyntaxTree,
    target_id: i64,
    source: Seq<u8>,
    slug: Seq<char>,
    new_text: Seq<u8>,
    i: int,
)
    ensures
        all_edits_of(
            tree,
            target_id,
            source,
            slug,
            as_list(mutant_for_node(tree, target_id, source, slug, new_text, i)),
        ),
{
    if 0 <= i < tree.nodes@.len() {
        lemma_edit_between(
            tree,
            target_id,
            source,
            slug,
            new_text,
            i,
            tree.nodes@[i].end_byte as int,
        );
    }
}

/// The alternatives of a node are such edits.
pub proof fn lemma_alternatives_are_edits(
    tree: &SyntaxTree,
    target_id: i64,
    source: Seq<u8>,
    slug: Seq<char>,
    choices: Seq<Seq<u8>>,
    current: Seq<u8>,
    i: int,
    n: nat,
)
    ensures
        all_edits_of(
            tree,
            target_id,
            source,
            slug,
            alternatives_upto(tree, target_id, source, slug, choices, current, i, n),
        ),
    decreases n,
{
    if n > 0 {
        lemma_alternatives_are_edits(
            tree,
            target_id,
            source,
            slug,
            choices,
            current,
            i,
            (n - 1) as nat,
        );
        lemma_edit_of_node(tree, target_id, source, slug, choices[n - 1], i);
        lemma_edits_concat(
            tree,
            target_id,
            source,
            slug,
            alternatives_upto(tree, target_id, source, slug, choices, current, i, (n - 1) as nat),
            if choices[n - 1] == current {
                Seq::empty()
            } else {
                as_list(mutant_for_node(tree, target_id, source, slug, choices[n - 1], i))
            },
        );
    }
}

/// What shuffling emits for a node are such edits.
pub proof fn lemma_shuffle_at_are_edits(
    tree: &SyntaxTree,
    target_id: i64,
    source: Seq<u8>,
    slug: Seq<char>,
    choices: Seq<Seq<u8>>,
    i: int,
)
    ensures
        all_edits_of(
            tree,
            target_id,
            source,
            slug,
            shuffle_at(tree, target_id, source, slug, choices, i),
        ),
{
    lemma_alternatives_are_edits(
        tree,
        target_id,
        source,
        slug,
        choices,
        text_at(source, tree.nodes@[i].start_byte as int, tree.nodes@[i].end_byte as int)->0,
        i,
        choices.len(),
    );
}

/// What shuffling emits for some nodes are such edits.
pub proof fn lemma_shuffle_each_are_edits(
    tree: &SyntaxTree,
    target_id: i64,
    source: Seq<u8>,
    slug: Seq<char>,
    choices: Seq<Seq<u8>>,
    nodes: Seq<usize>,
    n: nat,
)
    ensures
        all_edits_of(
            tree,
            target_id,
            source,
            slug,
            shuffle_each_upto(tree, target_id, source, slug, choices, nodes, n),
        ),
    decreases n,
{
    if n > 0 {
        lemma_shuffle_each_are_edits(tree, target_id, source, slug, choices, nodes, (n - 1) as nat);
        lemma_shuffle_at_are_edits(tree, target_id, source, slug, choices, nodes[n - 1] as int);
        lemma_edits_concat(
            tree,
            target_id,
            source,
            slug,
            shuffle_each_upto(tree, target_id, source, slug, choices, nodes, (n - 1) as nat),
            shuffle_at(tree, target_id, source, slug, choices, nodes[n - 1] as int),
        );
    }
}

/// The swap of two arguments is such an edit.
pub proof fn lemma_swapped_pair_is_edit(
    tree: &SyntaxTree,
    target_id: i64,
    source: Seq<u8>,
    slug: Seq<char>,
    a: int,
    b: int,
)
    ensures
        all_edits_of(
            tree,
            target_id,
            source,
            slug,
            swapped_pair(tree, target_id, source, slug, a, b),
        ),
{
    if 0 <= a < tree.nodes@.len() && 0 <= b < tree.nodes@.len() {
        let a_text = text_at(
            source,
            tree.nodes@[a].start_byte as int,
            tree.nodes@[a].end_byte as int,
        );
        let b_text = text_at(
            source,
            tree.nodes@[b].start_byte as int,
            tree.nodes@[b].end_byte as int,
        );
        if a_text is Some && b_text is Some {
            lemma_edit_between(
                tree,
                target_id,
                source,
                slug,
                b_text->0 + encode_utf8(", "@) + a_text->0,
                a,
                tree.nodes@[b].end_byte as int,
            );
        }
    }
}

/// The swaps of adjacent arguments are such edits.
pub proof fn lemma_swapped_pairs_are_edits(
    tree: &SyntaxTree,
    target_id: i64,
    source: Seq<u8>,
    slug: Seq<char>,
    args: Seq<usize>,
    n: nat,
)
    ensures
        all_edits_of(
            tree,
            target_id,
            source,
            slug,
            swapped_pairs_upto(tree, target_id, source, slug, args, n),
        ),
    decreases n,
{
    if n > 0 {
        lemma_swapped_pairs_are_edits(tree, target_id, source, slug, args, (n - 1) as nat);
        lemma_swapped_pair_is_edit(
            tree,
            target_id,
            source,
            slug,
            args[n - 1] as int,
            args[n as int] as int,
        );
        lemma_edits_concat(
            tree,
            target_id,
            source,
            slug,
            swapped_pairs_upto(tree, target_id, source, slug, args, (n - 1) as nat),
            swapped_pair(tree, target_id, source, slug, args[n - 1] as int, args[n as int] as int),
        );
    }
}

/// What replacing a field emits at one node are edits made from the source.
pub proof fn lemma_replace_field_at_are_edits(
    tree: &SyntaxTree,
    target_id: i64,
    source: Seq<u8>,
    kind: Seq<char>,
    field: Seq<char>,
    slug: Seq<char>,
    new_text: Seq<u8>,
    i: int,
)
    ensures
        all_edits_of(
            tree,
            target_id,
            source,
            slug,
            replace_field_at(tree, target_id, source, kind, field, slug, new_text, i),
        ),
{
    match tree.child_by_field(i, field) {
        Some(c) => {
            lemma_edit_of_node(tree, target_id, source, slug, new_text, c as int);
        },
        None => {},
    }
}

/// What replacing a field emits are edits made from the source.
pub proof fn lemma_replace_field_are_edits(
    tree: &SyntaxTree,
    target_id: i64,
    source: Seq<u8>,
    kind: Seq<char>,
    field: Seq<char>,
    slug: Seq<char>,
    new_text: Seq<u8>,
    n: nat,
)
    ensures
        all_edits_of(
            tree,
            target_id,
            source,
            slug,
            replace_field_upto(tree, target_id, source, kind, field, slug, new_text, n),
        ),
    decreases n,
{
    if n > 0 {
        lemma_replace_field_are_edits(
            tree,
            target_id,
            source,
            kind,
            field,
            slug,
            new_text,
            (n - 1) as nat,
        );
        lemma_replace_field_at_are_edits(
            tree,
            target_id,
            source,
            kind,
            field,
            slug,
            new_text,
            n - 1,
        );
        lemma_edits_concat(
            tree,
            target_id,
            source,
            slug,
            replace_field_upto(
                tree,
                target_id,
                source,
                kind,
                field,
                slug,
                new_text,
                (n - 1) as nat,
            ),
            replace_field_at(tree, target_id, source, kind, field, slug, new_text, n - 1),
        );
    }
}

/// What replacing whole nodes emits at one node are edits made from the source.
pub proof fn lemma_replace_entire_at_are_edits(
    tree: &SyntaxTree,
    target_id: i64,
    source: Seq<u8>,
    kinds: Seq<Seq<char>>,
    slug: Seq<char>,
    replacement: Seq<u8>,
    skip: Seq<u8>,
    i: int,
)
    ensures
        all_edits_of(
            tree,
            target_id,
            source,
            slug,
            replace_entire_at(tree, target_id, source, kinds, slug, replacement, skip, i),
        ),
{
    lemma_edit_of_node(tree, target_id, source, slug, replacement, i);
}

/// What replacing whole nodes emits are edits made from the source.
pub proof fn lemma_replace_entire_are_edits(
    tree: &SyntaxTree,
    target_id: i64,
    source: Seq<u8>,
    kinds: Seq<Seq<char>>,
    slug: Seq<char>,
    replacement: Seq<u8>,
    skip: Seq<u8>,
    n: nat,
)
    ensures
        all_edits_of(
            tree,
            target_id,
            source,
            slug,
            replace_entire_upto(tree, target_id, source, kinds, slug, replacement, skip, n),
        ),
    decreases n,
{
    if n > 0 {
        lemma_replace_entire_are_edits(
            tree,
            target_id,
            source,
            kinds,
            slug,
            replacement,
            skip,
            (n - 1) as nat,
        );
        lemma_replace_entire_at_are_edits(
            tree,
            target_id,
            source,
            kinds,
            slug,
            replacement,
            skip,
            n - 1,
        );
        lemma_edits_concat(
            tree,
            target_id,
            source,
            slug,
            replace_entire_upto(
                tree,
                target_id,
                source,
                kinds,
                slug,
                replacement,
                skip,
                (n - 1) as nat,
            ),
            replace_entire_at(tree, target_id, source, kinds, slug, replacement, skip, n - 1),
        );
    }
}

/// What wrapping emits at one node are edits made from the source.
pub proof fn lemma_wrap_at_are_edits(
    tree: &SyntaxTree,
    target_id: i64,
    source: Seq<u8>,
    kinds: Seq<Seq<char>>,
    slug: Seq<char>,
    prefix: Seq<u8>,
    suffix: Seq<u8>,
    i: int,
)
    ensures
        all_edits_of(
            tree,
            target_id,
            source,
            slug,
            wrap_at(tree, target_id, source, kinds, slug, prefix, suffix, i),
        ),
{
    if 0 <= i < tree.nodes@.len() {
        match text_at(source, tree.nodes@[i].start_byte as int, tree.nodes@[i].end_byte as int) {
            Some(text) => {
                lemma_edit_of_node(tree, target_id, source, slug, prefix + text + suffix, i);
            },
            None => {},
        }
    }
}

/// What wrapping emits are edits made from the source.
pub proof fn lemma_wrap_are_edits(
    tree: &SyntaxTree,
    target_id: i64,
    source: Seq<u8>,
    kinds: Seq<Seq<char>>,
    slug: Seq<char>,
    prefix: Seq<u8>,
    suffix: Seq<u8>,
    n: nat,
)
    ensures
        all_edits_of(
            tree,
            target_id,
            source,
            slug,
            wrap_upto(tree, target_id, source, kinds, slug, prefix, suffix, n),
        ),
    decreases n,
{
    if n > 0 {
        lemma_wrap_are_edits(tree, target_id, source, kinds, slug, prefix, suffix, (n - 1) as nat);
        lemma_wrap_at_are_edits(tree, target_id, source, kinds, slug, prefix, suffix, n - 1);
        lemma_edits_concat(
            tree,
            target_id,
            source,
            slug,
            wrap_upto(tree, target_id, source, kinds, slug, prefix, suffix, (n - 1) as nat),
            wrap_at(tree, target_id, source, kinds, slug, prefix, suffix, n - 1),
        );
    }
}

/// What flipping booleans emits at one node are edits made from the source.
pub proof fn lemma_flip_boolean_at_are_edits(
    tree: &SyntaxTree,
    target_id: i64,
    source: Seq<u8>,
    kind: Seq<char>,
    slug: Seq<char>,
    i: int,
)
    ensures
        all_edits_of(
            tree,
            target_id,
            source,
            slug,
            flip_boolean_at(tree, target_id, source, kind, slug, i),
        ),
{
    if 0 <= i < tree.nodes@.len() {
        match text_at(source, tree.nodes@[i].start_byte as int, tree.nodes@[i].end_byte as int) {
            Some(old) => {
                lemma_edit_of_node(
                    tree,
                    target_id,
                    source,
                    slug,
                    flipped_boolean(old),
                    i,
                );
            },
            None => {},
        }
    }
}

/// What flipping booleans emits are edits made from the source.
pub proof fn lemma_flip_boolean_are_edits(
    tree: &SyntaxTree,
    target_id: i64,
    source: Seq<u8>,
    kind: Seq<char>,
    slug: Seq<char>,
    n: nat,
)
    ensures
        all_edits_of(
            tree,
            target_id,
            source,
            slug,
            flip_boolean_upto(tree, target_id, source, kind, slug, n),
        ),
    decreases n,
{
    if n > 0 {
        lemma_flip_boolean_are_edits(tree, target_id, source, kind, slug, (n - 1) as nat);
        lemma_flip_boolean_at_are_edits(tree, target_id, source, kind, slug, n - 1);
        lemma_edits_concat(
            tree,
            target_id,
            source,
            slug,
            flip_boolean_upto(tree, target_id, source, kind, slug, (n - 1) as nat),
            flip_boolean_at(tree, target_id, source, kind, slug, n - 1),
        );
    }
}

/// What swapping loop control emits at one node are edits made from the source.
pub proof fn lemma_swap_loop_control_at_are_edits(
    tree: &SyntaxTree,
    target_id: i64,
    source: Seq<u8>,
    break_kind: Seq<char>,
    continue_kind: Seq<char>,
    slug: Seq<char>,
    i: int,
)
    ensures
        all_edits_of(
            tree,
            target_id,
            source,
            slug,
            swap_loop_control_at(tree, target_id, source, break_kind, continue_kind, slug, i),
        ),
{
    if 0 <= i < tree.nodes@.len() {
        match text_at(source, tree.nodes@[i].start_byte as int, tree.nodes@[i].end_byte as int) {
            Some(old) => {
                lemma_edit_of_node(
                    tree,
                    target_id,
                    source,
                    slug,
                    swapped_loop_control(
                        old,
                        tree.kind(i) == break_kind,
                    ),
                    i,
                );
            },
            None => {},
        }
    }
}

/// What swapping loop control emits are edits made from the source.
pub proof fn lemma_swap_loop_control_are_edits(
    tree: &SyntaxTree,
    target_id: i64,
    source: Seq<u8>,
    break_kind: Seq<char>,
    continue_kind: Seq<char>,
    slug: Seq<char>,
    n: nat,
)
    ensures
        all_edits_of(
            tree,
            target_id,
            source,
            slug,
            swap_loop_control_upto(tree, target_id, source, break_kind, continue_kind, slug, n),
        ),
    decreases n,
{
    if n > 0 {
        lemma_swap_loop_control_are_edits(
            tree,
            target_id,
            source,
            break_kind,
            continue_kind,
            slug,
            (n - 1) as nat,
        );
        lemma_swap_loop_control_at_are_edits(
            tree,
            target_id,
            source,
            break_kind,
            continue_kind,
            slug,
            n - 1,
        );
        lemma_edits_concat(
            tree,
            target_id,
            source,
            slug,
            swap_loop_control_upto(
                tree,
                target_id,
                source,
                break_kind,
                continue_kind,
                slug,
                (n - 1) as nat,
            ),
            swap_loop_control_at(tree, target_id, source, break_kind, continue_kind, slug, n - 1),
        );
    }
}

/// What shuffling nodes emits at one node are edits made from the source.
pub proof fn lemma_shuffle_nodes_at_are_edits(
    tree: &SyntaxTree,
    target_id: i64,
    source: Seq<u8>,
    kinds: Seq<Seq<char>>,
    labels: Seq<Seq<u8>>,
    slug: Seq<char>,
    i: int,
)
    ensures
        all_edits_of(
            tree,
            target_id,
            source,
            slug,
            shuffle_nodes_at(tree, target_id, source, kinds, labels, slug, i),
        ),
{
    lemma_shuffle_at_are_edits(tree, target_id, source, slug, labels, i);
}

/// What shuffling nodes emits are edits made from the source.
pub proof fn lemma_shuffle_nodes_are_edits(
    tree: &SyntaxTree,
    target_id: i64,
    source: Seq<u8>,
    kinds: Seq<Seq<char>>,
    labels: Seq<Seq<u8>>,
    slug: Seq<char>,
    n: nat,
)
    ensures
        all_edits_of(
            tree,
            target_id,
            source,
            slug,
            shuffle_nodes_upto(tree, target_id, source, kinds, labels, slug, n),
        ),
    decreases n,
{
    if n > 0 {
        lemma_shuffle_nodes_are_edits(tree, target_id, source, kinds, labels, slug, (n - 1) as nat);
        lemma_shuffle_nodes_at_are_edits(tree, target_id, source, kinds, labels, slug, n - 1);
        lemma_edits_concat(
            tree,
            target_id,
            source,
            slug,
            shuffle_nodes_upto(tree, target_id, source, kinds, labels, slug, (n - 1) as nat),
            shuffle_nodes_at(tree, target_id, source, kinds, labels, slug, n - 1),
        );
    }
}

/// What shuffling operators emits at one node are edits made from the source.
pub proof fn lemma_shuffle_operators_at_are_edits(
    tree: &SyntaxTree,
    target_id: i64,
    source: Seq<u8>,
    kinds: Seq<Seq<char>>,
    operators: Seq<Seq<u8>>,
    slug: Seq<char>,
    i: int,
)
    ensures
        all_edits_of(
            tree,
            target_id,
            source,
            slug,
            shuffle_operators_at(tree, target_id, source, kinds, operators, slug, i),
        ),
{
    lemma_shuffle_each_are_edits(
        tree,
        target_id,
        source,
        slug,
        operators,
        tree.children(i),
        tree.children(i).len(),
    );
}

/// What shuffling operators emits are edits made from the source.
pub proof fn lemma_shuffle_operators_are_edits(
    tree: &SyntaxTree,
    target_id: i64,
    source: Seq<u8>,
    kinds: Seq<Seq<char>>,
    operators: Seq<Seq<u8>>,
    slug: Seq<char>,
    n: nat,
)
    ensures
        all_edits_of(
            tree,
            target_id,
            source,
            slug,
            shuffle_operators_upto(tree, target_id, source, kinds, operators, slug, n),
        ),
    decreases n,
{
    if n > 0 {
        lemma_shuffle_operators_are_edits(
            tree,
            target_id,
            source,
            kinds,
            operators,
            slug,
            (n - 1) as nat,
        );
        lemma_shuffle_operators_at_are_edits(
            tree,
            target_id,
            source,
            kinds,
            operators,
            slug,
            n - 1,
        );
        lemma_edits_concat(
            tree,
            target_id,
            source,
            slug,
            shuffle_operators_upto(tree, target_id, source, kinds, operators, slug, (n - 1) as nat),
            shuffle_operators_at(tree, target_id, source, kinds, operators, slug, n - 1),
        );
    }
}

/// What swapping arguments emits at one node are edits made from the source.
pub proof fn lemma_swap_arguments_at_are_edits(
    tree: &SyntaxTree,
    target_id: i64,
    source: Seq<u8>,
    kinds: Seq<Seq<char>>,
    container: Seq<char>,
    slug: Seq<char>,
    i: int,
)
    ensures
        all_edits_of(
            tree,
            target_id,
            source,
            slug,
            swap_arguments_at(tree, target_id, source, kinds, container, slug, i),
        ),
{
    match argument_container(tree, i, container) {
        Some(c) => {
            let args = non_punctuation(
                tree,
                tree.children(c as int),
            );
            if args.len() >= 2 {
                lemma_swapped_pairs_are_edits(
                    tree,
                    target_id,
                    source,
                    slug,
                    args,
                    (args.len() - 1) as nat,
                );
            }
        },
        None => {},
    }
}

/// What swapping arguments emits are edits made from the source.
pub proof fn lemma_swap_arguments_are_edits(
    tree: &SyntaxTree,
    target_id: i64,
    source: Seq<u8>,
    kinds: Seq<Seq<char>>,
    container: Seq<char>,
    slug: Seq<char>,
    n: nat,
)
    ensures
        all_edits_of(
            tree,
            target_id,
            source,
            slug,
            swap_arguments_upto(tree, target_id, source, kinds, container, slug, n),
        ),
    decreases n,
{
    if n > 0 {
        lemma_swap_arguments_are_edits(
            tree,
            target_id,
            source,
            kinds,
            container,
            slug,
            (n - 1) as nat,
        );
        lemma_swap_arguments_at_are_edits(tree, target_id, source, kinds, container, slug, n - 1);
        lemma_edits_concat(
            tree,
            target_id,
            source,
            slug,
            swap_arguments_upto(tree, target_id, source, kinds, container, slug, (n - 1) as nat),
            swap_arguments_at(tree, target_id, source, kinds, container, slug, n - 1),
        );
    }
}

/// What replacing conditions emits at one node are edits made from the source.
pub proof fn lemma_replace_condition_at_are_edits(
    tree: &SyntaxTree,
    target_id: i64,
    source: Seq<u8>,
    kind: Seq<char>,
    field: Seq<char>,
    keywords: Seq<Seq<char>>,
    slug: Seq<char>,
    replacement: Seq<u8>,
    i: int,
)
    ensures
        all_edits_of(
            tree,
            target_id,
            source,
            slug,
            replace_condition_at(
                tree,
                target_id,
                source,
                kind,
                field,
                keywords,
                slug,
                replacement,
                i,
            ),
        ),
{
    match condition_node(tree, i, field, keywords) {
        Some(c) => {
            if 0 <= c < tree.nodes@.len() {
                match text_at(
                    source,
                    tree.nodes@[c as int].start_byte as int,
                    tree.nodes@[c as int].end_byte as int,
                ) {
                    Some(old) => {
                        lemma_edit_of_node(
                            tree,
                            target_id,
                            source,
                            slug,
                            condition_replacement(
                                old,
                                replacement,
                            ),
                            c as int,
                        );
                    },
                    None => {},
                }
            }
        },
        None => {},
    }
}

/// What replacing conditions emits are edits made from the source.
pub proof fn lemma_replace_condition_are_edits(
    tree: &SyntaxTree,
    target_id: i64,
    source: Seq<u8>,
    kind: Seq<char>,
    field: Seq<char>,
    keywords: Seq<Seq<char>>,
    slug: Seq<char>,
    replacement: Seq<u8>,
    n: nat,
)
    ensures
        all_edits_of(
            tree,
            target_id,
            source,
            slug,
            replace_condition_upto(
                tree,
                target_id,
                source,
                kind,
                field,
                keywords,
                slug,
                replacement,
                n,
            ),
        ),
    decreases n,
{
    if n > 0 {
        lemma_replace_condition_are_edits(
            tree,
            target_id,
            source,
            kind,
            field,
            keywords,
            slug,
            replacement,
            (n - 1) as nat,
        );
        lemma_replace_condition_at_are_edits(
            tree,
            target_id,
            source,
            kind,
            field,
            keywords,
            slug,
            replacement,
            n - 1,
        );
        lemma_edits_concat(
            tree,
            target_id,
            source,
            slug,
            replace_condition_upto(
                tree,
                target_id,
                source,
                kind,
                field,
                keywords,
                slug,
                replacement,
                (n - 1) as nat,
            ),
            replace_condition_at(
                tree,
                target_id,
                source,
                kind,
                field,
                keywords,
                slug,
                replacement,
                n - 1,
            ),
        );
    }
}

/// What replacing first arguments emits at one node are edits made from the source.
pub proof fn lemma_replace_first_argument_at_are_edits(
    tree: &SyntaxTree,
    target_id: i64,
    source: Seq<u8>,
    kinds: Seq<Seq<char>>,
    field: Seq<char>,
    alt_kinds: Seq<Seq<char>>,
    slug: Seq<char>,
    callee_marker: Seq<u8>,
    replacement: Seq<u8>,
    i: int,
)
    ensures
        all_edits_of(
            tree,
            target_id,
            source,
            slug,
            replace_first_argument_at(
                tree,
                target_id,
                source,
                kinds,
                field,
                alt_kinds,
                slug,
                callee_marker,
                replacement,
                i,
            ),
        ),
{
    match argument_container_among(tree, i, field, alt_kinds) {
        Some(c) => {
            match first_non_punctuation(
                tree,
                tree.children(c as int),
            ) {
                Some(a) => {
                    lemma_edit_of_node(tree, target_id, source, slug, replacement, a as int);
                },
                None => {},
            }
        },
        None => {},
    }
}

/// What replacing first arguments emits are edits made from the source.
pub proof fn lemma_replace_first_argument_are_edits(
    tree: &SyntaxTree,
    target_id: i64,
    source: Seq<u8>,
    kinds: Seq<Seq<char>>,
    field: Seq<char>,
    alt_kinds: Seq<Seq<char>>,
    slug: Seq<char>,
    callee_marker: Seq<u8>,
    replacement: Seq<u8>,
    n: nat,
)
    ensures
        all_edits_of(
            tree,
            target_id,
            source,
            slug,
            replace_first_argument_upto(
                tree,
                target_id,
                source,
                kinds,
                field,
                alt_kinds,
                slug,
                callee_marker,
                replacement,
                n,
            ),
        ),
    decreases n,
{
    if n > 0 {
        lemma_replace_first_argument_are_edits(
            tree,
            target_id,
            source,
            kinds,
            field,
            alt_kinds,
            slug,
            callee_marker,
            replacement,
            (n - 1) as nat,
        );
        lemma_replace_first_argument_at_are_edits(
            tree,
            target_id,
            source,
            kinds,
            field,
            alt_kinds,
            slug,
            callee_marker,
            replacement,
            n - 1,
        );
        lemma_edits_concat(
            tree,
            target_id,
            source,
            slug,
            replace_first_argument_upto(
                tree,
                target_id,
                source,
                kinds,
                field,
                alt_kinds,
                slug,
                callee_marker,
                replacement,
                (n - 1) as nat,
            ),
            replace_first_argument_at(
                tree,
                target_id,
                source,
                kinds,
                field,
                alt_kinds,
                slug,
                callee_marker,
                replacement,
                n - 1,
            ),
        );
    }
}

} // verus!
