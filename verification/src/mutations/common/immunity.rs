//! Comment immunity: no pattern acts on a comment or inside one.
//!
//! Every pattern looks at the nodes of the tree one by one and acts where
//! a node has the kind that the pattern is for. A node that is a comment,
//! or has a comment among its ancestors, is passed over. The edit that the
//! pattern makes replaces the node itself, or one of its children, or a
//! child of one of its children; a child that is a comment is passed
//! over too.

use crate::cst::SyntaxTree;
use crate::mutations::common::patterns::{
    alternatives_upto,
    argument_container,
    argument_container_among,
    condition_node,
    condition_replacement,
    first_condition_candidate,
    first_non_punctuation,
    flipped_boolean,
    is_condition_candidate,
    is_punctuation,
    non_punctuation,
    swapped_loop_control,
    flip_boolean_at,
    flip_boolean_upto,
    replace_condition_at,
    replace_condition_upto,
    replace_entire_at,
    replace_entire_upto,
    replace_field_at,
    replace_field_upto,
    replace_first_argument_at,
    replace_first_argument_upto,
    shuffle_at,
    shuffle_each_upto,
    shuffle_nodes_at,
    shuffle_nodes_upto,
    shuffle_operators_at,
    shuffle_operators_upto,
    swap_arguments_at,
    swap_arguments_upto,
    swap_loop_control_at,
    swap_loop_control_upto,
    swapped_pair,
    swapped_pairs_upto,
    wrap_at,
    wrap_upto,
};
use crate::mutations::common::utils::{as_list, mutant_for, mutant_for_node, node_text_at, text_at};
use crate::text::{contains_bytes, occurs_at};
use crate::types::mutants::MutantView;
use vstd::prelude::*;
use vstd::utf8::*;

verus! {

/// Node `x` is node `i`, a child of it, or a child of one of its children.
pub open spec fn is_near(tree: &SyntaxTree, i: int, x: int) -> bool {
    0 <= x < tree.nodes@.len() && (x == i || tree.parent_of(x) == Some(i) || (tree.parent_of(
        x,
    ) matches Some(c) && tree.parent_of(c) == Some(i)))
}

/// The edit starts at node `x`, which a pattern reached from node `i`,
/// and neither node is a comment or lies in one.
pub open spec fn acts_at(tree: &SyntaxTree, m: MutantView, i: int, x: int) -> bool {
    &&& 0 <= i < tree.nodes@.len()
    &&& !tree.in_comment(i)
    &&& is_near(tree, i, x)
    &&& !tree.in_comment(x)
    &&& tree.nodes@[x].start_byte == m.byte_offset
}

/// The edit was made by a pattern that acted on a node outside comments
/// and starts at a node outside comments.
pub open spec fn is_immune(tree: &SyntaxTree, m: MutantView) -> bool {
    exists|i: int, x: int| acts_at(tree, m, i, x)
}

/// Every edit of the list was made from a node outside comments.
pub open spec fn all_immune(tree: &SyntaxTree, edits: Seq<MutantView>) -> bool {
    forall|k: int| 0 <= k < edits.len() ==> is_immune(tree, #[trigger] edits[k])
}

/// The edit replaces the whole text of node `i`, which is no comment and
/// lies in none.
pub open spec fn replaces_node(tree: &SyntaxTree, source: Seq<u8>, m: MutantView, i: int) -> bool {
    &&& 0 <= i < tree.nodes@.len()
    &&& !tree.in_comment(i)
    &&& tree.nodes@[i].start_byte == m.byte_offset
    &&& node_text_at(tree, source, i) == Some(m.old_text)
}

/// The edit replaces the whole text of a node outside comments.
pub open spec fn replaces_free_node(tree: &SyntaxTree, source: Seq<u8>, m: MutantView) -> bool {
    exists|i: int| replaces_node(tree, source, m, i)
}

/// Every edit of the list replaces a whole node outside comments.
pub open spec fn all_replace_free_nodes(
    tree: &SyntaxTree,
    source: Seq<u8>,
    edits: Seq<MutantView>,
) -> bool {
    forall|k: int| 0 <= k < edits.len() ==> replaces_free_node(tree, source, #[trigger] edits[k])
}

pub proof fn lemma_immune_concat(tree: &SyntaxTree, a: Seq<MutantView>, b: Seq<MutantView>)
    requires
        all_immune(tree, a),
        all_immune(tree, b),
    ensures
        all_immune(tree, a + b),
{
    assert forall|k: int| 0 <= k < (a + b).len() implies is_immune(tree, #[trigger] (a + b)[k]) by {
        if k < a.len() {
            assert((a + b)[k] == a[k]);
        } else {
            assert((a + b)[k] == b[k - a.len()]);
        }
    }
}

pub proof fn lemma_free_nodes_concat(
    tree: &SyntaxTree,
    source: Seq<u8>,
    a: Seq<MutantView>,
    b: Seq<MutantView>,
)
    requires
        all_replace_free_nodes(tree, source, a),
        all_replace_free_nodes(tree, source, b),
    ensures
        all_replace_free_nodes(tree, source, a + b),
{
    assert forall|k: int| 0 <= k < (a + b).len() implies replaces_free_node(
        tree,
        source,
        #[trigger] (a + b)[k],
    ) by {
        if k < a.len() {
            assert((a + b)[k] == a[k]);
        } else {
            assert((a + b)[k] == b[k - a.len()]);
        }
    }
}

/// An edit that starts at a node near a node outside comments is immune.
pub proof fn lemma_edit_near(
    tree: &SyntaxTree,
    target_id: i64,
    source: Seq<u8>,
    slug: Seq<char>,
    new_text: Seq<u8>,
    i: int,
    x: int,
    end: int,
)
    requires
        0 <= i < tree.nodes@.len(),
        !tree.in_comment(i),
        is_near(tree, i, x),
        !tree.in_comment(x),
    ensures
        all_immune(
            tree,
            as_list(
                mutant_for(
                    target_id,
                    source,
                    tree.nodes@[x].start_byte as int,
                    end,
                    slug,
                    new_text,
                ),
            ),
        ),
{
    let start = tree.nodes@[x].start_byte as int;
    match mutant_for(target_id, source, start, end, slug, new_text) {
        Some(m) => {
            assert(acts_at(tree, m, i, x));
        },
        None => {},
    }
}

/// The edit of a whole node near a node outside comments is immune.
pub proof fn lemma_node_edit_near(
    tree: &SyntaxTree,
    target_id: i64,
    source: Seq<u8>,
    slug: Seq<char>,
    new_text: Seq<u8>,
    i: int,
    x: int,
)
    requires
        0 <= i < tree.nodes@.len(),
        !tree.in_comment(i),
        is_near(tree, i, x),
        !tree.in_comment(x),
    ensures
        all_immune(tree, as_list(mutant_for_node(tree, target_id, source, slug, new_text, x))),
{
    lemma_edit_near(tree, target_id, source, slug, new_text, i, x, tree.nodes@[x].end_byte as int);
}

/// The edit of a whole node outside comments replaces that node.
pub proof fn lemma_node_edit_is_free(
    tree: &SyntaxTree,
    target_id: i64,
    source: Seq<u8>,
    slug: Seq<char>,
    new_text: Seq<u8>,
    i: int,
)
    requires
        0 <= i < tree.nodes@.len(),
        !tree.in_comment(i),
    ensures
        all_replace_free_nodes(
            tree,
            source,
            as_list(mutant_for_node(tree, target_id, source, slug, new_text, i)),
        ),
{
    match mutant_for_node(tree, target_id, source, slug, new_text, i) {
        Some(m) => {
            assert(replaces_node(tree, source, m, i));
        },
        None => {},
    }
}

/// The children of a node are its children.
pub proof fn lemma_children(tree: &SyntaxTree, i: int, n: nat)
    requires
        n <= tree.nodes@.len(),
    ensures
        forall|k: int|
            0 <= k < tree.children_upto(i, n).len() ==> tree.is_child(
                i,
                (#[trigger] tree.children_upto(i, n)[k]) as int,
            ),
    decreases n,
{
    if n > 0 {
        lemma_children(tree, i, (n - 1) as nat);
        assert(tree.nodes@.len() == tree.nodes.len());
        let all = tree.children_upto(i, n);
        assert forall|k: int| 0 <= k < all.len() implies tree.is_child(
            i,
            (#[trigger] all[k]) as int,
        ) by {
            let earlier = tree.children_upto(i, (n - 1) as nat);
            if k < earlier.len() {
                assert(all[k] == earlier[k]);
            } else {
                assert(all[k] == (n - 1) as usize);
            }
        }
    }
}

/// The first of some nodes that fills a field is one of the nodes.
pub proof fn lemma_first_with_field(tree: &SyntaxTree, items: Seq<usize>, field: Seq<char>)
    ensures
        tree.first_with_field(items, field) matches Some(c) ==> items.contains(c),
    decreases items.len(),
{
    if items.len() > 0 {
        if tree.has_field(items[0] as int, field) {
            assert(items[0] == items[0]);
        } else {
            lemma_first_with_field(tree, items.drop_first(), field);
            match tree.first_with_field(items.drop_first(), field) {
                Some(c) => {
                    let rest = items.drop_first();
                    let j = choose|j: int| 0 <= j < rest.len() && rest[j] == c;
                    assert(items[j + 1] == c);
                },
                None => {},
            }
        }
    }
}

/// The first of some nodes with one of the kinds is one of the nodes.
pub proof fn lemma_first_with_kind(tree: &SyntaxTree, items: Seq<usize>, kinds: Seq<Seq<char>>)
    ensures
        tree.first_with_kind(items, kinds) matches Some(c) ==> items.contains(c),
    decreases items.len(),
{
    if items.len() > 0 {
        if kinds.contains(tree.kind(items[0] as int)) {
            assert(items[0] == items[0]);
        } else {
            lemma_first_with_kind(tree, items.drop_first(), kinds);
            match tree.first_with_kind(items.drop_first(), kinds) {
                Some(c) => {
                    let rest = items.drop_first();
                    let j = choose|j: int| 0 <= j < rest.len() && rest[j] == c;
                    assert(items[j + 1] == c);
                },
                None => {},
            }
        }
    }
}

/// The first of some nodes that can be a condition is one of the nodes,
/// and no comment.
pub proof fn lemma_first_candidate(tree: &SyntaxTree, items: Seq<usize>, keywords: Seq<Seq<char>>)
    ensures
        first_condition_candidate(tree, items, keywords) matches Some(c) ==> items.contains(c)
            && !tree.in_comment(c as int),
    decreases items.len(),
{
    if items.len() > 0 {
        if is_condition_candidate(tree, keywords, items[0] as int) {
            assert(items[0] == items[0]);
        } else {
            lemma_first_candidate(tree, items.drop_first(), keywords);
            match first_condition_candidate(tree, items.drop_first(), keywords) {
                Some(c) => {
                    let rest = items.drop_first();
                    let j = choose|j: int| 0 <= j < rest.len() && rest[j] == c;
                    assert(items[j + 1] == c);
                },
                None => {},
            }
        }
    }
}

/// The first of some nodes that is no punctuation and no comment is one
/// of the nodes, and no comment.
pub proof fn lemma_first_non_punctuation(tree: &SyntaxTree, items: Seq<usize>)
    ensures
        first_non_punctuation(tree, items) matches Some(c) ==> items.contains(c)
            && !tree.in_comment(c as int),
    decreases items.len(),
{
    if items.len() > 0 {
        if !is_punctuation(tree.kind(items[0] as int)) && !tree.in_comment(items[0] as int) {
            assert(items[0] == items[0]);
        } else {
            lemma_first_non_punctuation(tree, items.drop_first());
            match first_non_punctuation(tree, items.drop_first()) {
                Some(c) => {
                    let rest = items.drop_first();
                    let j = choose|j: int| 0 <= j < rest.len() && rest[j] == c;
                    assert(items[j + 1] == c);
                },
                None => {},
            }
        }
    }
}

/// The nodes that are no punctuation and no comment are some of the
/// nodes, and no comments.
pub proof fn lemma_non_punctuation(tree: &SyntaxTree, items: Seq<usize>)
    ensures
        forall|k: int|
            0 <= k < non_punctuation(tree, items).len() ==> items.contains(
                #[trigger] non_punctuation(tree, items)[k],
            ) && !tree.in_comment(non_punctuation(tree, items)[k] as int),
    decreases items.len(),
{
    if items.len() > 0 {
        lemma_non_punctuation(tree, items.drop_last());
        let kept = non_punctuation(tree, items);
        assert forall|k: int| 0 <= k < kept.len() implies items.contains(#[trigger] kept[k])
            && !tree.in_comment(kept[k] as int) by {
            let earlier = non_punctuation(tree, items.drop_last());
            if k < earlier.len() {
                assert(kept[k] == earlier[k]);
                assert(items.drop_last().contains(earlier[k]));
                let front = items.drop_last();
                let j = choose|j: int| 0 <= j < front.len() && front[j] == earlier[k];
                assert(items[j] == earlier[k]);
            } else {
                assert(kept[k] == items.last());
                assert(items[items.len() - 1] == items.last());
            }
        }
    }
}

/// A member of the children of a node is a child of the node.
pub proof fn lemma_member_is_child(tree: &SyntaxTree, i: int, c: usize)
    requires
        tree.children(i).contains(c),
    ensures
        tree.is_child(i, c as int),
{
    lemma_children(tree, i, tree.nodes@.len());
    let j = choose|j: int| 0 <= j < tree.children(i).len() && tree.children(i)[j] == c;
    assert(tree.is_child(i, tree.children(i)[j] as int));
}

/// The alternatives of a node near a node outside comments are immune.
pub proof fn lemma_alternatives_immune(
    tree: &SyntaxTree,
    target_id: i64,
    source: Seq<u8>,
    slug: Seq<char>,
    choices: Seq<Seq<u8>>,
    current: Seq<u8>,
    i: int,
    x: int,
    n: nat,
)
    requires
        0 <= i < tree.nodes@.len(),
        !tree.in_comment(i),
        is_near(tree, i, x),
        !tree.in_comment(x),
    ensures
        all_immune(tree, alternatives_upto(tree, target_id, source, slug, choices, current, x, n)),
    decreases n,
{
    if n > 0 {
        lemma_alternatives_immune(
            tree,
            target_id,
            source,
            slug,
            choices,
            current,
            i,
            x,
            (n - 1) as nat,
        );
        lemma_node_edit_near(tree, target_id, source, slug, choices[n - 1], i, x);
        lemma_immune_concat(
            tree,
            alternatives_upto(tree, target_id, source, slug, choices, current, x, (n - 1) as nat),
            if choices[n - 1] == current {
                Seq::empty()
            } else {
                as_list(mutant_for_node(tree, target_id, source, slug, choices[n - 1], x))
            },
        );
    }
}

/// What shuffling emits for a node near a node outside comments is immune.
pub proof fn lemma_shuffle_at_immune(
    tree: &SyntaxTree,
    target_id: i64,
    source: Seq<u8>,
    slug: Seq<char>,
    choices: Seq<Seq<u8>>,
    i: int,
    x: int,
)
    requires
        0 <= i < tree.nodes@.len(),
        !tree.in_comment(i),
        is_near(tree, i, x),
        !tree.in_comment(x),
    ensures
        all_immune(tree, shuffle_at(tree, target_id, source, slug, choices, x)),
{
    lemma_alternatives_immune(
        tree,
        target_id,
        source,
        slug,
        choices,
        text_at(source, tree.nodes@[x].start_byte as int, tree.nodes@[x].end_byte as int)->0,
        i,
        x,
        choices.len(),
    );
}

/// What shuffling emits for the children of a node outside comments is
/// immune.
pub proof fn lemma_shuffle_each_immune(
    tree: &SyntaxTree,
    target_id: i64,
    source: Seq<u8>,
    slug: Seq<char>,
    choices: Seq<Seq<u8>>,
    i: int,
    n: nat,
)
    requires
        0 <= i < tree.nodes@.len(),
        !tree.in_comment(i),
        n <= tree.children(i).len(),
    ensures
        all_immune(
            tree,
            shuffle_each_upto(tree, target_id, source, slug, choices, tree.children(i), n),
        ),
    decreases n,
{
    if n > 0 {
        lemma_shuffle_each_immune(tree, target_id, source, slug, choices, i, (n - 1) as nat);
        let c = tree.children(i)[n - 1];
        assert(tree.children(i).contains(c));
        lemma_member_is_child(tree, i, c);
        if !tree.in_comment(c as int) {
            lemma_shuffle_at_immune(tree, target_id, source, slug, choices, i, c as int);
        }
        lemma_immune_concat(
            tree,
            shuffle_each_upto(
                tree,
                target_id,
                source,
                slug,
                choices,
                tree.children(i),
                (n - 1) as nat,
            ),
            if tree.in_comment(c as int) {
                Seq::empty()
            } else {
                shuffle_at(tree, target_id, source, slug, choices, c as int)
            },
        );
    }
}

/// The swaps of arguments that are near a node outside comments are immune.
pub proof fn lemma_swapped_pairs_immune(
    tree: &SyntaxTree,
    target_id: i64,
    source: Seq<u8>,
    slug: Seq<char>,
    args: Seq<usize>,
    i: int,
    n: nat,
)
    requires
        0 <= i < tree.nodes@.len(),
        !tree.in_comment(i),
        n < args.len(),
        forall|k: int|
            0 <= k < args.len() ==> is_near(tree, i, (#[trigger] args[k]) as int)
                && !tree.in_comment(args[k] as int),
    ensures
        all_immune(tree, swapped_pairs_upto(tree, target_id, source, slug, args, n)),
    decreases n,
{
    if n > 0 {
        lemma_swapped_pairs_immune(tree, target_id, source, slug, args, i, (n - 1) as nat);
        let a = args[n - 1] as int;
        let b = args[n as int] as int;
        assert(is_near(tree, i, a));
        match (node_text_at(tree, source, a), node_text_at(tree, source, b)) {
            (Some(a_text), Some(b_text)) => {
                lemma_edit_near(
                    tree,
                    target_id,
                    source,
                    slug,
                    b_text + encode_utf8(", "@) + a_text,
                    i,
                    a,
                    tree.nodes@[b].end_byte as int,
                );
            },
            _ => {},
        }
        lemma_immune_concat(
            tree,
            swapped_pairs_upto(tree, target_id, source, slug, args, (n - 1) as nat),
            swapped_pair(tree, target_id, source, slug, a, b),
        );
    }
}

/// What replacing a field emits at one node is immune.
pub proof fn lemma_replace_field_at_immune(
    tree: &SyntaxTree,
    target_id: i64,
    source: Seq<u8>,
    kind: Seq<char>,
    field: Seq<char>,
    slug: Seq<char>,
    new_text: Seq<u8>,
    i: int,
)
    requires
        0 <= i < tree.nodes@.len(),
    ensures
        all_immune(tree, replace_field_at(tree, target_id, source, kind, field, slug, new_text, i)),
{
    if 0 <= i < tree.nodes@.len() && !tree.in_comment(i) {
        lemma_first_with_field(tree, tree.children(i), field);
        match tree.child_by_field(i, field) {
            Some(c) => {
                lemma_member_is_child(tree, i, c);
                if !tree.in_comment(c as int) {
                    lemma_node_edit_near(tree, target_id, source, slug, new_text, i, c as int);
                }
            },
            None => {},
        }
    }
}

/// Comment immunity of replacing a field: every edit comes from a node that
/// is no comment and lies in none.
pub proof fn lemma_replace_field_immune(
    tree: &SyntaxTree,
    target_id: i64,
    source: Seq<u8>,
    kind: Seq<char>,
    field: Seq<char>,
    slug: Seq<char>,
    new_text: Seq<u8>,
    n: nat,
)
    requires
        n <= tree.nodes@.len(),
    ensures
        all_immune(
            tree,
            replace_field_upto(tree, target_id, source, kind, field, slug, new_text, n),
        ),
    decreases n,
{
    if n > 0 {
        lemma_replace_field_immune(
            tree,
            target_id,
            source,
            kind,
            field,
            slug,
            new_text,
            (n - 1) as nat,
        );
        lemma_replace_field_at_immune(tree, target_id, source, kind, field, slug, new_text, n - 1);
        lemma_immune_concat(
            tree,
            replace_field_upto(
                tree,
                target_id,
                source,
                kind,
                field,
                slug,
                new_text,
                (n - 1) as nat,
            ),
            replace_field_at(tree, target_id, source, kind, field, slug, new_text, n - 1),
        );
    }
}

/// What replacing whole nodes emits at one node is immune.
pub proof fn lemma_replace_entire_at_immune(
    tree: &SyntaxTree,
    target_id: i64,
    source: Seq<u8>,
    kinds: Seq<Seq<char>>,
    slug: Seq<char>,
    replacement: Seq<u8>,
    skip: Seq<u8>,
    i: int,
)
    requires
        0 <= i < tree.nodes@.len(),
    ensures
        all_immune(
            tree,
            replace_entire_at(tree, target_id, source, kinds, slug, replacement, skip, i),
        ),
{
    if 0 <= i < tree.nodes@.len() && !tree.in_comment(i) {
        lemma_node_edit_near(tree, target_id, source, slug, replacement, i, i);
    }
}

/// Comment immunity of replacing whole nodes: every edit comes from a node that
/// is no comment and lies in none.
pub proof fn lemma_replace_entire_immune(
    tree: &SyntaxTree,
    target_id: i64,
    source: Seq<u8>,
    kinds: Seq<Seq<char>>,
    slug: Seq<char>,
    replacement: Seq<u8>,
    skip: Seq<u8>,
    n: nat,
)
    requires
        n <= tree.nodes@.len(),
    ensures
        all_immune(
            tree,
            replace_entire_upto(tree, target_id, source, kinds, slug, replacement, skip, n),
        ),
    decreases n,
{
    if n > 0 {
        lemma_replace_entire_immune(
            tree,
            target_id,
            source,
            kinds,
            slug,
            replacement,
            skip,
            (n - 1) as nat,
        );
        lemma_replace_entire_at_immune(
            tree,
            target_id,
            source,
            kinds,
            slug,
            replacement,
            skip,
            n - 1,
        );
        lemma_immune_concat(
            tree,
            replace_entire_upto(
                tree,
                target_id,
                source,
                kinds,
                slug,
                replacement,
                skip,
                (n - 1) as nat,
            ),
            replace_entire_at(tree, target_id, source, kinds, slug, replacement, skip, n - 1),
        );
    }
}

/// What wrapping emits at one node is immune.
pub proof fn lemma_wrap_at_immune(
    tree: &SyntaxTree,
    target_id: i64,
    source: Seq<u8>,
    kinds: Seq<Seq<char>>,
    slug: Seq<char>,
    prefix: Seq<u8>,
    suffix: Seq<u8>,
    i: int,
)
    requires
        0 <= i < tree.nodes@.len(),
    ensures
        all_immune(tree, wrap_at(tree, target_id, source, kinds, slug, prefix, suffix, i)),
{
    if 0 <= i < tree.nodes@.len() && !tree.in_comment(i) {
        match node_text_at(tree, source, i) {
            Some(text) => {
                lemma_node_edit_near(tree, target_id, source, slug, prefix + text + suffix, i, i);
            },
            None => {},
        }
    }
}

/// Comment immunity of wrapping: every edit comes from a node that
/// is no comment and lies in none.
pub proof fn lemma_wrap_immune(
    tree: &SyntaxTree,
    target_id: i64,
    source: Seq<u8>,
    kinds: Seq<Seq<char>>,
    slug: Seq<char>,
    prefix: Seq<u8>,
    suffix: Seq<u8>,
    n: nat,
)
    requires
        n <= tree.nodes@.len(),
    ensures
        all_immune(tree, wrap_upto(tree, target_id, source, kinds, slug, prefix, suffix, n)),
    decreases n,
{
    if n > 0 {
        lemma_wrap_immune(tree, target_id, source, kinds, slug, prefix, suffix, (n - 1) as nat);
        lemma_wrap_at_immune(tree, target_id, source, kinds, slug, prefix, suffix, n - 1);
        lemma_immune_concat(
            tree,
            wrap_upto(tree, target_id, source, kinds, slug, prefix, suffix, (n - 1) as nat),
            wrap_at(tree, target_id, source, kinds, slug, prefix, suffix, n - 1),
        );
    }
}

/// What flipping booleans emits at one node is immune.
pub proof fn lemma_flip_boolean_at_immune(
    tree: &SyntaxTree,
    target_id: i64,
    source: Seq<u8>,
    kind: Seq<char>,
    slug: Seq<char>,
    i: int,
)
    requires
        0 <= i < tree.nodes@.len(),
    ensures
        all_immune(tree, flip_boolean_at(tree, target_id, source, kind, slug, i)),
{
    if 0 <= i < tree.nodes@.len() && !tree.in_comment(i) {
        match node_text_at(tree, source, i) {
            Some(old) => {
                lemma_node_edit_near(tree, target_id, source, slug, flipped_boolean(old), i, i);
            },
            None => {},
        }
    }
}

/// Comment immunity of flipping booleans: every edit comes from a node that
/// is no comment and lies in none.
pub proof fn lemma_flip_boolean_immune(
    tree: &SyntaxTree,
    target_id: i64,
    source: Seq<u8>,
    kind: Seq<char>,
    slug: Seq<char>,
    n: nat,
)
    requires
        n <= tree.nodes@.len(),
    ensures
        all_immune(tree, flip_boolean_upto(tree, target_id, source, kind, slug, n)),
    decreases n,
{
    if n > 0 {
        lemma_flip_boolean_immune(tree, target_id, source, kind, slug, (n - 1) as nat);
        lemma_flip_boolean_at_immune(tree, target_id, source, kind, slug, n - 1);
        lemma_immune_concat(
            tree,
            flip_boolean_upto(tree, target_id, source, kind, slug, (n - 1) as nat),
            flip_boolean_at(tree, target_id, source, kind, slug, n - 1),
        );
    }
}

/// What swapping loop control emits at one node is immune.
pub proof fn lemma_swap_loop_control_at_immune(
    tree: &SyntaxTree,
    target_id: i64,
    source: Seq<u8>,
    break_kind: Seq<char>,
    continue_kind: Seq<char>,
    slug: Seq<char>,
    i: int,
)
    requires
        0 <= i < tree.nodes@.len(),
    ensures
        all_immune(
            tree,
            swap_loop_control_at(tree, target_id, source, break_kind, continue_kind, slug, i),
        ),
{
    if 0 <= i < tree.nodes@.len() && !tree.in_comment(i) {
        match node_text_at(tree, source, i) {
            Some(old) => {
                lemma_node_edit_near(
                    tree,
                    target_id,
                    source,
                    slug,
                    swapped_loop_control(old, tree.kind(i) == break_kind),
                    i,
                    i,
                );
            },
            None => {},
        }
    }
}

/// Comment immunity of swapping loop control: every edit comes from a node that
/// is no comment and lies in none.
pub proof fn lemma_swap_loop_control_immune(
    tree: &SyntaxTree,
    target_id: i64,
    source: Seq<u8>,
    break_kind: Seq<char>,
    continue_kind: Seq<char>,
    slug: Seq<char>,
    n: nat,
)
    requires
        n <= tree.nodes@.len(),
    ensures
        all_immune(
            tree,
            swap_loop_control_upto(tree, target_id, source, break_kind, continue_kind, slug, n),
        ),
    decreases n,
{
    if n > 0 {
        lemma_swap_loop_control_immune(
            tree,
            target_id,
            source,
            break_kind,
            continue_kind,
            slug,
            (n - 1) as nat,
        );
        lemma_swap_loop_control_at_immune(
            tree,
            target_id,
            source,
            break_kind,
            continue_kind,
            slug,
            n - 1,
        );
        lemma_immune_concat(
            tree,
            swap_loop_control_upto(
                tree,
                target_id,
                source,
                break_kind,
                continue_kind,
                slug,
                (n - 1) as nat,
            ),
            swap_loop_control_at(tree, target_id, source, break_kind, continue_kind, slug, n - 1),
        );
    }
}

/// What shuffling nodes emits at one node is immune.
pub proof fn lemma_shuffle_nodes_at_immune(
    tree: &SyntaxTree,
    target_id: i64,
    source: Seq<u8>,
    kinds: Seq<Seq<char>>,
    labels: Seq<Seq<u8>>,
    slug: Seq<char>,
    i: int,
)
    requires
        0 <= i < tree.nodes@.len(),
    ensures
        all_immune(tree, shuffle_nodes_at(tree, target_id, source, kinds, labels, slug, i)),
{
    if 0 <= i < tree.nodes@.len() && !tree.in_comment(i) {
        lemma_shuffle_at_immune(tree, target_id, source, slug, labels, i, i);
    }
}

/// Comment immunity of shuffling nodes: every edit comes from a node that
/// is no comment and lies in none.
pub proof fn lemma_shuffle_nodes_immune(
    tree: &SyntaxTree,
    target_id: i64,
    source: Seq<u8>,
    kinds: Seq<Seq<char>>,
    labels: Seq<Seq<u8>>,
    slug: Seq<char>,
    n: nat,
)
    requires
        n <= tree.nodes@.len(),
    ensures
        all_immune(tree, shuffle_nodes_upto(tree, target_id, source, kinds, labels, slug, n)),
    decreases n,
{
    if n > 0 {
        lemma_shuffle_nodes_immune(tree, target_id, source, kinds, labels, slug, (n - 1) as nat);
        lemma_shuffle_nodes_at_immune(tree, target_id, source, kinds, labels, slug, n - 1);
        lemma_immune_concat(
            tree,
            shuffle_nodes_upto(tree, target_id, source, kinds, labels, slug, (n - 1) as nat),
            shuffle_nodes_at(tree, target_id, source, kinds, labels, slug, n - 1),
        );
    }
}

/// What shuffling operators emits at one node is immune.
pub proof fn lemma_shuffle_operators_at_immune(
    tree: &SyntaxTree,
    target_id: i64,
    source: Seq<u8>,
    kinds: Seq<Seq<char>>,
    operators: Seq<Seq<u8>>,
    slug: Seq<char>,
    i: int,
)
    requires
        0 <= i < tree.nodes@.len(),
    ensures
        all_immune(tree, shuffle_operators_at(tree, target_id, source, kinds, operators, slug, i)),
{
    if 0 <= i < tree.nodes@.len() && !tree.in_comment(i) {
        lemma_shuffle_each_immune(
            tree,
            target_id,
            source,
            slug,
            operators,
            i,
            tree.children(i).len(),
        );
    }
}

/// Comment immunity of shuffling operators: every edit comes from a node that
/// is no comment and lies in none.
pub proof fn lemma_shuffle_operators_immune(
    tree: &SyntaxTree,
    target_id: i64,
    source: Seq<u8>,
    kinds: Seq<Seq<char>>,
    operators: Seq<Seq<u8>>,
    slug: Seq<char>,
    n: nat,
)
    requires
        n <= tree.nodes@.len(),
    ensures
        all_immune(
            tree,
            shuffle_operators_upto(tree, target_id, source, kinds, operators, slug, n),
        ),
    decreases n,
{
    if n > 0 {
        lemma_shuffle_operators_immune(
            tree,
            target_id,
            source,
            kinds,
            operators,
            slug,
            (n - 1) as nat,
        );
        lemma_shuffle_operators_at_immune(tree, target_id, source, kinds, operators, slug, n - 1);
        lemma_immune_concat(
            tree,
            shuffle_operators_upto(tree, target_id, source, kinds, operators, slug, (n - 1) as nat),
            shuffle_operators_at(tree, target_id, source, kinds, operators, slug, n - 1),
        );
    }
}

/// What swapping arguments emits at one node is immune.
pub proof fn lemma_swap_arguments_at_immune(
    tree: &SyntaxTree,
    target_id: i64,
    source: Seq<u8>,
    kinds: Seq<Seq<char>>,
    container: Seq<char>,
    slug: Seq<char>,
    i: int,
)
    requires
        0 <= i < tree.nodes@.len(),
    ensures
        all_immune(tree, swap_arguments_at(tree, target_id, source, kinds, container, slug, i)),
{
    if 0 <= i < tree.nodes@.len() && !tree.in_comment(i) {
        lemma_first_with_field(tree, tree.children(i), container);
        lemma_first_with_kind(tree, tree.children(i), seq![container]);
        match argument_container(tree, i, container) {
            Some(c) => {
                lemma_member_is_child(tree, i, c);
                let args = non_punctuation(tree, tree.children(c as int));
                lemma_non_punctuation(tree, tree.children(c as int));
                assert forall|k: int| 0 <= k < args.len() implies is_near(
                    tree,
                    i,
                    (#[trigger] args[k]) as int,
                ) by {
                    lemma_member_is_child(tree, c as int, args[k]);
                }
                if args.len() >= 2 {
                    lemma_swapped_pairs_immune(
                        tree,
                        target_id,
                        source,
                        slug,
                        args,
                        i,
                        (args.len() - 1) as nat,
                    );
                }
            },
            None => {},
        }
    }
}

/// Comment immunity of swapping arguments: every edit comes from a node that
/// is no comment and lies in none.
pub proof fn lemma_swap_arguments_immune(
    tree: &SyntaxTree,
    target_id: i64,
    source: Seq<u8>,
    kinds: Seq<Seq<char>>,
    container: Seq<char>,
    slug: Seq<char>,
    n: nat,
)
    requires
        n <= tree.nodes@.len(),
    ensures
        all_immune(tree, swap_arguments_upto(tree, target_id, source, kinds, container, slug, n)),
    decreases n,
{
    if n > 0 {
        lemma_swap_arguments_immune(
            tree,
            target_id,
            source,
            kinds,
            container,
            slug,
            (n - 1) as nat,
        );
        lemma_swap_arguments_at_immune(tree, target_id, source, kinds, container, slug, n - 1);
        lemma_immune_concat(
            tree,
            swap_arguments_upto(tree, target_id, source, kinds, container, slug, (n - 1) as nat),
            swap_arguments_at(tree, target_id, source, kinds, container, slug, n - 1),
        );
    }
}

/// What replacing conditions emits at one node is immune.
pub proof fn lemma_replace_condition_at_immune(
    tree: &SyntaxTree,
    target_id: i64,
    source: Seq<u8>,
    kind: Seq<char>,
    field: Seq<char>,
    keywords: Seq<Seq<char>>,
    slug: Seq<char>,
    replacement: Seq<u8>,
    i: int,
)
    requires
        0 <= i < tree.nodes@.len(),
    ensures
        all_immune(
            tree,
            replace_condition_at(
                tree,
                target_id,
                source,
                kind,
                field,
                keywords,
                slug,
                replacement,
                i,
            ),
        ),
{
    if 0 <= i < tree.nodes@.len() && !tree.in_comment(i) {
        lemma_first_with_field(tree, tree.children(i), field);
        lemma_first_candidate(tree, tree.children(i), keywords);
        match condition_node(tree, i, field, keywords) {
            Some(c) => {
                lemma_member_is_child(tree, i, c);
                match node_text_at(tree, source, c as int) {
                    Some(old) => {
                        lemma_node_edit_near(
                            tree,
                            target_id,
                            source,
                            slug,
                            condition_replacement(old, replacement),
                            i,
                            c as int,
                        );
                    },
                    None => {},
                }
            },
            None => {},
        }
    }
}

/// Comment immunity of replacing conditions: every edit comes from a node that
/// is no comment and lies in none.
pub proof fn lemma_replace_condition_immune(
    tree: &SyntaxTree,
    target_id: i64,
    source: Seq<u8>,
    kind: Seq<char>,
    field: Seq<char>,
    keywords: Seq<Seq<char>>,
    slug: Seq<char>,
    replacement: Seq<u8>,
    n: nat,
)
    requires
        n <= tree.nodes@.len(),
    ensures
        all_immune(
            tree,
            replace_condition_upto(
                tree,
                target_id,
                source,
                kind,
                field,
                keywords,
                slug,
                replacement,
                n,
            ),
        ),
    decreases n,
{
    if n > 0 {
        lemma_replace_condition_immune(
            tree,
            target_id,
            source,
            kind,
            field,
            keywords,
            slug,
            replacement,
            (n - 1) as nat,
        );
        lemma_replace_condition_at_immune(
            tree,
            target_id,
            source,
            kind,
            field,
            keywords,
            slug,
            replacement,
            n - 1,
        );
        lemma_immune_concat(
            tree,
            replace_condition_upto(
                tree,
                target_id,
                source,
                kind,
                field,
                keywords,
                slug,
                replacement,
                (n - 1) as nat,
            ),
            replace_condition_at(
                tree,
                target_id,
                source,
                kind,
                field,
                keywords,
                slug,
                replacement,
                n - 1,
            ),
        );
    }
}

/// What replacing first arguments emits at one node is immune.
pub proof fn lemma_replace_first_argument_at_immune(
    tree: &SyntaxTree,
    target_id: i64,
    source: Seq<u8>,
    kinds: Seq<Seq<char>>,
    field: Seq<char>,
    alt_kinds: Seq<Seq<char>>,
    slug: Seq<char>,
    callee_marker: Seq<u8>,
    replacement: Seq<u8>,
    i: int,
)
    requires
        0 <= i < tree.nodes@.len(),
    ensures
        all_immune(
            tree,
            replace_first_argument_at(
                tree,
                target_id,
                source,
                kinds,
                field,
                alt_kinds,
                slug,
                callee_marker,
                replacement,
                i,
            ),
        ),
{
    if 0 <= i < tree.nodes@.len() && !tree.in_comment(i) {
        lemma_first_with_field(tree, tree.children(i), field);
        lemma_first_with_kind(tree, tree.children(i), alt_kinds.push(field));
        match argument_container_among(tree, i, field, alt_kinds) {
            Some(c) => {
                lemma_member_is_child(tree, i, c);
                lemma_first_non_punctuation(tree, tree.children(c as int));
                match first_non_punctuation(tree, tree.children(c as int)) {
                    Some(a) => {
                        lemma_member_is_child(tree, c as int, a);
                        lemma_node_edit_near(
                            tree,
                            target_id,
                            source,
                            slug,
                            replacement,
                            i,
                            a as int,
                        );
                    },
                    None => {},
                }
            },
            None => {},
        }
    }
}

/// Comment immunity of replacing first arguments: every edit comes from a node that
/// is no comment and lies in none.
pub proof fn lemma_replace_first_argument_immune(
    tree: &SyntaxTree,
    target_id: i64,
    source: Seq<u8>,
    kinds: Seq<Seq<char>>,
    field: Seq<char>,
    alt_kinds: Seq<Seq<char>>,
    slug: Seq<char>,
    callee_marker: Seq<u8>,
    replacement: Seq<u8>,
    n: nat,
)
    requires
        n <= tree.nodes@.len(),
    ensures
        all_immune(
            tree,
            replace_first_argument_upto(
                tree,
                target_id,
                source,
                kinds,
                field,
                alt_kinds,
                slug,
                callee_marker,
                replacement,
                n,
            ),
        ),
    decreases n,
{
    if n > 0 {
        lemma_replace_first_argument_immune(
            tree,
            target_id,
            source,
            kinds,
            field,
            alt_kinds,
            slug,
            callee_marker,
            replacement,
            (n - 1) as nat,
        );
        lemma_replace_first_argument_at_immune(
            tree,
            target_id,
            source,
            kinds,
            field,
            alt_kinds,
            slug,
            callee_marker,
            replacement,
            n - 1,
        );
        lemma_immune_concat(
            tree,
            replace_first_argument_upto(
                tree,
                target_id,
                source,
                kinds,
                field,
                alt_kinds,
                slug,
                callee_marker,
                replacement,
                (n - 1) as nat,
            ),
            replace_first_argument_at(
                tree,
                target_id,
                source,
                kinds,
                field,
                alt_kinds,
                slug,
                callee_marker,
                replacement,
                n - 1,
            ),
        );
    }
}

/// What replacing whole nodes emits at one node replaces that node, which lies
/// outside comments.
pub proof fn lemma_replace_entire_at_replaces_free_nodes(
    tree: &SyntaxTree,
    target_id: i64,
    source: Seq<u8>,
    kinds: Seq<Seq<char>>,
    slug: Seq<char>,
    replacement: Seq<u8>,
    skip: Seq<u8>,
    i: int,
)
    requires
        0 <= i < tree.nodes@.len(),
    ensures
        all_replace_free_nodes(
            tree,
            source,
            replace_entire_at(tree, target_id, source, kinds, slug, replacement, skip, i),
        ),
{
    if 0 <= i < tree.nodes@.len() && !tree.in_comment(i) {
        lemma_node_edit_is_free(tree, target_id, source, slug, replacement, i);
    }
}

/// Every edit of replacing whole nodes replaces the whole text of a node that is
/// no comment and lies in none.
pub proof fn lemma_replace_entire_replaces_free_nodes(
    tree: &SyntaxTree,
    target_id: i64,
    source: Seq<u8>,
    kinds: Seq<Seq<char>>,
    slug: Seq<char>,
    replacement: Seq<u8>,
    skip: Seq<u8>,
    n: nat,
)
    requires
        n <= tree.nodes@.len(),
    ensures
        all_replace_free_nodes(
            tree,
            source,
            replace_entire_upto(tree, target_id, source, kinds, slug, replacement, skip, n),
        ),
    decreases n,
{
    if n > 0 {
        lemma_replace_entire_replaces_free_nodes(
            tree,
            target_id,
            source,
            kinds,
            slug,
            replacement,
            skip,
            (n - 1) as nat,
        );
        lemma_replace_entire_at_replaces_free_nodes(
            tree,
            target_id,
            source,
            kinds,
            slug,
            replacement,
            skip,
            n - 1,
        );
        lemma_free_nodes_concat(
            tree,
            source,
            replace_entire_upto(
                tree,
                target_id,
                source,
                kinds,
                slug,
                replacement,
                skip,
                (n - 1) as nat,
            ),
            replace_entire_at(tree, target_id, source, kinds, slug, replacement, skip, n - 1),
        );
    }
}

/// What wrapping emits at one node replaces that node, which lies
/// outside comments.
pub proof fn lemma_wrap_at_replaces_free_nodes(
    tree: &SyntaxTree,
    target_id: i64,
    source: Seq<u8>,
    kinds: Seq<Seq<char>>,
    slug: Seq<char>,
    prefix: Seq<u8>,
    suffix: Seq<u8>,
    i: int,
)
    requires
        0 <= i < tree.nodes@.len(),
    ensures
        all_replace_free_nodes(
            tree,
            source,
            wrap_at(tree, target_id, source, kinds, slug, prefix, suffix, i),
        ),
{
    if 0 <= i < tree.nodes@.len() && !tree.in_comment(i) {
        match node_text_at(tree, source, i) {
            Some(text) => {
                lemma_node_edit_is_free(tree, target_id, source, slug, prefix + text + suffix, i);
            },
            None => {},
        }
    }
}

/// Every edit of wrapping replaces the whole text of a node that is
/// no comment and lies in none.
pub proof fn lemma_wrap_replaces_free_nodes(
    tree: &SyntaxTree,
    target_id: i64,
    source: Seq<u8>,
    kinds: Seq<Seq<char>>,
    slug: Seq<char>,
    prefix: Seq<u8>,
    suffix: Seq<u8>,
    n: nat,
)
    requires
        n <= tree.nodes@.len(),
    ensures
        all_replace_free_nodes(
            tree,
            source,
            wrap_upto(tree, target_id, source, kinds, slug, prefix, suffix, n),
        ),
    decreases n,
{
    if n > 0 {
        lemma_wrap_replaces_free_nodes(
            tree,
            target_id,
            source,
            kinds,
            slug,
            prefix,
            suffix,
            (n - 1) as nat,
        );
        lemma_wrap_at_replaces_free_nodes(
            tree,
            target_id,
            source,
            kinds,
            slug,
            prefix,
            suffix,
            n - 1,
        );
        lemma_free_nodes_concat(
            tree,
            source,
            wrap_upto(tree, target_id, source, kinds, slug, prefix, suffix, (n - 1) as nat),
            wrap_at(tree, target_id, source, kinds, slug, prefix, suffix, n - 1),
        );
    }
}

/// The edit puts its old text between `prefix` and `suffix`.
pub open spec fn is_wrapping(m: MutantView, prefix: Seq<u8>, suffix: Seq<u8>) -> bool {
    m.new_text == prefix + m.old_text + suffix
}

/// Every edit of the list puts its old text between `prefix` and `suffix`.
pub open spec fn all_wrapping(edits: Seq<MutantView>, prefix: Seq<u8>, suffix: Seq<u8>) -> bool {
    forall|k: int| 0 <= k < edits.len() ==> is_wrapping(#[trigger] edits[k], prefix, suffix)
}

/// Every edit that wrapping emits puts the old text between the prefix
/// and the suffix.
pub proof fn lemma_wrap_is_wrapping(
    tree: &SyntaxTree,
    target_id: i64,
    source: Seq<u8>,
    kinds: Seq<Seq<char>>,
    slug: Seq<char>,
    prefix: Seq<u8>,
    suffix: Seq<u8>,
    n: nat,
)
    ensures
        all_wrapping(
            wrap_upto(tree, target_id, source, kinds, slug, prefix, suffix, n),
            prefix,
            suffix,
        ),
    decreases n,
{
    if n > 0 {
        lemma_wrap_is_wrapping(
            tree,
            target_id,
            source,
            kinds,
            slug,
            prefix,
            suffix,
            (n - 1) as nat,
        );
        let earlier = wrap_upto(
            tree,
            target_id,
            source,
            kinds,
            slug,
            prefix,
            suffix,
            (n - 1) as nat,
        );
        let here = wrap_at(tree, target_id, source, kinds, slug, prefix, suffix, n - 1);
        assert forall|k: int| 0 <= k < (earlier + here).len() implies is_wrapping(
            #[trigger] (earlier + here)[k],
            prefix,
            suffix,
        ) by {
            if k < earlier.len() {
                assert((earlier + here)[k] == earlier[k]);
            } else {
                assert((earlier + here)[k] == here[k - earlier.len()]);
            }
        }
    }
}

/// The text holds `needle` nowhere but at `place`.
pub open spec fn occurs_only_at(text: Seq<u8>, needle: Seq<u8>, place: int) -> bool {
    forall|at: int| occurs_at(text, needle, at) ==> at == place
}

/// A text in a block comment: the opening delimiter, a space, the text, a
/// space, and the closing delimiter.
pub open spec fn in_block_comment(text: Seq<u8>, open: Seq<u8>, close: Seq<u8>) -> Seq<u8> {
    open + seq![0x20u8] + text + seq![0x20u8] + close
}

/// A text that holds no comment delimiter gives, in a block comment, a
/// comment that is not nested: the opening delimiter stands at its start
/// and nowhere else, the closing delimiter at its end and nowhere else.
/// The delimiters are two bytes each, differ, and hold no space.
pub proof fn lemma_block_comment_is_not_nested(text: Seq<u8>, open: Seq<u8>, close: Seq<u8>)
    requires
        open.len() == 2,
        close.len() == 2,
        open != close,
        open[0] != 0x20 && open[1] != 0x20 && close[0] != 0x20 && close[1] != 0x20,
        !contains_bytes(text, open),
        !contains_bytes(text, close),
    ensures
        occurs_only_at(in_block_comment(text, open, close), open, 0),
        occurs_only_at(
            in_block_comment(text, open, close),
            close,
            in_block_comment(text, open, close).len() - 2,
        ),
        occurs_at(in_block_comment(text, open, close), open, 0),
        occurs_at(
            in_block_comment(text, open, close),
            close,
            in_block_comment(text, open, close).len() - 2,
        ),
{
    let whole = in_block_comment(text, open, close);
    let n = text.len() as int;
    assert(whole.len() == n + 6);
    assert(whole.subrange(0, 2) =~= open);
    assert(whole.subrange(n + 4, n + 6) =~= close);
    assert forall|at: int| occurs_at(whole, open, at) implies at == 0 by {
        lemma_pair_in_comment(text, open, close, open, at);
        if at == n + 4 {
            assert(whole.subrange(at, at + 2) =~= close);
        }
    }
    assert forall|at: int| occurs_at(whole, close, at) implies at == n + 4 by {
        lemma_pair_in_comment(text, open, close, close, at);
        if at == 0 {
            assert(whole.subrange(at, at + 2) =~= open);
        }
    }
}

/// Two bytes without a space that stand in a block comment stand at its
/// start, at its end, or inside the text.
proof fn lemma_pair_in_comment(
    text: Seq<u8>,
    open: Seq<u8>,
    close: Seq<u8>,
    pair: Seq<u8>,
    at: int,
)
    requires
        open.len() == 2,
        close.len() == 2,
        pair.len() == 2,
        pair[0] != 0x20 && pair[1] != 0x20,
        !contains_bytes(text, pair),
        occurs_at(in_block_comment(text, open, close), pair, at),
    ensures
        at == 0 || at == text.len() + 4,
{
    let whole = in_block_comment(text, open, close);
    let n = text.len() as int;
    let found = whole.subrange(at, at + 2);
    assert(found[0] == whole[at] && found[1] == whole[at + 1]);
    assert(whole[2] == 0x20u8);
    assert(whole[n + 3] == 0x20u8);
    if 3 <= at && at + 2 <= n + 3 {
        assert(text.subrange(at - 3, at - 1) =~= found);
        assert(occurs_at(text, pair, at - 3));
    }
}

} // verus!
