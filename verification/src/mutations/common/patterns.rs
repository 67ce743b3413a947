//! The patterns: walks over a syntax tree that emit edits.
//!
//! Every pattern visits the nodes of the tree in document order and
//! collects edits; none changes the source. A node that is a comment, or
//! lies inside one, is never touched. Each pattern is specified by what it
//! emits at one node; the whole result is what it emits at the first node,
//! then at the second, and so on.

use crate::cst::{contains_str, has_ancestor_with_kind, is_in_comment, str_views, SyntaxTree};
use crate::mutations::common::utils::{
    as_list,
    create_mutant,
    mutant_for,
    mutant_for_node,
    mutant_from_text,
    node_text,
    node_text_at,
};
use crate::text::{
    append_str,
    bytes_eq,
    contains,
    contains_bytes,
    lemma_encode_concat,
    replace_all,
    replaced,
    string_from_utf8,
};
use crate::types::mutants::{mutant_views, push_mutant, Mutant, MutantView};
use crate::types::targets::Target;
use vstd::prelude::*;
use vstd::utf8::*;

verus! {

/// The UTF-8 bytes of each string of a list.
pub open spec fn str_bytes(items: Seq<&str>) -> Seq<Seq<u8>> {
    items.map_values(|s: &str| encode_utf8(s@))
}

/// Whether `item` is the text of one of `items`.
pub fn contains_text(items: &[&str], item: &[u8]) -> (r: bool)
    ensures
        r == str_bytes(items@).contains(item@),
{
    let mut k: usize = 0;
    while k < items.len()
        invariant
            k <= items@.len(),
            forall|n: int| 0 <= n < k ==> str_bytes(items@)[n] != item@,
        decreases items@.len() - k,
    {
        if bytes_eq(items[k].as_bytes(), item) {
            assert(str_bytes(items@)[k as int] == item@);
            return true;
        }
        k += 1;
    }
    false
}

// ---------------------------------------------------------------------
// Replace a field of a node
// ---------------------------------------------------------------------
/// What replacing a field emits at node `i`: where the node has the kind
/// and is no comment, one edit that replaces the first child filling the
/// field by the new text, unless that child is a comment.
pub open spec fn replace_field_at(
    tree: &SyntaxTree,
    target_id: i64,
    source: Seq<u8>,
    kind: Seq<char>,
    field: Seq<char>,
    slug: Seq<char>,
    new_text: Seq<u8>,
    i: int,
) -> Seq<MutantView> {
    if tree.kind(i) == kind && !tree.in_comment(i) {
        match tree.child_by_field(i, field) {
            Some(c) => if tree.in_comment(c as int) {
                Seq::empty()
            } else {
                as_list(mutant_for_node(tree, target_id, source, slug, new_text, c as int))
            },
            None => Seq::empty(),
        }
    } else {
        Seq::empty()
    }
}

/// What replacing a field emits at the first `n` nodes.
pub open spec fn replace_field_upto(
    tree: &SyntaxTree,
    target_id: i64,
    source: Seq<u8>,
    kind: Seq<char>,
    field: Seq<char>,
    slug: Seq<char>,
    new_text: Seq<u8>,
    n: nat,
) -> Seq<MutantView>
    decreases n,
{
    if n == 0 {
        Seq::empty()
    } else {
        replace_field_upto(tree, target_id, source, kind, field, slug, new_text, (n - 1) as nat)
            + replace_field_at(tree, target_id, source, kind, field, slug, new_text, n - 1)
    }
}

/// Replace a specific child field on nodes of a given kind with fixed text.
pub fn replace_field_for_nodes_of_kind(
    target: &Target,
    tree: &SyntaxTree,
    source: &str,
    node_kind: &str,
    field_name: &str,
    slug: &str,
    new_text: &str,
) -> (r: Vec<Mutant>)
    ensures
        mutant_views(r@) == replace_field_upto(
            tree,
            target.id,
            encode_utf8(source@),
            node_kind@,
            field_name@,
            slug@,
            encode_utf8(new_text@),
            tree.len(),
        ),
{
    let mut out: Vec<Mutant> = Vec::new();
    let mut i: usize = 0;
    assert(mutant_views(out@) =~= Seq::<MutantView>::empty());
    while i < tree.nodes.len()
        invariant
            i <= tree.nodes@.len(),
            mutant_views(out@) == replace_field_upto(
                tree,
                target.id,
                encode_utf8(source@),
                node_kind@,
                field_name@,
                slug@,
                encode_utf8(new_text@),
                i as nat,
            ),
        decreases tree.nodes@.len() - i,
    {
        let ghost before = mutant_views(out@);
        if tree.kind_is(i, node_kind) && !is_in_comment(tree, i) {
            match tree.child_by_field_name(i, field_name) {
                Some(c) => {
                    if !is_in_comment(tree, c) {
                        match create_mutant(
                            target,
                            &tree.nodes[c],
                            source,
                            slug,
                            new_text.to_owned(),
                        ) {
                            Some(m) => {
                                push_mutant(&mut out, m);
                                assert(mutant_views(out@) =~= before + seq![m@]);
                            },
                            None => {},
                        }
                    }
                },
                None => {},
            }
        }
        assert(mutant_views(out@) =~= before + replace_field_at(
            tree,
            target.id,
            encode_utf8(source@),
            node_kind@,
            field_name@,
            slug@,
            encode_utf8(new_text@),
            i as int,
        ));
        i += 1;
    }
    out
}

// ---------------------------------------------------------------------
// Replace whole nodes
// ---------------------------------------------------------------------
/// Node `i` is a statement to act on: it has one of the kinds, is no
/// comment, and no ancestor of it has one of the kinds.
pub open spec fn is_outermost_of_kinds(tree: &SyntaxTree, kinds: Seq<Seq<char>>, i: int) -> bool {
    kinds.contains(tree.kind(i)) && !tree.in_comment(i) && !tree.has_ancestor_of_kinds(i, kinds)
}

/// What replacing whole nodes emits at node `i`: where the node is an
/// outermost node of the kinds and its text does not hold `skip`, one edit
/// that replaces its whole text.
pub open spec fn replace_entire_at(
    tree: &SyntaxTree,
    target_id: i64,
    source: Seq<u8>,
    kinds: Seq<Seq<char>>,
    slug: Seq<char>,
    replacement: Seq<u8>,
    skip: Seq<u8>,
    i: int,
) -> Seq<MutantView> {
    if is_outermost_of_kinds(tree, kinds, i) {
        match node_text_at(tree, source, i) {
            Some(text) => if contains_bytes(text, skip) {
                Seq::empty()
            } else {
                as_list(mutant_for_node(tree, target_id, source, slug, replacement, i))
            },
            None => Seq::empty(),
        }
    } else {
        Seq::empty()
    }
}

/// What replacing whole nodes emits at the first `n` nodes.
pub open spec fn replace_entire_upto(
    tree: &SyntaxTree,
    target_id: i64,
    source: Seq<u8>,
    kinds: Seq<Seq<char>>,
    slug: Seq<char>,
    replacement: Seq<u8>,
    skip: Seq<u8>,
    n: nat,
) -> Seq<MutantView>
    decreases n,
{
    if n == 0 {
        Seq::empty()
    } else {
        replace_entire_upto(tree, target_id, source, kinds, slug, replacement, skip, (n - 1) as nat)
            + replace_entire_at(tree, target_id, source, kinds, slug, replacement, skip, n - 1)
    }
}

/// Replace entire nodes of the provided kinds with a fixed replacement
/// text, leaving alone every node whose text already holds
/// `skip_containing`.
pub fn replace_entire_nodes_of_kinds_filtered(
    target: &Target,
    tree: &SyntaxTree,
    source: &str,
    node_kinds: &[&str],
    slug: &str,
    replacement_text: &str,
    skip_containing: &str,
) -> (r: Vec<Mutant>)
    ensures
        mutant_views(r@) == replace_entire_upto(
            tree,
            target.id,
            encode_utf8(source@),
            str_views(node_kinds@),
            slug@,
            encode_utf8(replacement_text@),
            encode_utf8(skip_containing@),
            tree.len(),
        ),
{
    let mut out: Vec<Mutant> = Vec::new();
    let mut i: usize = 0;
    assert(mutant_views(out@) =~= Seq::<MutantView>::empty());
    while i < tree.nodes.len()
        invariant
            i <= tree.nodes@.len(),
            mutant_views(out@) == replace_entire_upto(
                tree,
                target.id,
                encode_utf8(source@),
                str_views(node_kinds@),
                slug@,
                encode_utf8(replacement_text@),
                encode_utf8(skip_containing@),
                i as nat,
            ),
        decreases tree.nodes@.len() - i,
    {
        let ghost before = mutant_views(out@);
        if tree.kind_in(i, node_kinds) && !is_in_comment(tree, i) && !has_ancestor_with_kind(
            tree,
            i,
            node_kinds,
        ) {
            match node_text(&tree.nodes[i], source) {
                Some(text) => {
                    if !contains(text.as_str().as_bytes(), skip_containing.as_bytes()) {
                        let m = mutant_from_text(
                            target,
                            source,
                            tree.nodes[i].start_byte,
                            tree.nodes[i].end_byte,
                            slug,
                            text,
                            replacement_text.to_owned(),
                        );
                        push_mutant(&mut out, m);
                        assert(mutant_views(out@) =~= before + seq![m@]);
                    }
                },
                None => {},
            }
        }
        assert(mutant_views(out@) =~= before + replace_entire_at(
            tree,
            target.id,
            encode_utf8(source@),
            str_views(node_kinds@),
            slug@,
            encode_utf8(replacement_text@),
            encode_utf8(skip_containing@),
            i as int,
        ));
        i += 1;
    }
    out
}

// ---------------------------------------------------------------------
// Wrap whole nodes
// ---------------------------------------------------------------------
/// What wrapping emits at node `i`: where the node is an outermost node
/// of the kinds, one edit that puts `prefix` before its text and `suffix`
/// after it.
pub open spec fn wrap_at(
    tree: &SyntaxTree,
    target_id: i64,
    source: Seq<u8>,
    kinds: Seq<Seq<char>>,
    slug: Seq<char>,
    prefix: Seq<u8>,
    suffix: Seq<u8>,
    i: int,
) -> Seq<MutantView> {
    if is_outermost_of_kinds(tree, kinds, i) {
        match node_text_at(tree, source, i) {
            Some(text) => as_list(
                mutant_for_node(tree, target_id, source, slug, prefix + text + suffix, i),
            ),
            None => Seq::empty(),
        }
    } else {
        Seq::empty()
    }
}

/// What wrapping emits at the first `n` nodes.
pub open spec fn wrap_upto(
    tree: &SyntaxTree,
    target_id: i64,
    source: Seq<u8>,
    kinds: Seq<Seq<char>>,
    slug: Seq<char>,
    prefix: Seq<u8>,
    suffix: Seq<u8>,
    n: nat,
) -> Seq<MutantView>
    decreases n,
{
    if n == 0 {
        Seq::empty()
    } else {
        wrap_upto(tree, target_id, source, kinds, slug, prefix, suffix, (n - 1) as nat) + wrap_at(
            tree,
            target_id,
            source,
            kinds,
            slug,
            prefix,
            suffix,
            n - 1,
        )
    }
}

/// Wrap entire nodes of the provided kinds with arbitrary prefix/suffix
/// around the old text.
pub fn wrap_nodes_of_kinds_with_wrappers(
    target: &Target,
    tree: &SyntaxTree,
    source: &str,
    node_kinds: &[&str],
    slug: &str,
    prefix: &str,
    suffix: &str,
) -> (r: Vec<Mutant>)
    ensures
        mutant_views(r@) == wrap_upto(
            tree,
            target.id,
            encode_utf8(source@),
            str_views(node_kinds@),
            slug@,
            encode_utf8(prefix@),
            encode_utf8(suffix@),
            tree.len(),
        ),
{
    let mut out: Vec<Mutant> = Vec::new();
    let mut i: usize = 0;
    assert(mutant_views(out@) =~= Seq::<MutantView>::empty());
    while i < tree.nodes.len()
        invariant
            i <= tree.nodes@.len(),
            mutant_views(out@) == wrap_upto(
                tree,
                target.id,
                encode_utf8(source@),
                str_views(node_kinds@),
                slug@,
                encode_utf8(prefix@),
                encode_utf8(suffix@),
                i as nat,
            ),
        decreases tree.nodes@.len() - i,
    {
        let ghost before = mutant_views(out@);
        if tree.kind_in(i, node_kinds) && !is_in_comment(tree, i) && !has_ancestor_with_kind(
            tree,
            i,
            node_kinds,
        ) {
            match node_text(&tree.nodes[i], source) {
                Some(text) => {
                    let head = append_str(prefix.to_owned(), text.as_str());
                    let replacement = append_str(head, suffix);
                    proof {
                        lemma_encode_concat(prefix@, text@);
                        lemma_encode_concat(prefix@ + text@, suffix@);
                    }
                    let m = mutant_from_text(
                        target,
                        source,
                        tree.nodes[i].start_byte,
                        tree.nodes[i].end_byte,
                        slug,
                        text,
                        replacement,
                    );
                    push_mutant(&mut out, m);
                    assert(mutant_views(out@) =~= before + seq![m@]);
                },
                None => {},
            }
        }
        assert(mutant_views(out@) =~= before + wrap_at(
            tree,
            target.id,
            encode_utf8(source@),
            str_views(node_kinds@),
            slug@,
            encode_utf8(prefix@),
            encode_utf8(suffix@),
            i as int,
        ));
        i += 1;
    }
    out
}

// ---------------------------------------------------------------------
// Flip boolean literals
// ---------------------------------------------------------------------
/// The other boolean literal: `false` for `true`, and `true` for every
/// other text.
pub open spec fn flipped_boolean(old: Seq<u8>) -> Seq<u8> {
    if old == encode_utf8("true"@) {
        encode_utf8("false"@)
    } else {
        encode_utf8("true"@)
    }
}

/// What flipping booleans emits at node `i`: where the node has the kind
/// and is no comment, one edit that replaces it by the other literal.
pub open spec fn flip_boolean_at(
    tree: &SyntaxTree,
    target_id: i64,
    source: Seq<u8>,
    kind: Seq<char>,
    slug: Seq<char>,
    i: int,
) -> Seq<MutantView> {
    if tree.kind(i) == kind && !tree.in_comment(i) {
        match node_text_at(tree, source, i) {
            Some(old) => as_list(
                mutant_for_node(tree, target_id, source, slug, flipped_boolean(old), i),
            ),
            None => Seq::empty(),
        }
    } else {
        Seq::empty()
    }
}

/// What flipping booleans emits at the first `n` nodes.
pub open spec fn flip_boolean_upto(
    tree: &SyntaxTree,
    target_id: i64,
    source: Seq<u8>,
    kind: Seq<char>,
    slug: Seq<char>,
    n: nat,
) -> Seq<MutantView>
    decreases n,
{
    if n == 0 {
        Seq::empty()
    } else {
        flip_boolean_upto(tree, target_id, source, kind, slug, (n - 1) as nat) + flip_boolean_at(
            tree,
            target_id,
            source,
            kind,
            slug,
            n - 1,
        )
    }
}

/// Flip boolean literal nodes of a specific kind by replacing "true" <-> "false".
pub fn flip_boolean_literals_by_kind(
    target: &Target,
    tree: &SyntaxTree,
    source: &str,
    boolean_node_kind: &str,
    slug: &str,
) -> (r: Vec<Mutant>)
    ensures
        mutant_views(r@) == flip_boolean_upto(
            tree,
            target.id,
            encode_utf8(source@),
            boolean_node_kind@,
            slug@,
            tree.len(),
        ),
{
    let mut out: Vec<Mutant> = Vec::new();
    let mut i: usize = 0;
    assert(mutant_views(out@) =~= Seq::<MutantView>::empty());
    while i < tree.nodes.len()
        invariant
            i <= tree.nodes@.len(),
            mutant_views(out@) == flip_boolean_upto(
                tree,
                target.id,
                encode_utf8(source@),
                boolean_node_kind@,
                slug@,
                i as nat,
            ),
        decreases tree.nodes@.len() - i,
    {
        let ghost before = mutant_views(out@);
        if tree.kind_is(i, boolean_node_kind) && !is_in_comment(tree, i) {
            match node_text(&tree.nodes[i], source) {
                Some(old) => {
                    let new = if bytes_eq(old.as_str().as_bytes(), "true".as_bytes()) {
                        "false".to_owned()
                    } else {
                        "true".to_owned()
                    };
                    let m = mutant_from_text(
                        target,
                        source,
                        tree.nodes[i].start_byte,
                        tree.nodes[i].end_byte,
                        slug,
                        old,
                        new,
                    );
                    push_mutant(&mut out, m);
                    assert(mutant_views(out@) =~= before + seq![m@]);
                },
                None => {},
            }
        }
        assert(mutant_views(out@) =~= before + flip_boolean_at(
            tree,
            target.id,
            encode_utf8(source@),
            boolean_node_kind@,
            slug@,
            i as int,
        ));
        i += 1;
    }
    out
}

// ---------------------------------------------------------------------
// Swap loop control statements
// ---------------------------------------------------------------------
/// The text of a loop control statement with the other keyword: in a
/// `break` statement every `break` becomes `continue`, in a `continue`
/// statement every `continue` becomes `break`.
pub open spec fn swapped_loop_control(old: Seq<u8>, is_break: bool) -> Seq<u8> {
    if is_break {
        replaced(old, encode_utf8("break"@), encode_utf8("continue"@))
    } else {
        replaced(old, encode_utf8("continue"@), encode_utf8("break"@))
    }
}

/// What swapping loop control emits at node `i`: where the node is a
/// `break` or `continue` statement outside comments, one edit that
/// replaces it by the statement with the other keyword, provided that
/// this is text.
pub open spec fn swap_loop_control_at(
    tree: &SyntaxTree,
    target_id: i64,
    source: Seq<u8>,
    break_kind: Seq<char>,
    continue_kind: Seq<char>,
    slug: Seq<char>,
    i: int,
) -> Seq<MutantView> {
    if !tree.in_comment(i) && (tree.kind(i) == break_kind || tree.kind(i) == continue_kind) {
        match node_text_at(tree, source, i) {
            Some(old) => {
                let new = swapped_loop_control(old, tree.kind(i) == break_kind);
                if valid_utf8(new) {
                    as_list(mutant_for_node(tree, target_id, source, slug, new, i))
                } else {
                    Seq::empty()
                }
            },
            None => Seq::empty(),
        }
    } else {
        Seq::empty()
    }
}

/// What swapping loop control emits at the first `n` nodes.
pub open spec fn swap_loop_control_upto(
    tree: &SyntaxTree,
    target_id: i64,
    source: Seq<u8>,
    break_kind: Seq<char>,
    continue_kind: Seq<char>,
    slug: Seq<char>,
    n: nat,
) -> Seq<MutantView>
    decreases n,
{
    if n == 0 {
        Seq::empty()
    } else {
        swap_loop_control_upto(
            tree,
            target_id,
            source,
            break_kind,
            continue_kind,
            slug,
            (n - 1) as nat,
        ) + swap_loop_control_at(tree, target_id, source, break_kind, continue_kind, slug, n - 1)
    }
}

/// Swap loop control statements for any language by node kind strings.
pub fn swap_loop_control_statements(
    target: &Target,
    tree: &SyntaxTree,
    source: &str,
    break_kind: &str,
    continue_kind: &str,
    slug: &str,
) -> (r: Vec<Mutant>)
    ensures
        mutant_views(r@) == swap_loop_control_upto(
            tree,
            target.id,
            encode_utf8(source@),
            break_kind@,
            continue_kind@,
            slug@,
            tree.len(),
        ),
{
    let mut out: Vec<Mutant> = Vec::new();
    let mut i: usize = 0;
    assert(mutant_views(out@) =~= Seq::<MutantView>::empty());
    while i < tree.nodes.len()
        invariant
            i <= tree.nodes@.len(),
            mutant_views(out@) == swap_loop_control_upto(
                tree,
                target.id,
                encode_utf8(source@),
                break_kind@,
                continue_kind@,
                slug@,
                i as nat,
            ),
        decreases tree.nodes@.len() - i,
    {
        let ghost before = mutant_views(out@);
        if !is_in_comment(tree, i) {
            let is_break = tree.kind_is(i, break_kind);
            if is_break || tree.kind_is(i, continue_kind) {
                match node_text(&tree.nodes[i], source) {
                    Some(old) => {
                        let new_bytes = if is_break {
                            replace_all(
                                old.as_str().as_bytes(),
                                "break".as_bytes(),
                                "continue".as_bytes(),
                            )
                        } else {
                            replace_all(
                                old.as_str().as_bytes(),
                                "continue".as_bytes(),
                                "break".as_bytes(),
                            )
                        };
                        match string_from_utf8(new_bytes) {
                            Some(new) => {
                                let m = mutant_from_text(
                                    target,
                                    source,
                                    tree.nodes[i].start_byte,
                                    tree.nodes[i].end_byte,
                                    slug,
                                    old,
                                    new,
                                );
                                push_mutant(&mut out, m);
                                assert(mutant_views(out@) =~= before + seq![m@]);
                            },
                            None => {},
                        }
                    },
                    None => {},
                }
            }
        }
        assert(mutant_views(out@) =~= before + swap_loop_control_at(
            tree,
            target.id,
            encode_utf8(source@),
            break_kind@,
            continue_kind@,
            slug@,
            i as int,
        ));
        i += 1;
    }
    out
}

// ---------------------------------------------------------------------
// Shuffle: one edit for each other member of a set
// ---------------------------------------------------------------------
/// One edit of node `i` for each of the first `n` choices that is not
/// `current`, in the order of the choices.
pub open spec fn alternatives_upto(
    tree: &SyntaxTree,
    target_id: i64,
    source: Seq<u8>,
    slug: Seq<char>,
    choices: Seq<Seq<u8>>,
    current: Seq<u8>,
    i: int,
    n: nat,
) -> Seq<MutantView>
    decreases n,
{
    if n == 0 {
        Seq::empty()
    } else {
        alternatives_upto(tree, target_id, source, slug, choices, current, i, (n - 1) as nat) + (
        if choices[n - 1] == current {
            Seq::empty()
        } else {
            as_list(mutant_for_node(tree, target_id, source, slug, choices[n - 1], i))
        })
    }
}

/// What shuffling emits for node `i`: where the text of the node is one
/// of the choices, one edit for each other choice.
pub open spec fn shuffle_at(
    tree: &SyntaxTree,
    target_id: i64,
    source: Seq<u8>,
    slug: Seq<char>,
    choices: Seq<Seq<u8>>,
    i: int,
) -> Seq<MutantView> {
    match node_text_at(tree, source, i) {
        Some(text) => if choices.contains(text) {
            alternatives_upto(tree, target_id, source, slug, choices, text, i, choices.len())
        } else {
            Seq::empty()
        },
        None => Seq::empty(),
    }
}

/// Appends to `out` what shuffling emits for node `i`.
fn shuffle_node(
    target: &Target,
    tree: &SyntaxTree,
    source: &str,
    slug: &str,
    choices: &[&str],
    i: usize,
    out: &mut Vec<Mutant>,
)
    requires
        i < tree.len(),
    ensures
        mutant_views(final(out)@) == mutant_views(old(out)@) + shuffle_at(
            tree,
            target.id,
            encode_utf8(source@),
            slug@,
            str_bytes(choices@),
            i as int,
        ),
{
    let ghost before = mutant_views(out@);
    assert(before + Seq::<MutantView>::empty() =~= before);
    match node_text(&tree.nodes[i], source) {
        Some(text) => {
            if contains_text(choices, text.as_str().as_bytes()) {
                let mut k: usize = 0;
                while k < choices.len()
                    invariant
                        k <= choices@.len(),
                        i < tree.len(),
                        node_text_at(tree, encode_utf8(source@), i as int) == Some(
                            encode_utf8(text@),
                        ),
                        mutant_views(out@) == before + alternatives_upto(
                            tree,
                            target.id,
                            encode_utf8(source@),
                            slug@,
                            str_bytes(choices@),
                            encode_utf8(text@),
                            i as int,
                            k as nat,
                        ),
                    decreases choices@.len() - k,
                {
                    let ghost so_far = mutant_views(out@);
                    let ghost earlier = alternatives_upto(
                        tree,
                        target.id,
                        encode_utf8(source@),
                        slug@,
                        str_bytes(choices@),
                        encode_utf8(text@),
                        i as int,
                        k as nat,
                    );
                    assert(str_bytes(choices@)[k as int] == encode_utf8(choices@[k as int]@));
                    if !bytes_eq(choices[k].as_bytes(), text.as_str().as_bytes()) {
                        match create_mutant(
                            target,
                            &tree.nodes[i],
                            source,
                            slug,
                            choices[k].to_owned(),
                        ) {
                            Some(m) => {
                                push_mutant(out, m);
                                assert(mutant_views(out@) =~= before + (earlier + seq![m@]));
                            },
                            None => {},
                        }
                    } else {
                        assert(so_far =~= before + (earlier + Seq::<MutantView>::empty()));
                    }
                    k += 1;
                }
            }
        },
        None => {},
    }
}

/// What shuffling nodes emits at node `i`: where the node has one of the
/// kinds, is no comment, and its text is one of the labels, one edit for
/// each other label.
pub open spec fn shuffle_nodes_at(
    tree: &SyntaxTree,
    target_id: i64,
    source: Seq<u8>,
    kinds: Seq<Seq<char>>,
    labels: Seq<Seq<u8>>,
    slug: Seq<char>,
    i: int,
) -> Seq<MutantView> {
    if kinds.contains(tree.kind(i)) && !tree.in_comment(i) {
        shuffle_at(tree, target_id, source, slug, labels, i)
    } else {
        Seq::empty()
    }
}

/// What shuffling nodes emits at the first `n` nodes.
pub open spec fn shuffle_nodes_upto(
    tree: &SyntaxTree,
    target_id: i64,
    source: Seq<u8>,
    kinds: Seq<Seq<char>>,
    labels: Seq<Seq<u8>>,
    slug: Seq<char>,
    n: nat,
) -> Seq<MutantView>
    decreases n,
{
    if n == 0 {
        Seq::empty()
    } else {
        shuffle_nodes_upto(tree, target_id, source, kinds, labels, slug, (n - 1) as nat)
            + shuffle_nodes_at(tree, target_id, source, kinds, labels, slug, n - 1)
    }
}

/// For every node of the given kinds whose text is one of the labels,
/// emits one mutant per other label.
pub fn shuffle_nodes(
    target: &Target,
    tree: &SyntaxTree,
    source: &str,
    node_kinds: &[&str],
    labels: &[&str],
    slug: &str,
) -> (r: Vec<Mutant>)
    ensures
        mutant_views(r@) == shuffle_nodes_upto(
            tree,
            target.id,
            encode_utf8(source@),
            str_views(node_kinds@),
            str_bytes(labels@),
            slug@,
            tree.len(),
        ),
{
    let mut out: Vec<Mutant> = Vec::new();
    let mut i: usize = 0;
    assert(mutant_views(out@) =~= Seq::<MutantView>::empty());
    while i < tree.nodes.len()
        invariant
            i <= tree.nodes@.len(),
            mutant_views(out@) == shuffle_nodes_upto(
                tree,
                target.id,
                encode_utf8(source@),
                str_views(node_kinds@),
                str_bytes(labels@),
                slug@,
                i as nat,
            ),
        decreases tree.nodes@.len() - i,
    {
        let ghost before = mutant_views(out@);
        if tree.kind_in(i, node_kinds) && !is_in_comment(tree, i) {
            shuffle_node(target, tree, source, slug, labels, i, &mut out);
        } else {
            assert(before + Seq::<MutantView>::empty() =~= before);
        }
        i += 1;
    }
    out
}

// ---------------------------------------------------------------------
// Shuffle operators inside expressions
// ---------------------------------------------------------------------
/// What shuffling emits for the first `n` of the given nodes, comments
/// left out.
pub open spec fn shuffle_each_upto(
    tree: &SyntaxTree,
    target_id: i64,
    source: Seq<u8>,
    slug: Seq<char>,
    choices: Seq<Seq<u8>>,
    nodes: Seq<usize>,
    n: nat,
) -> Seq<MutantView>
    decreases n,
{
    if n == 0 {
        Seq::empty()
    } else {
        shuffle_each_upto(tree, target_id, source, slug, choices, nodes, (n - 1) as nat) + (
        if tree.in_comment(nodes[n - 1] as int) {
            Seq::empty()
        } else {
            shuffle_at(tree, target_id, source, slug, choices, nodes[n - 1] as int)
        })
    }
}

/// What shuffling operators emits at node `i`: where the node has one of
/// the expression kinds and is no comment, for each child that is no
/// comment and whose text is one of the operators, one edit for each
/// other operator.
pub open spec fn shuffle_operators_at(
    tree: &SyntaxTree,
    target_id: i64,
    source: Seq<u8>,
    kinds: Seq<Seq<char>>,
    operators: Seq<Seq<u8>>,
    slug: Seq<char>,
    i: int,
) -> Seq<MutantView> {
    if kinds.contains(tree.kind(i)) && !tree.in_comment(i) {
        shuffle_each_upto(
            tree,
            target_id,
            source,
            slug,
            operators,
            tree.children(i),
            tree.children(i).len(),
        )
    } else {
        Seq::empty()
    }
}

/// What shuffling operators emits at the first `n` nodes.
pub open spec fn shuffle_operators_upto(
    tree: &SyntaxTree,
    target_id: i64,
    source: Seq<u8>,
    kinds: Seq<Seq<char>>,
    operators: Seq<Seq<u8>>,
    slug: Seq<char>,
    n: nat,
) -> Seq<MutantView>
    decreases n,
{
    if n == 0 {
        Seq::empty()
    } else {
        shuffle_operators_upto(tree, target_id, source, kinds, operators, slug, (n - 1) as nat)
            + shuffle_operators_at(tree, target_id, source, kinds, operators, slug, n - 1)
    }
}

/// Shuffle operator tokens inside expressions of specified kinds by
/// replacing any occurrence of the provided operators with any other in
/// the set (excluding identity).
pub fn shuffle_operators_in_expressions(
    target: &Target,
    tree: &SyntaxTree,
    source: &str,
    expr_node_kinds: &[&str],
    operators: &[&str],
    slug: &str,
) -> (r: Vec<Mutant>)
    ensures
        mutant_views(r@) == shuffle_operators_upto(
            tree,
            target.id,
            encode_utf8(source@),
            str_views(expr_node_kinds@),
            str_bytes(operators@),
            slug@,
            tree.len(),
        ),
{
    let mut out: Vec<Mutant> = Vec::new();
    let mut i: usize = 0;
    assert(mutant_views(out@) =~= Seq::<MutantView>::empty());
    while i < tree.nodes.len()
        invariant
            i <= tree.nodes@.len(),
            mutant_views(out@) == shuffle_operators_upto(
                tree,
                target.id,
                encode_utf8(source@),
                str_views(expr_node_kinds@),
                str_bytes(operators@),
                slug@,
                i as nat,
            ),
        decreases tree.nodes@.len() - i,
    {
        let ghost before = mutant_views(out@);
        if tree.kind_in(i, expr_node_kinds) && !is_in_comment(tree, i) {
            let children = tree.child_indices(i);
            let mut k: usize = 0;
            assert(before + Seq::<MutantView>::empty() =~= before);
            while k < children.len()
                invariant
                    k <= children@.len(),
                    children@ == tree.children(i as int),
                    forall|n: int|
                        0 <= n < children@.len() ==> (#[trigger] children@[n]) < tree.len(),
                    mutant_views(out@) == before + shuffle_each_upto(
                        tree,
                        target.id,
                        encode_utf8(source@),
                        slug@,
                        str_bytes(operators@),
                        children@,
                        k as nat,
                    ),
                decreases children@.len() - k,
            {
                let ghost earlier = shuffle_each_upto(
                    tree,
                    target.id,
                    encode_utf8(source@),
                    slug@,
                    str_bytes(operators@),
                    children@,
                    k as nat,
                );
                if !is_in_comment(tree, children[k]) {
                    shuffle_node(target, tree, source, slug, operators, children[k], &mut out);
                    assert(mutant_views(out@) =~= before + (earlier + shuffle_at(
                        tree,
                        target.id,
                        encode_utf8(source@),
                        slug@,
                        str_bytes(operators@),
                        children@[k as int] as int,
                    )));
                } else {
                    assert(mutant_views(out@) =~= before + (earlier + Seq::<
                        MutantView,
                    >::empty()));
                }
                k += 1;
            }
        } else {
            assert(before + Seq::<MutantView>::empty() =~= before);
        }
        i += 1;
    }
    out
}

// ---------------------------------------------------------------------
// Punctuation and the children that are arguments
// ---------------------------------------------------------------------
/// The kind of a parenthesis or a comma.
pub open spec fn is_punctuation(kind: Seq<char>) -> bool {
    kind == "("@ || kind == ")"@ || kind == ","@
}

/// Whether a kind is that of a parenthesis or a comma.
pub fn is_punctuation_kind(kind: &str) -> (r: bool)
    ensures
        r == is_punctuation(kind@),
{
    crate::text::str_eq(kind, "(") || crate::text::str_eq(kind, ")") || crate::text::str_eq(
        kind,
        ",",
    )
}

/// Whether a kind is one of the keywords.
pub fn is_keyword_kind(kind: &str, keywords: &[&str]) -> (r: bool)
    ensures
        r == str_views(keywords@).contains(kind@),
{
    contains_str(keywords, kind)
}

/// Those of `items` that are no punctuation and no comment, in their
/// order.
pub open spec fn non_punctuation(tree: &SyntaxTree, items: Seq<usize>) -> Seq<usize>
    decreases items.len(),
{
    if items.len() == 0 {
        Seq::empty()
    } else if is_punctuation(tree.kind(items.last() as int)) || tree.in_comment(
        items.last() as int,
    ) {
        non_punctuation(tree, items.drop_last())
    } else {
        non_punctuation(tree, items.drop_last()).push(items.last())
    }
}

/// The children of node `c` that are no punctuation and no comment.
fn argument_nodes(tree: &SyntaxTree, c: usize) -> (r: Vec<usize>)
    ensures
        r@ == non_punctuation(tree, tree.children(c as int)),
        forall|n: int| 0 <= n < r@.len() ==> (#[trigger] r@[n]) < tree.len(),
{
    let children = tree.child_indices(c);
    let mut out: Vec<usize> = Vec::new();
    let mut k: usize = 0;
    while k < children.len()
        invariant
            k <= children@.len(),
            forall|n: int| 0 <= n < children@.len() ==> (#[trigger] children@[n]) < tree.len(),
            forall|n: int| 0 <= n < out@.len() ==> (#[trigger] out@[n]) < tree.len(),
            out@ == non_punctuation(tree, children@.subrange(0, k as int)),
        decreases children@.len() - k,
    {
        assert(children@.subrange(0, k + 1).drop_last() =~= children@.subrange(0, k as int));
        let j = children[k];
        if !is_punctuation_kind(tree.nodes[j].kind.as_str()) && !is_in_comment(tree, j) {
            out.push(j);
        }
        k += 1;
    }
    assert(children@.subrange(0, children@.len() as int) =~= children@);
    out
}

// ---------------------------------------------------------------------
// Swap adjacent arguments
// ---------------------------------------------------------------------
/// The node that holds the arguments of call `i`: the first child that
/// fills the field `container` or, where there is none, the first child
/// of the kind `container`.
pub open spec fn argument_container(tree: &SyntaxTree, i: int, container: Seq<char>) -> Option<
    usize,
> {
    match tree.child_by_field(i, container) {
        Some(c) => Some(c),
        None => tree.child_by_kinds(i, seq![container]),
    }
}

/// The edit that swaps two arguments `a` and `b`: it replaces the source
/// from the start of `a` to the end of `b` by the text of `b`, a comma and
/// a space, and the text of `a`.
pub open spec fn swapped_pair(
    tree: &SyntaxTree,
    target_id: i64,
    source: Seq<u8>,
    slug: Seq<char>,
    a: int,
    b: int,
) -> Seq<MutantView> {
    match (node_text_at(tree, source, a), node_text_at(tree, source, b)) {
        (Some(a_text), Some(b_text)) => as_list(
            mutant_for(
                target_id,
                source,
                tree.nodes@[a].start_byte as int,
                tree.nodes@[b].end_byte as int,
                slug,
                b_text + encode_utf8(", "@) + a_text,
            ),
        ),
        _ => Seq::empty(),
    }
}

/// The swaps of the first `n` adjacent pairs of `args`.
pub open spec fn swapped_pairs_upto(
    tree: &SyntaxTree,
    target_id: i64,
    source: Seq<u8>,
    slug: Seq<char>,
    args: Seq<usize>,
    n: nat,
) -> Seq<MutantView>
    decreases n,
{
    if n == 0 {
        Seq::empty()
    } else {
        swapped_pairs_upto(tree, target_id, source, slug, args, (n - 1) as nat) + swapped_pair(
            tree,
            target_id,
            source,
            slug,
            args[n - 1] as int,
            args[n as int] as int,
        )
    }
}

/// What swapping arguments emits at node `i`: where the node has one of
/// the call kinds and is no comment, one swap for every adjacent pair of
/// its arguments.
pub open spec fn swap_arguments_at(
    tree: &SyntaxTree,
    target_id: i64,
    source: Seq<u8>,
    kinds: Seq<Seq<char>>,
    container: Seq<char>,
    slug: Seq<char>,
    i: int,
) -> Seq<MutantView> {
    if kinds.contains(tree.kind(i)) && !tree.in_comment(i) {
        match argument_container(tree, i, container) {
            Some(c) => {
                let args = non_punctuation(tree, tree.children(c as int));
                if args.len() >= 2 {
                    swapped_pairs_upto(
                        tree,
                        target_id,
                        source,
                        slug,
                        args,
                        (args.len() - 1) as nat,
                    )
                } else {
                    Seq::empty()
                }
            },
            None => Seq::empty(),
        }
    } else {
        Seq::empty()
    }
}

/// What swapping arguments emits at the first `n` nodes.
pub open spec fn swap_arguments_upto(
    tree: &SyntaxTree,
    target_id: i64,
    source: Seq<u8>,
    kinds: Seq<Seq<char>>,
    container: Seq<char>,
    slug: Seq<char>,
    n: nat,
) -> Seq<MutantView>
    decreases n,
{
    if n == 0 {
        Seq::empty()
    } else {
        swap_arguments_upto(tree, target_id, source, kinds, container, slug, (n - 1) as nat)
            + swap_arguments_at(tree, target_id, source, kinds, container, slug, n - 1)
    }
}

/// Appends to `out` the swap of the arguments `a` and `b`.
fn swap_pair(
    target: &Target,
    tree: &SyntaxTree,
    source: &str,
    slug: &str,
    a: usize,
    b: usize,
    out: &mut Vec<Mutant>,
)
    requires
        a < tree.len(),
        b < tree.len(),
    ensures
        mutant_views(final(out)@) == mutant_views(old(out)@) + swapped_pair(
            tree,
            target.id,
            encode_utf8(source@),
            slug@,
            a as int,
            b as int,
        ),
{
    let ghost before = mutant_views(out@);
    assert(before + Seq::<MutantView>::empty() =~= before);
    match node_text(&tree.nodes[a], source) {
        Some(a_text) => {
            match node_text(&tree.nodes[b], source) {
                Some(b_text) => {
                    let head = append_str(b_text, ", ");
                    let swapped = append_str(head, a_text.as_str());
                    proof {
                        lemma_encode_concat(b_text@, ", "@);
                        lemma_encode_concat(b_text@ + ", "@, a_text@);
                    }
                    match crate::mutations::common::utils::mutant_between(
                        target,
                        source,
                        tree.nodes[a].start_byte,
                        tree.nodes[b].end_byte,
                        slug,
                        swapped,
                    ) {
                        Some(m) => {
                            push_mutant(out, m);
                            assert(mutant_views(out@) =~= before + seq![m@]);
                        },
                        None => {},
                    }
                },
                None => {},
            }
        },
        None => {},
    }
}

/// Swap adjacent arguments of calls of the specified node kinds. The
/// arguments are the children, other than parentheses and commas, of the
/// child that fills the field `args_field_name` or, where no child does,
/// of the first child of that kind.
pub fn swap_adjacent_arguments_for_kinds(
    target: &Target,
    tree: &SyntaxTree,
    source: &str,
    node_kinds: &[&str],
    args_field_name: &str,
    slug: &str,
) -> (r: Vec<Mutant>)
    ensures
        mutant_views(r@) == swap_arguments_upto(
            tree,
            target.id,
            encode_utf8(source@),
            str_views(node_kinds@),
            args_field_name@,
            slug@,
            tree.len(),
        ),
{
    let mut out: Vec<Mutant> = Vec::new();
    let mut i: usize = 0;
    assert(mutant_views(out@) =~= Seq::<MutantView>::empty());
    while i < tree.nodes.len()
        invariant
            i <= tree.nodes@.len(),
            mutant_views(out@) == swap_arguments_upto(
                tree,
                target.id,
                encode_utf8(source@),
                str_views(node_kinds@),
                args_field_name@,
                slug@,
                i as nat,
            ),
        decreases tree.nodes@.len() - i,
    {
        let ghost before = mutant_views(out@);
        assert(before + Seq::<MutantView>::empty() =~= before);
        if tree.kind_in(i, node_kinds) && !is_in_comment(tree, i) {
            let container = match tree.child_by_field_name(i, args_field_name) {
                Some(c) => Some(c),
                None => {
                    let one = [args_field_name];
                    assert(str_views(one@) =~= seq![args_field_name@]);
                    tree.child_by_kind_in(i, one.as_slice())
                },
            };
            match container {
                Some(c) => {
                    let args = argument_nodes(tree, c);
                    if args.len() >= 2 {
                        let mut k: usize = 0;
                        while k < args.len() - 1
                            invariant
                                k <= args@.len() - 1,
                                args@.len() >= 2,
                                forall|n: int|
                                    0 <= n < args@.len() ==> (#[trigger] args@[n]) < tree.len(),
                                mutant_views(out@) == before + swapped_pairs_upto(
                                    tree,
                                    target.id,
                                    encode_utf8(source@),
                                    slug@,
                                    args@,
                                    k as nat,
                                ),
                            decreases args@.len() - k,
                        {
                            let ghost earlier = swapped_pairs_upto(
                                tree,
                                target.id,
                                encode_utf8(source@),
                                slug@,
                                args@,
                                k as nat,
                            );
                            swap_pair(target, tree, source, slug, args[k], args[k + 1], &mut out);
                            assert(mutant_views(out@) =~= before + (earlier + swapped_pair(
                                tree,
                                target.id,
                                encode_utf8(source@),
                                slug@,
                                args@[k as int] as int,
                                args@[k + 1] as int,
                            )));
                            k += 1;
                        }
                    }
                },
                None => {},
            }
        }
        i += 1;
    }
    out
}

// ---------------------------------------------------------------------
// Replace a condition
// ---------------------------------------------------------------------
/// Node `j` can be the condition of a statement: the parser did not make
/// it up or fail on it, it is no keyword, no punctuation and no comment,
/// and it is a named node.
pub open spec fn is_condition_candidate(
    tree: &SyntaxTree,
    keywords: Seq<Seq<char>>,
    j: int,
) -> bool {
    &&& !tree.nodes@[j].is_missing
    &&& !tree.nodes@[j].is_error
    &&& !keywords.contains(tree.kind(j))
    &&& !is_punctuation(tree.kind(j))
    &&& !tree.in_comment(j)
    &&& tree.nodes@[j].is_named
}

/// The first of `items` that can be a condition.
pub open spec fn first_condition_candidate(
    tree: &SyntaxTree,
    items: Seq<usize>,
    keywords: Seq<Seq<char>>,
) -> Option<usize>
    decreases items.len(),
{
    if items.len() == 0 {
        None
    } else if is_condition_candidate(tree, keywords, items[0] as int) {
        Some(items[0])
    } else {
        first_condition_candidate(tree, items.drop_first(), keywords)
    }
}

/// The condition of statement `i`: the first child that fills the field,
/// unless that one is a comment, or, where no child fills the field, the
/// first child that can be a condition, unless that one is a `;` or a
/// `{`.
pub open spec fn condition_node(
    tree: &SyntaxTree,
    i: int,
    field: Seq<char>,
    keywords: Seq<Seq<char>>,
) -> Option<usize> {
    match tree.child_by_field(i, field) {
        Some(c) => if tree.in_comment(c as int) {
            None
        } else {
            Some(c)
        },
        None => match first_condition_candidate(tree, tree.children(i), keywords) {
            Some(c) => if tree.kind(c as int) == ";"@ || tree.kind(c as int) == "{"@ {
                None
            } else {
                Some(c)
            },
            None => None,
        },
    }
}

/// The text begins with `(` and ends with `)`.
pub open spec fn is_parenthesized(text: Seq<u8>) -> bool {
    text.len() > 0 && text[0] == 0x28 && text.last() == 0x29
}

/// What stands in place of a condition: the replacement, inside
/// parentheses where the condition had them.
pub open spec fn condition_replacement(old: Seq<u8>, replacement: Seq<u8>) -> Seq<u8> {
    if is_parenthesized(old) {
        encode_utf8("("@) + replacement + encode_utf8(")"@)
    } else {
        replacement
    }
}

/// What replacing conditions emits at node `i`: where the node has the
/// kind and is no comment, one edit that replaces its condition.
pub open spec fn replace_condition_at(
    tree: &SyntaxTree,
    target_id: i64,
    source: Seq<u8>,
    kind: Seq<char>,
    field: Seq<char>,
    keywords: Seq<Seq<char>>,
    slug: Seq<char>,
    replacement: Seq<u8>,
    i: int,
) -> Seq<MutantView> {
    if tree.kind(i) == kind && !tree.in_comment(i) {
        match condition_node(tree, i, field, keywords) {
            Some(c) => match node_text_at(tree, source, c as int) {
                Some(old) => as_list(
                    mutant_for_node(
                        tree,
                        target_id,
                        source,
                        slug,
                        condition_replacement(old, replacement),
                        c as int,
                    ),
                ),
                None => Seq::empty(),
            },
            None => Seq::empty(),
        }
    } else {
        Seq::empty()
    }
}

/// What replacing conditions emits at the first `n` nodes.
pub open spec fn replace_condition_upto(
    tree: &SyntaxTree,
    target_id: i64,
    source: Seq<u8>,
    kind: Seq<char>,
    field: Seq<char>,
    keywords: Seq<Seq<char>>,
    slug: Seq<char>,
    replacement: Seq<u8>,
    n: nat,
) -> Seq<MutantView>
    decreases n,
{
    if n == 0 {
        Seq::empty()
    } else {
        replace_condition_upto(
            tree,
            target_id,
            source,
            kind,
            field,
            keywords,
            slug,
            replacement,
            (n - 1) as nat,
        ) + replace_condition_at(
            tree,
            target_id,
            source,
            kind,
            field,
            keywords,
            slug,
            replacement,
            n - 1,
        )
    }
}

/// The first child of node `i` that can be a condition.
fn first_named_child_after_keyword(tree: &SyntaxTree, i: usize, keywords: &[&str]) -> (r: Option<
    usize,
>)
    ensures
        r == first_condition_candidate(tree, tree.children(i as int), str_views(keywords@)),
        r matches Some(j) ==> j < tree.len(),
{
    let children = tree.child_indices(i);
    let mut k: usize = 0;
    assert(children@.subrange(0, children@.len() as int) =~= children@);
    while k < children.len()
        invariant
            k <= children@.len(),
            children@ == tree.children(i as int),
            forall|n: int| 0 <= n < children@.len() ==> (#[trigger] children@[n]) < tree.len(),
            first_condition_candidate(tree, children@, str_views(keywords@))
                == first_condition_candidate(
                tree,
                children@.subrange(k as int, children@.len() as int),
                str_views(keywords@),
            ),
        decreases children@.len() - k,
    {
        let j = children[k];
        let ghost rest = children@.subrange(k as int, children@.len() as int);
        assert(rest[0] == j);
        assert(rest.drop_first() =~= children@.subrange(k + 1, children@.len() as int));
        let node = &tree.nodes[j];
        let kind = node.kind.as_str();
        if !node.is_missing && !node.is_error && !is_keyword_kind(kind, keywords)
            && !is_punctuation_kind(kind) && !is_in_comment(tree, j) && node.is_named {
            assert(first_condition_candidate(tree, rest, str_views(keywords@)) == Some(j));
            return Some(j);
        }
        k += 1;
    }
    None
}

/// Replace a condition for nodes of a specific kind: the child that fills
/// the field or, where there is none, the first named child that is no
/// keyword and no punctuation. Parentheses around the condition stay.
pub fn replace_condition_for_nodes_of_kind(
    target: &Target,
    tree: &SyntaxTree,
    source: &str,
    node_kind: &str,
    condition_field_name: &str,
    keyword_kinds: &[&str],
    slug: &str,
    replacement: &str,
) -> (r: Vec<Mutant>)
    ensures
        mutant_views(r@) == replace_condition_upto(
            tree,
            target.id,
            encode_utf8(source@),
            node_kind@,
            condition_field_name@,
            str_views(keyword_kinds@),
            slug@,
            encode_utf8(replacement@),
            tree.len(),
        ),
{
    let mut out: Vec<Mutant> = Vec::new();
    let mut i: usize = 0;
    assert(mutant_views(out@) =~= Seq::<MutantView>::empty());
    while i < tree.nodes.len()
        invariant
            i <= tree.nodes@.len(),
            mutant_views(out@) == replace_condition_upto(
                tree,
                target.id,
                encode_utf8(source@),
                node_kind@,
                condition_field_name@,
                str_views(keyword_kinds@),
                slug@,
                encode_utf8(replacement@),
                i as nat,
            ),
        decreases tree.nodes@.len() - i,
    {
        let ghost before = mutant_views(out@);
        if tree.kind_is(i, node_kind) && !is_in_comment(tree, i) {
            let condition = match tree.child_by_field_name(i, condition_field_name) {
                Some(c) => if is_in_comment(tree, c) {
                    None
                } else {
                    Some(c)
                },
                None => match first_named_child_after_keyword(tree, i, keyword_kinds) {
                    Some(c) => if tree.kind_is(c, ";") || tree.kind_is(c, "{") {
                        None
                    } else {
                        Some(c)
                    },
                    None => None,
                },
            };
            match condition {
                Some(c) => {
                    match node_text(&tree.nodes[c], source) {
                        Some(old) => {
                            let old_bytes = old.as_str().as_bytes();
                            let needs_parens = old_bytes.len() > 0 && old_bytes[0] == 0x28
                                && old_bytes[old_bytes.len() - 1] == 0x29;
                            let new_text = if needs_parens {
                                let head = append_str("(".to_owned(), replacement);
                                proof {
                                    lemma_encode_concat("("@, replacement@);
                                    lemma_encode_concat("("@ + replacement@, ")"@);
                                }
                                append_str(head, ")")
                            } else {
                                replacement.to_owned()
                            };
                            let m = mutant_from_text(
                                target,
                                source,
                                tree.nodes[c].start_byte,
                                tree.nodes[c].end_byte,
                                slug,
                                old,
                                new_text,
                            );
                            push_mutant(&mut out, m);
                            assert(mutant_views(out@) =~= before + seq![m@]);
                        },
                        None => {},
                    }
                },
                None => {},
            }
        }
        assert(mutant_views(out@) =~= before + replace_condition_at(
            tree,
            target.id,
            encode_utf8(source@),
            node_kind@,
            condition_field_name@,
            str_views(keyword_kinds@),
            slug@,
            encode_utf8(replacement@),
            i as int,
        ));
        i += 1;
    }
    out
}

/// Replace the repeat count for nodes of a specific kind: the count is
/// found and replaced as a condition is.
pub fn replace_repeat_count_for_nodes_of_kind(
    target: &Target,
    tree: &SyntaxTree,
    source: &str,
    node_kind: &str,
    count_field_name: &str,
    keyword_kinds: &[&str],
    slug: &str,
    replacement: &str,
) -> (r: Vec<Mutant>)
    ensures
        mutant_views(r@) == replace_condition_upto(
            tree,
            target.id,
            encode_utf8(source@),
            node_kind@,
            count_field_name@,
            str_views(keyword_kinds@),
            slug@,
            encode_utf8(replacement@),
            tree.len(),
        ),
{
    replace_condition_for_nodes_of_kind(
        target,
        tree,
        source,
        node_kind,
        count_field_name,
        keyword_kinds,
        slug,
        replacement,
    )
}

// ---------------------------------------------------------------------
// Replace the first argument of chosen calls
// ---------------------------------------------------------------------
/// The first of `items` that is no punctuation and no comment.
pub open spec fn first_non_punctuation(tree: &SyntaxTree, items: Seq<usize>) -> Option<usize>
    decreases items.len(),
{
    if items.len() == 0 {
        None
    } else if !is_punctuation(tree.kind(items[0] as int)) && !tree.in_comment(items[0] as int) {
        Some(items[0])
    } else {
        first_non_punctuation(tree, items.drop_first())
    }
}

/// The node that holds the arguments of call `i`: the first child that
/// fills the field or, where there is none, the first child whose kind is
/// one of `alt_kinds` or the name of the field.
pub open spec fn argument_container_among(
    tree: &SyntaxTree,
    i: int,
    field: Seq<char>,
    alt_kinds: Seq<Seq<char>>,
) -> Option<usize> {
    match tree.child_by_field(i, field) {
        Some(c) => Some(c),
        None => tree.child_by_kinds(i, alt_kinds.push(field)),
    }
}

/// What replacing first arguments emits at node `i`: where the node has
/// one of the call kinds, is no comment, and the text of its first child
/// holds `callee_marker`, one edit that replaces the first argument.
pub open spec fn replace_first_argument_at(
    tree: &SyntaxTree,
    target_id: i64,
    source: Seq<u8>,
    kinds: Seq<Seq<char>>,
    field: Seq<char>,
    alt_kinds: Seq<Seq<char>>,
    slug: Seq<char>,
    callee_marker: Seq<u8>,
    replacement: Seq<u8>,
    i: int,
) -> Seq<MutantView> {
    if kinds.contains(tree.kind(i)) && !tree.in_comment(i) && tree.children(i).len() > 0 {
        match node_text_at(tree, source, tree.children(i)[0] as int) {
            Some(callee) => if contains_bytes(callee, callee_marker) {
                match argument_container_among(tree, i, field, alt_kinds) {
                    Some(c) => match first_non_punctuation(tree, tree.children(c as int)) {
                        Some(a) => as_list(
                            mutant_for_node(tree, target_id, source, slug, replacement, a as int),
                        ),
                        None => Seq::empty(),
                    },
                    None => Seq::empty(),
                }
            } else {
                Seq::empty()
            },
            None => Seq::empty(),
        }
    } else {
        Seq::empty()
    }
}

/// What replacing first arguments emits at the first `n` nodes.
pub open spec fn replace_first_argument_upto(
    tree: &SyntaxTree,
    target_id: i64,
    source: Seq<u8>,
    kinds: Seq<Seq<char>>,
    field: Seq<char>,
    alt_kinds: Seq<Seq<char>>,
    slug: Seq<char>,
    callee_marker: Seq<u8>,
    replacement: Seq<u8>,
    n: nat,
) -> Seq<MutantView>
    decreases n,
{
    if n == 0 {
        Seq::empty()
    } else {
        replace_first_argument_upto(
            tree,
            target_id,
            source,
            kinds,
            field,
            alt_kinds,
            slug,
            callee_marker,
            replacement,
            (n - 1) as nat,
        ) + replace_first_argument_at(
            tree,
            target_id,
            source,
            kinds,
            field,
            alt_kinds,
            slug,
            callee_marker,
            replacement,
            n - 1,
        )
    }
}

/// The first child of node `c` that is no punctuation and no comment.
fn first_argument(tree: &SyntaxTree, c: usize) -> (r: Option<usize>)
    ensures
        r == first_non_punctuation(tree, tree.children(c as int)),
        r matches Some(j) ==> j < tree.len(),
{
    let children = tree.child_indices(c);
    let mut k: usize = 0;
    assert(children@.subrange(0, children@.len() as int) =~= children@);
    while k < children.len()
        invariant
            k <= children@.len(),
            children@ == tree.children(c as int),
            forall|n: int| 0 <= n < children@.len() ==> (#[trigger] children@[n]) < tree.len(),
            first_non_punctuation(tree, children@) == first_non_punctuation(
                tree,
                children@.subrange(k as int, children@.len() as int),
            ),
        decreases children@.len() - k,
    {
        let j = children[k];
        let ghost rest = children@.subrange(k as int, children@.len() as int);
        assert(rest[0] == j);
        assert(rest.drop_first() =~= children@.subrange(k + 1, children@.len() as int));
        if !is_punctuation_kind(tree.nodes[j].kind.as_str()) && !is_in_comment(tree, j) {
            assert(first_non_punctuation(tree, rest) == Some(j));
            return Some(j);
        }
        k += 1;
    }
    None
}

/// The kinds of `alt_kinds`, then `field`.
fn with_field_kind<'a>(alt_kinds: &[&'a str], field: &'a str) -> (r: Vec<&'a str>)
    ensures
        str_views(r@) == str_views(alt_kinds@).push(field@),
{
    let mut all: Vec<&'a str> = Vec::new();
    let mut k: usize = 0;
    while k < alt_kinds.len()
        invariant
            k <= alt_kinds@.len(),
            all@ == alt_kinds@.subrange(0, k as int),
        decreases alt_kinds@.len() - k,
    {
        all.push(alt_kinds[k]);
        assert(all@ =~= alt_kinds@.subrange(0, k + 1));
        k += 1;
    }
    all.push(field);
    assert(alt_kinds@.subrange(0, alt_kinds@.len() as int) =~= alt_kinds@);
    assert(str_views(all@) =~= str_views(alt_kinds@).push(field@));
    all
}

/// Replace the first argument for calls whose callee, the text of the
/// call's first child, holds `callee_marker`.
pub fn replace_first_argument_for_calls_matching(
    target: &Target,
    tree: &SyntaxTree,
    source: &str,
    call_node_kinds: &[&str],
    args_field_name: &str,
    alt_args_kinds: &[&str],
    slug: &str,
    callee_marker: &str,
    replacement: &str,
) -> (r: Vec<Mutant>)
    ensures
        mutant_views(r@) == replace_first_argument_upto(
            tree,
            target.id,
            encode_utf8(source@),
            str_views(call_node_kinds@),
            args_field_name@,
            str_views(alt_args_kinds@),
            slug@,
            encode_utf8(callee_marker@),
            encode_utf8(replacement@),
            tree.len(),
        ),
{
    let mut out: Vec<Mutant> = Vec::new();
    let container_kinds = with_field_kind(alt_args_kinds, args_field_name);
    let mut i: usize = 0;
    assert(mutant_views(out@) =~= Seq::<MutantView>::empty());
    while i < tree.nodes.len()
        invariant
            i <= tree.nodes@.len(),
            str_views(container_kinds@) == str_views(alt_args_kinds@).push(args_field_name@),
            mutant_views(out@) == replace_first_argument_upto(
                tree,
                target.id,
                encode_utf8(source@),
                str_views(call_node_kinds@),
                args_field_name@,
                str_views(alt_args_kinds@),
                slug@,
                encode_utf8(callee_marker@),
                encode_utf8(replacement@),
                i as nat,
            ),
        decreases tree.nodes@.len() - i,
    {
        let ghost before = mutant_views(out@);
        if tree.kind_in(i, call_node_kinds) && !is_in_comment(tree, i) {
            let children = tree.child_indices(i);
            if children.len() > 0 {
                match node_text(&tree.nodes[children[0]], source) {
                    Some(callee) => {
                        if contains(callee.as_str().as_bytes(), callee_marker.as_bytes()) {
                            let container = match tree.child_by_field_name(i, args_field_name) {
                                Some(c) => Some(c),
                                None => tree.child_by_kind_in(i, container_kinds.as_slice()),
                            };
                            match container {
                                Some(c) => {
                                    match first_argument(tree, c) {
                                        Some(a) => {
                                            match create_mutant(
                                                target,
                                                &tree.nodes[a],
                                                source,
                                                slug,
                                                replacement.to_owned(),
                                            ) {
                                                Some(m) => {
                                                    push_mutant(&mut out, m);
                                                    assert(mutant_views(out@) =~= before
                                                        + seq![m@]);
                                                },
                                                None => {},
                                            }
                                        },
                                        None => {},
                                    }
                                },
                                None => {},
                            }
                        }
                    },
                    None => {},
                }
            }
        }
        assert(mutant_views(out@) =~= before + replace_first_argument_at(
            tree,
            target.id,
            encode_utf8(source@),
            str_views(call_node_kinds@),
            args_field_name@,
            str_views(alt_args_kinds@),
            slug@,
            encode_utf8(callee_marker@),
            encode_utf8(replacement@),
            i as int,
        ));
        i += 1;
    }
    out
}

} // verus!
