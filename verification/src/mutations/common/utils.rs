//! How a node of the tree becomes an edit of the source.

use crate::cst::{SyntaxNode, SyntaxTree};
use crate::text::{count_newlines_before, newlines_before, string_from_utf8};
use crate::types::mutants::{Mutant, MutantView};
use crate::types::targets::Target;
use vstd::prelude::*;
use vstd::utf8::*;

verus! {

/// The text between two byte offsets of a source, where the offsets are in
/// order and inside the source, the source is no longer than a `u32` can
/// count, and the bytes between them are UTF-8 text of their own.
pub open spec fn text_at(source: Seq<u8>, start: int, end: int) -> Option<Seq<u8>> {
    if 0 <= start <= end <= source.len() && source.len() <= u32::MAX && valid_utf8(
        source.subrange(start, end),
    ) {
        Some(source.subrange(start, end))
    } else {
        None
    }
}

/// The text of node `i`.
pub open spec fn node_text_at(tree: &SyntaxTree, source: Seq<u8>, i: int) -> Option<Seq<u8>> {
    if 0 <= i < tree.nodes@.len() {
        text_at(source, tree.nodes@[i].start_byte as int, tree.nodes@[i].end_byte as int)
    } else {
        None
    }
}

/// The edit that puts `new_text` where the source holds the bytes from
/// `start` to `end`: it starts at `start`, its old text is what the source
/// holds there, and its line is the number of line feeds before `start`.
/// There is no edit where there is no text.
pub open spec fn mutant_for(
    target_id: i64,
    source: Seq<u8>,
    start: int,
    end: int,
    slug: Seq<char>,
    new_text: Seq<u8>,
) -> Option<MutantView> {
    match text_at(source, start, end) {
        Some(old_text) => Some(
            MutantView {
                id: 0,
                target_id,
                byte_offset: start as u32,
                line_offset: newlines_before(source, start) as u32,
                old_text,
                new_text,
                mutation_slug: slug,
            },
        ),
        None => None,
    }
}

/// The edit that replaces the whole of node `i` by `new_text`.
pub open spec fn mutant_for_node(
    tree: &SyntaxTree,
    target_id: i64,
    source: Seq<u8>,
    slug: Seq<char>,
    new_text: Seq<u8>,
    i: int,
) -> Option<MutantView> {
    if 0 <= i < tree.nodes@.len() {
        mutant_for(
            target_id,
            source,
            tree.nodes@[i].start_byte as int,
            tree.nodes@[i].end_byte as int,
            slug,
            new_text,
        )
    } else {
        None
    }
}

/// No edit or one edit, as a list.
pub open spec fn as_list(m: Option<MutantView>) -> Seq<MutantView> {
    match m {
        Some(v) => seq![v],
        None => Seq::empty(),
    }
}

/// The text of the source between two byte offsets.
pub fn text_between(source: &str, start: usize, end: usize) -> (r: Option<String>)
    ensures
        r is Some <==> text_at(encode_utf8(source@), start as int, end as int) is Some,
        r matches Some(s) ==> Some(encode_utf8(s@)) == text_at(
            encode_utf8(source@),
            start as int,
            end as int,
        ),
{
    let bytes = source.as_bytes();
    if start > end || end > bytes.len() || bytes.len() > u32::MAX as usize {
        return None;
    }
    let mut copy: Vec<u8> = Vec::new();
    copy.extend_from_slice(&bytes[start..end]);
    assert(copy@ =~= bytes@.subrange(start as int, end as int));
    string_from_utf8(copy)
}

/// Get text content of a node from source.
pub fn node_text(node: &SyntaxNode, source: &str) -> (r: Option<String>)
    ensures
        r is Some <==> text_at(
            encode_utf8(source@),
            node.start_byte as int,
            node.end_byte as int,
        ) is Some,
        r matches Some(s) ==> Some(encode_utf8(s@)) == text_at(
            encode_utf8(source@),
            node.start_byte as int,
            node.end_byte as int,
        ),
{
    text_between(source, node.start_byte, node.end_byte)
}

/// Calculate line offset for a byte position: the number of line feeds
/// before it, as far as a `u32` holds it.
pub fn calculate_line_offset(source: &str, byte_offset: usize) -> (r: u32)
    ensures
        r == newlines_before(encode_utf8(source@), byte_offset as int) % 0x1_0000_0000,
{
    let n: u64 = count_newlines_before(source.as_bytes(), byte_offset) as u64;
    let low: u64 = n & 0xffff_ffff;
    assert(low == n % 0x1_0000_0000) by (bit_vector)
        requires
            low == n & 0xffff_ffff,
    ;
    low as u32
}

/// The edit that puts `new_text` where the source holds the bytes from
/// `start` to `end`, for the given target and slug.
pub fn mutant_between(
    target: &Target,
    source: &str,
    start: usize,
    end: usize,
    slug: &str,
    new_text: String,
) -> (r: Option<Mutant>)
    ensures
        r is Some <==> text_at(encode_utf8(source@), start as int, end as int) is Some,
        r matches Some(m) ==> Some(m@) == mutant_for(
            target.id,
            encode_utf8(source@),
            start as int,
            end as int,
            slug@,
            encode_utf8(new_text@),
        ),
{
    match text_between(source, start, end) {
        Some(old_text) => Some(
            mutant_from_text(target, source, start, end, slug, old_text, new_text),
        ),
        None => None,
    }
}

/// The edit that puts `new_text` where the source holds `old_text`, from
/// `start` to `end`.
pub fn mutant_from_text(
    target: &Target,
    source: &str,
    start: usize,
    end: usize,
    slug: &str,
    old_text: String,
    new_text: String,
) -> (r: Mutant)
    requires
        text_at(encode_utf8(source@), start as int, end as int) == Some(encode_utf8(old_text@)),
    ensures
        Some(r@) == mutant_for(
            target.id,
            encode_utf8(source@),
            start as int,
            end as int,
            slug@,
            encode_utf8(new_text@),
        ),
{
    let line_offset = calculate_line_offset(source, start);
    proof {
        crate::text::lemma_count_byte_bound(encode_utf8(source@).subrange(0, start as int), 10u8);
        crate::text::lemma_count_byte_bound(encode_utf8(source@), 10u8);
    }
    Mutant {
        id: 0,
        target_id: target.id,
        mutation_slug: slug.to_owned(),
        byte_offset: start as u32,
        line_offset,
        old_text,
        new_text,
    }
}

/// Common helper to create a mutant with consistent fields: the edit that
/// replaces the whole of a node by `new_text`.
pub fn create_mutant(
    target: &Target,
    node: &SyntaxNode,
    source: &str,
    slug: &str,
    new_text: String,
) -> (r: Option<Mutant>)
    ensures
        r is Some <==> text_at(
            encode_utf8(source@),
            node.start_byte as int,
            node.end_byte as int,
        ) is Some,
        r matches Some(m) ==> Some(m@) == mutant_for(
            target.id,
            encode_utf8(source@),
            node.start_byte as int,
            node.end_byte as int,
            slug@,
            encode_utf8(new_text@),
        ),
{
    mutant_between(target, source, node.start_byte, node.end_byte, slug, new_text)
}

} // verus!
