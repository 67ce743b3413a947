//! Mutants: byte-exact edits proposed for one target.

use crate::text::count_byte;
use vstd::prelude::*;
use vstd::utf8::*;

verus! {

/// A proposed edit to exactly one target.
#[derive(Clone, Debug)]
pub struct Mutant {
    pub id: i64,
    pub target_id: i64,
    /// Where the edit starts, in bytes from the start of the target's text.
    pub byte_offset: u32,
    /// Number of line feeds before `byte_offset`.
    pub line_offset: u32,
    /// The text that the edit removes.
    pub old_text: String,
    /// The text that the edit puts in its place.
    pub new_text: String,
    /// The kind of mutation.
    pub mutation_slug: String,
}

/// A mutant as the rules see it: texts as UTF-8 bytes.
pub struct MutantView {
    pub id: i64,
    pub target_id: i64,
    pub byte_offset: u32,
    pub line_offset: u32,
    pub old_text: Seq<u8>,
    pub new_text: Seq<u8>,
    pub mutation_slug: Seq<char>,
}

impl View for Mutant {
    type V = MutantView;

    open spec fn view(&self) -> MutantView {
        MutantView {
            id: self.id,
            target_id: self.target_id,
            byte_offset: self.byte_offset,
            line_offset: self.line_offset,
            old_text: encode_utf8(self.old_text@),
            new_text: encode_utf8(self.new_text@),
            mutation_slug: self.mutation_slug@,
        }
    }
}

/// The views of a list of mutants.
pub open spec fn mutant_views(mutants: Seq<Mutant>) -> Seq<MutantView> {
    mutants.map_values(|m: Mutant| m@)
}

impl MutantView {
    /// What tells two mutants of one target apart:
    /// offset, old text, new text and slug.
    pub open spec fn identity(self) -> (u32, Seq<u8>, Seq<u8>, Seq<char>) {
        (self.byte_offset, self.old_text, self.new_text, self.mutation_slug)
    }

    /// Number of line feeds in the old text.
    pub open spec fn newline_count(self) -> nat {
        count_byte(self.old_text, 10u8)
    }

    /// First and last line that the old text touches, counted from 1.
    pub open spec fn lines(self) -> (int, int) {
        (self.line_offset + 1, self.line_offset + 1 + self.newline_count())
    }
}

impl Mutant {
    /// A copy of the mutant.
    pub fn duplicate(&self) -> (r: Mutant)
        ensures
            r == *self,
    {
        Mutant {
            id: self.id,
            target_id: self.target_id,
            byte_offset: self.byte_offset,
            line_offset: self.line_offset,
            old_text: self.old_text.clone(),
            new_text: self.new_text.clone(),
            mutation_slug: self.mutation_slug.clone(),
        }
    }

    /// First and last line that the old text touches, counted from 1.
    pub fn get_lines(&self) -> (r: (u32, u32))
        requires
            self@.lines().1 <= u32::MAX,
        ensures
            r.0 == self@.lines().0,
            r.1 == self@.lines().1,
    {
        let old = self.old_text.as_str().as_bytes();
        let newline_count = crate::text::count_newlines_before(old, old.len());
        let start_line_one_based = self.line_offset + 1;
        (start_line_one_based, start_line_one_based + newline_count as u32)
    }
}

/// Appends a mutant to a list.
pub fn push_mutant(out: &mut Vec<Mutant>, m: Mutant)
    ensures
        mutant_views(final(out)@) == mutant_views(old(out)@).push(m@),
{
    out.push(m);
    assert(mutant_views(out@) =~= mutant_views(old(out)@).push(m@));
}

/// Moves the mutants of `more` to the end of a list.
pub fn append_mutants(out: &mut Vec<Mutant>, more: Vec<Mutant>)
    ensures
        mutant_views(final(out)@) == mutant_views(old(out)@) + mutant_views(more@),
{
    let mut more = more;
    let ghost added = more@;
    out.append(&mut more);
    assert(mutant_views(out@) =~= mutant_views(old(out)@) + mutant_views(added));
}

} // verus!
