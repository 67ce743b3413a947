//! The reporter: how mutants and outcomes are shown.

use crate::mutations::common::slugs::{sorted_unique_slugs, string_views};
use crate::mutations::engine_traits::MutationEngine;
use crate::mutations::registry::{catalog_of, get_mutations_for_language, get_severity_by_slug};
use crate::text::{
    append_str,
    is_white_space,
    leading_space,
    str_eq,
    string_from_utf8,
    trim,
    trimmed,
};
use crate::types::config::{blank, is_blank, pieces, split_bytes};
use crate::types::language::Language;
use crate::types::mutants::{Mutant, MutantView};
use crate::types::mutations::{
    mutation_views,
    severity_in,
    Mutation,
    MutationSeverity,
    MutationView,
};
use crate::types::outcomes::Status;
use crate::types::targets::{fits, Target};
use vstd::prelude::*;
use vstd::utf8::*;

verus! {

// ---------------------------------------------------------------------
// Numbers as text
// ---------------------------------------------------------------------
/// The decimal digit of a number below ten.
pub open spec fn digit_text(d: int) -> Seq<char> {
    if d == 0 {
        "0"@
    } else if d == 1 {
        "1"@
    } else if d == 2 {
        "2"@
    } else if d == 3 {
        "3"@
    } else if d == 4 {
        "4"@
    } else if d == 5 {
        "5"@
    } else if d == 6 {
        "6"@
    } else if d == 7 {
        "7"@
    } else if d == 8 {
        "8"@
    } else {
        "9"@
    }
}

/// A natural number in decimal digits.
pub open spec fn decimal_text(n: nat) -> Seq<char>
    decreases n,
{
    if n < 10 {
        digit_text(n as int)
    } else {
        decimal_text(n / 10) + digit_text((n % 10) as int)
    }
}

/// An integer in decimal digits, with `-` before a negative one.
pub open spec fn integer_text(n: int) -> Seq<char> {
    if n < 0 {
        "-"@ + decimal_text((-n) as nat)
    } else {
        decimal_text(n as nat)
    }
}

/// The decimal digit of a number below ten.
fn digit(d: u64) -> (r: &'static str)
    requires
        d < 10,
    ensures
        r@ == digit_text(d as int),
{
    if d == 0 {
        "0"
    } else if d == 1 {
        "1"
    } else if d == 2 {
        "2"
    } else if d == 3 {
        "3"
    } else if d == 4 {
        "4"
    } else if d == 5 {
        "5"
    } else if d == 6 {
        "6"
    } else if d == 7 {
        "7"
    } else if d == 8 {
        "8"
    } else {
        "9"
    }
}

/// A natural number in decimal digits.
pub fn decimal(n: u64) -> (r: String)
    ensures
        r@ == decimal_text(n as nat),
    decreases n,
{
    if n < 10 {
        digit(n).to_owned()
    } else {
        append_str(decimal(n / 10), digit(n % 10))
    }
}

/// An integer in decimal digits.
pub fn integer(n: i64) -> (r: String)
    ensures
        r@ == integer_text(n as int),
{
    if n < 0 {
        let magnitude: u64 = if n == i64::MIN {
            0x8000_0000_0000_0000
        } else {
            (-n) as u64
        };
        let digits = decimal(magnitude);
        append_str("-".to_owned(), digits.as_str())
    } else {
        decimal(n as u64)
    }
}

// ---------------------------------------------------------------------
// The lines that a mutant touches
// ---------------------------------------------------------------------
/// Where the line begins that holds the byte at `offset`: after the last
/// line feed before the offset.
pub open spec fn line_start(text: Seq<u8>, offset: int) -> int
    decreases offset,
{
    if offset <= 0 {
        0
    } else if text[offset - 1] == 10 {
        offset
    } else {
        line_start(text, offset - 1)
    }
}

/// Where the line ends that holds the byte at `offset`: at the first line
/// feed at or after the offset, or at the end of the text.
pub open spec fn line_end(text: Seq<u8>, offset: int) -> int
    decreases text.len() - offset,
{
    if offset >= text.len() {
        text.len() as int
    } else if text[offset] == 10 {
        offset
    } else {
        line_end(text, offset + 1)
    }
}

/// The whole lines of the text that the old text of the mutant touches.
pub open spec fn touched_lines(text: Seq<u8>, m: MutantView) -> Seq<u8> {
    text.subrange(
        line_start(text, m.byte_offset as int),
        line_end(text, m.byte_offset + m.old_text.len()),
    )
}

/// The same lines after the mutant's edit.
pub open spec fn touched_lines_mutated(text: Seq<u8>, m: MutantView) -> Seq<u8> {
    text.subrange(line_start(text, m.byte_offset as int), m.byte_offset as int) + m.new_text
        + text.subrange(
        m.byte_offset + m.old_text.len(),
        line_end(text, m.byte_offset + m.old_text.len()),
    )
}

/// Where the line begins that holds the byte at `offset`.
fn find_line_start(text: &[u8], offset: usize) -> (r: usize)
    requires
        offset <= text@.len(),
    ensures
        r == line_start(text@, offset as int),
        r <= offset,
{
    let mut at: usize = offset;
    while at > 0 && text[at - 1] != 10
        invariant
            at <= offset <= text@.len(),
            line_start(text@, offset as int) == line_start(text@, at as int),
        decreases at,
    {
        at -= 1;
    }
    at
}

/// Where the line ends that holds the byte at `offset`.
fn find_line_end(text: &[u8], offset: usize) -> (r: usize)
    requires
        offset <= text@.len(),
    ensures
        r == line_end(text@, offset as int),
        offset <= r <= text@.len(),
{
    let mut at: usize = offset;
    while at < text.len() && text[at] != 10
        invariant
            offset <= at <= text@.len(),
            line_end(text@, offset as int) == line_end(text@, at as int),
        decreases text@.len() - at,
    {
        at += 1;
    }
    at
}

// ---------------------------------------------------------------------
// Lines on one line
// ---------------------------------------------------------------------
/// The text that bytes hold, or nothing where they are not UTF-8.
pub open spec fn text_of(bytes: Seq<u8>) -> Seq<char> {
    if valid_utf8(bytes) {
        decode_utf8(bytes)
    } else {
        Seq::empty()
    }
}

/// A line for showing: a line of white space as it is, and any other line
/// with one space in place of the white space at its start.
pub open spec fn shown_line(line: Seq<char>) -> Seq<char> {
    if is_blank(line) || leading_space(line) == 0 {
        line
    } else {
        " "@ + line.subrange(leading_space(line) as int, line.len() as int)
    }
}

/// The first `n` lines for showing, with `\n` written out between them.
pub open spec fn shown_lines_upto(lines: Seq<Seq<u8>>, n: nat) -> Seq<char>
    decreases n,
{
    if n == 0 {
        Seq::empty()
    } else if n == 1 {
        shown_line(text_of(lines[0]))
    } else {
        shown_lines_upto(lines, (n - 1) as nat) + "\\n"@ + shown_line(text_of(lines[n - 1]))
    }
}

/// Some lines of source on one line: the white space around them is taken
/// off, each line is made a line for showing, and `\n` is written out
/// where a line ends.
pub open spec fn shown_text(text: Seq<char>) -> Seq<char> {
    shown_lines_upto(
        pieces(encode_utf8(trimmed(text)), 10),
        pieces(encode_utf8(trimmed(text)), 10).len(),
    )
}

/// Calls `str::trim_start`, which takes the white space off the start of
/// a string; white space is what `char::is_whitespace` says it is.
#[verifier::external_body]
fn trim_start(s: &str) -> (r: &str)
    ensures
        r@ == s@.subrange(leading_space(s@) as int, s@.len() as int),
        r@.len() > 0 ==> !is_white_space(r@[0]),
{
    s.trim_start()
}

/// The string that bytes hold, or the empty string.
pub fn string_of(bytes: &[u8]) -> (r: String)
    ensures
        r@ == text_of(bytes@),
{
    let mut copy: Vec<u8> = Vec::new();
    copy.extend_from_slice(bytes);
    assert(copy@ =~= bytes@);
    match string_from_utf8(copy) {
        Some(s) => {
            proof {
                encode_utf8_decode_utf8(s@);
            }
            s
        },
        None => String::new(),
    }
}

/// A line for showing.
fn show_line(line: &str) -> (r: String)
    ensures
        r@ == shown_line(line@),
{
    if blank(line) {
        return line.to_owned();
    }
    let rest = trim_start(line);
    if rest.unicode_len() == line.unicode_len() {
        assert(leading_space(line@) == 0);
        line.to_owned()
    } else {
        append_str(" ".to_owned(), rest)
    }
}

/// Some lines of source on one line: see [`shown_text`].
pub fn format_text(text: &str) -> (r: String)
    ensures
        r@ == shown_text(text@),
{
    let inner = trim(text);
    let lines = split_bytes(inner.as_bytes(), 10);
    let ghost all = lines@.map_values(|p: Vec<u8>| p@);
    proof {
        crate::types::config::lemma_pieces_not_empty(encode_utf8(trimmed(text@)), 10);
    }
    assert(all.len() == lines@.len());
    let mut out = String::new();
    let mut k: usize = 0;
    while k < lines.len()
        invariant
            k <= lines@.len(),
            lines@.len() >= 1,
            all == lines@.map_values(|p: Vec<u8>| p@),
            out@ == shown_lines_upto(all, k as nat),
        decreases lines@.len() - k,
    {
        assert(all[k as int] == lines@[k as int]@);
        let line = string_of(lines[k].as_slice());
        let shown = show_line(line.as_str());
        if k == 0 {
            assert(Seq::<char>::empty() + shown@ =~= shown@);
            out = append_str(out, shown.as_str());
        } else {
            let with_break = append_str(out, "\\n");
            out = append_str(with_break, shown.as_str());
        }
        k += 1;
    }
    out
}

// ---------------------------------------------------------------------
// One mutant on one line
// ---------------------------------------------------------------------
/// The lines that a mutant touches, as they are named: `Line 3`, or
/// `Lines 3-5` where there is more than one.
pub open spec fn line_label(m: MutantView) -> Seq<char> {
    if m.newline_count() == 0 {
        "Line "@ + decimal_text((m.line_offset + 1) as nat)
    } else {
        "Lines "@ + decimal_text((m.line_offset + 1) as nat) + "-"@ + decimal_text(
            (m.line_offset + 1 + m.newline_count()) as nat,
        )
    }
}

/// A mutant on one line: slug and id in brackets, the lines it touches,
/// and those lines before and after the edit.
pub open spec fn mutant_line(text: Seq<u8>, slug: Seq<char>, m: MutantView) -> Seq<char> {
    joined_line(
        line_head(slug, m),
        shown_text(text_of(touched_lines(text, m))),
        shown_text(text_of(touched_lines_mutated(text, m))),
    )
}

/// What a piece of a diff does: it stands on both sides, on the old side
/// only, or on the new side only.
#[derive(Clone, Copy, Debug, PartialEq, Eq, Structural)]
pub enum ChangeKind {
    Equal,
    Delete,
    Insert,
}

/// A piece of a diff.
#[derive(Debug)]
pub struct Change {
    pub kind: ChangeKind,
    pub value: String,
}

/// Milliseconds after which the diff of two lines makes do with what it has.
pub const DIFF_TIMEOUT_MS: u64 = 100;

/// Calls `similar`: a diff of the words of two texts with the Patience
/// algorithm, given up after `timeout_ms` milliseconds, as the list of
/// all its changes. Which pieces count as equal depends on the time the
/// diff is given; whatever it finds, the pieces of the old side make up
/// the old text and those of the new side the new text.
#[verifier::external_body]
fn word_changes(old: &str, new: &str, timeout_ms: u64) -> (r: Vec<Change>)
    ensures
        side_text(r@, false, r@.len()) == old@,
        side_text(r@, true, r@.len()) == new@,
{
    let diff = similar::TextDiff::configure()
        .algorithm(similar::Algorithm::Patience)
        .timeout(std::time::Duration::from_millis(timeout_ms))
        .diff_unicode_words(old, new);
    diff.iter_all_changes().map(|c| Change {
        kind: match c.tag() {
            similar::ChangeTag::Equal => ChangeKind::Equal,
            similar::ChangeTag::Delete => ChangeKind::Delete,
            similar::ChangeTag::Insert => ChangeKind::Insert,
        },
        value: c.value().to_string(),
    }).collect()
}

/// The painted text holds the text, with something before it and
/// something after it, or nothing.
pub open spec fn is_painted(painted: Seq<char>, text: Seq<char>) -> bool {
    exists|before: Seq<char>, after: Seq<char>| painted == before + text + after
}

/// Calls `console::style(..).red()`: the text as a terminal shows it in
/// red. Whether the terminal takes colors decides what stands around the
/// text.
#[verifier::external_body]
fn paint_red(text: &str) -> (r: String)
    ensures
        is_painted(r@, text@),
{
    console::style(text).red().to_string()
}

/// Calls `console::style(..).green()`: the text as a terminal shows it
/// in green, with the text in it.
#[verifier::external_body]
fn paint_green(text: &str) -> (r: String)
    ensures
        is_painted(r@, text@),
{
    console::style(text).green().to_string()
}

/// Calls `console::style(..).red().bold()`, with the text in it.
#[verifier::external_body]
fn paint_red_bold(text: &str) -> (r: String)
    ensures
        is_painted(r@, text@),
{
    console::style(text).red().bold().to_string()
}

/// Calls `console::style(..).green().bold()`, with the text in it.
#[verifier::external_body]
fn paint_green_bold(text: &str) -> (r: String)
    ensures
        is_painted(r@, text@),
{
    console::style(text).green().bold().to_string()
}

/// Calls `console::style(..).yellow()`, with the text in it.
#[verifier::external_body]
fn paint_yellow(text: &str) -> (r: String)
    ensures
        is_painted(r@, text@),
{
    console::style(text).yellow().to_string()
}

/// Calls `console::style(..).blue()`, with the text in it.
#[verifier::external_body]
fn paint_blue(text: &str) -> (r: String)
    ensures
        is_painted(r@, text@),
{
    console::style(text).blue().to_string()
}

impl Status {
    /// The name of the status as it is shown: an uncaught mutant in bold
    /// red, a caught one in bold green, a broken build and a timeout in
    /// yellow, a skipped mutant in blue. Without colors it is the name.
    pub fn display(&self, colors: bool) -> (r: String)
        ensures
            !colors ==> r@ == self.name(),
            colors ==> is_painted(r@, self.name()),
    {
        let name = self.to_string();
        if !colors {
            return name;
        }
        match self {
            Status::Uncaught => paint_red_bold(name.as_str()),
            Status::TestFail => paint_green_bold(name.as_str()),
            Status::BuildFail => paint_yellow(name.as_str()),
            Status::Timeout => paint_yellow(name.as_str()),
            Status::Skipped => paint_blue(name.as_str()),
        }
    }
}

/// The text of one side of the first `n` changes, without colors: on the
/// old side the pieces that are equal or deleted, on the new side those
/// that are equal or inserted.
pub open spec fn side_text(changes: Seq<Change>, new_side: bool, n: nat) -> Seq<char>
    decreases n,
{
    if n == 0 {
        Seq::empty()
    } else if changes[n - 1].kind == ChangeKind::Equal || (new_side && changes[n - 1].kind
        == ChangeKind::Insert) || (!new_side && changes[n - 1].kind == ChangeKind::Delete) {
        side_text(changes, new_side, (n - 1) as nat) + changes[n - 1].value@
    } else {
        side_text(changes, new_side, (n - 1) as nat)
    }
}

/// The piece stands on the side as a change of its own: a deleted piece
/// on the old side, an inserted one on the new side.
pub open spec fn is_changed_on(change: Change, new_side: bool) -> bool {
    (new_side && change.kind == ChangeKind::Insert) || (!new_side && change.kind
        == ChangeKind::Delete)
}

/// The text of one side of the first `n` changes, with colors: the equal
/// pieces as they are, and each piece that the side has for itself in its
/// painted form.
pub open spec fn painted_side(
    changes: Seq<Change>,
    new_side: bool,
    painted: Seq<Seq<char>>,
    n: nat,
) -> Seq<char>
    decreases n,
{
    if n == 0 {
        Seq::empty()
    } else if changes[n - 1].kind == ChangeKind::Equal {
        painted_side(changes, new_side, painted, (n - 1) as nat) + changes[n - 1].value@
    } else if is_changed_on(changes[n - 1], new_side) {
        painted_side(changes, new_side, painted, (n - 1) as nat) + painted[n - 1]
    } else {
        painted_side(changes, new_side, painted, (n - 1) as nat)
    }
}

/// Each painted form holds the text of its piece.
pub open spec fn are_painted(changes: Seq<Change>, painted: Seq<Seq<char>>) -> bool {
    &&& painted.len() == changes.len()
    &&& forall|k: int|
        0 <= k < changes.len() ==> is_painted(#[trigger] painted[k], changes[k].value@)
}

/// The two sides are those of the changes, with the painted forms.
pub open spec fn are_painted_sides(
    changes: Seq<Change>,
    painted: Seq<Seq<char>>,
    sides: (Seq<char>, Seq<char>),
) -> bool {
    &&& are_painted(changes, painted)
    &&& sides.0 == painted_side(changes, false, painted, changes.len())
    &&& sides.1 == painted_side(changes, true, painted, changes.len())
}

/// A painted side of the first `n` changes looks at the first `n` painted
/// forms only.
proof fn lemma_painted_side_grows(
    changes: Seq<Change>,
    new_side: bool,
    painted: Seq<Seq<char>>,
    more: Seq<char>,
    n: nat,
)
    requires
        n <= painted.len(),
    ensures
        painted_side(changes, new_side, painted.push(more), n) == painted_side(
            changes,
            new_side,
            painted,
            n,
        ),
    decreases n,
{
    if n > 0 {
        lemma_painted_side_grows(changes, new_side, painted, more, (n - 1) as nat);
        assert(painted.push(more)[n - 1] == painted[n - 1]);
    }
}

/// The two sides of a diff: the old side with what was deleted in red,
/// the new side with what was inserted in green. Without colors each side
/// is the plain text of its pieces.
pub fn highlight(changes: &Vec<Change>, colors: bool) -> (r: (String, String))
    ensures
        !colors ==> r.0@ == side_text(changes@, false, changes@.len()) && r.1@ == side_text(
            changes@,
            true,
            changes@.len(),
        ),
        colors ==> exists|painted: Seq<Seq<char>>| #[trigger]
            are_painted_sides(changes@, painted, (r.0@, r.1@)),
{
    let mut old_side = String::new();
    let mut new_side = String::new();
    let mut k: usize = 0;
    let ghost mut painted: Seq<Seq<char>> = Seq::empty();
    while k < changes.len()
        invariant
            k <= changes@.len(),
            !colors ==> old_side@ == side_text(changes@, false, k as nat) && new_side@
                == side_text(changes@, true, k as nat),
            painted.len() == k,
            forall|j: int| 0 <= j < k ==> is_painted(#[trigger] painted[j], changes@[j].value@),
            colors ==> old_side@ == painted_side(changes@, false, painted, k as nat) && new_side@
                == painted_side(changes@, true, painted, k as nat),
        decreases changes@.len() - k,
    {
        let change = &changes[k];
        let ghost plain = change.value@;
        let ghost mut shown = plain;
        match change.kind {
            ChangeKind::Delete => {
                if colors {
                    let text = paint_red(change.value.as_str());
                    proof {
                        shown = text@;
                    }
                    old_side = append_str(old_side, text.as_str());
                } else {
                    old_side = append_str(old_side, change.value.as_str());
                }
            },
            ChangeKind::Insert => {
                if colors {
                    let text = paint_green(change.value.as_str());
                    proof {
                        shown = text@;
                    }
                    new_side = append_str(new_side, text.as_str());
                } else {
                    new_side = append_str(new_side, change.value.as_str());
                }
            },
            ChangeKind::Equal => {
                old_side = append_str(old_side, change.value.as_str());
                new_side = append_str(new_side, change.value.as_str());
            },
        }
        proof {
            if shown == plain {
                assert(plain == Seq::<char>::empty() + plain + Seq::<char>::empty());
            }
            assert(is_painted(shown, plain));
            lemma_painted_side_grows(changes@, false, painted, shown, k as nat);
            lemma_painted_side_grows(changes@, true, painted, shown, k as nat);
            painted = painted.push(shown);
        }
        k += 1;
    }
    let r = (old_side, new_side);
    proof {
        if colors {
            assert(are_painted_sides(changes@, painted, (r.0@, r.1@)));
        }
    }
    r
}

/// The parts of a mutant's line.
struct LineParts {
    /// Slug and id in brackets, and the lines that the mutant touches.
    head: String,
    /// The touched lines before the edit, on one line.
    before: String,
    /// The touched lines after the edit, on one line.
    after: String,
}

/// The start of a mutant's line: slug and id in brackets, then the lines
/// that the mutant touches.
pub open spec fn line_head(slug: Seq<char>, m: MutantView) -> Seq<char> {
    "["@ + slug + " "@ + integer_text(m.id as int) + "] "@ + line_label(m)
}

/// A line of a mutant from its start and its two sides.
pub open spec fn joined_line(head: Seq<char>, before: Seq<char>, after: Seq<char>) -> Seq<char> {
    head + ": '"@ + before + "' -> '"@ + after + "'"@
}

/// A line of a mutant from its start and its two sides.
fn join_line(head: String, before: &str, after: &str) -> (r: String)
    ensures
        r@ == joined_line(head@, before@, after@),
{
    let mut out = append_str(head, ": '");
    out = append_str(out, before);
    out = append_str(out, "' -> '");
    out = append_str(out, after);
    append_str(out, "'")
}

/// The line of a mutant in colors: the changes are a diff of the touched
/// lines before and after the edit, and the line holds the two sides of
/// the changes with their painted forms.
pub open spec fn is_colored_line(
    text: Seq<u8>,
    m: MutantView,
    changes: Seq<Change>,
    painted: Seq<Seq<char>>,
    line: Seq<char>,
) -> bool {
    &&& side_text(changes, false, changes.len()) == shown_text(text_of(touched_lines(text, m)))
    &&& side_text(changes, true, changes.len()) == shown_text(
        text_of(touched_lines_mutated(text, m)),
    )
    &&& are_painted(changes, painted)
    &&& line == joined_line(
        line_head(m.mutation_slug, m),
        painted_side(changes, false, painted, changes.len()),
        painted_side(changes, true, painted, changes.len()),
    )
}

impl Mutant {
    /// The parts of the mutant's line.
    fn line_parts(&self, target: &Target) -> (r: LineParts)
        requires
            fits(target.bytes(), self@),
        ensures
            r.head@ == line_head(self.mutation_slug@, self@),
            r.before@ == shown_text(text_of(touched_lines(target.bytes(), self@))),
            r.after@ == shown_text(text_of(touched_lines_mutated(target.bytes(), self@))),
    {
        let text = target.text.as_str().as_bytes();
        let old = self.old_text.as_str().as_bytes();
        let total = text.len();
        let offset = self.byte_offset as usize;
        let after = offset + old.len();
        let first = find_line_start(text, offset);
        let last = find_line_end(text, after);
        let original = string_of(&text[first..last]);
        let mutated_bytes = crate::text::concat3(
            &text[first..offset],
            self.new_text.as_str().as_bytes(),
            &text[after..last],
        );
        let mutated = string_of(mutated_bytes.as_slice());
        let newline_count = crate::text::count_newlines_before(old, old.len());
        let first_line: u64 = self.line_offset as u64 + 1;
        let label = if newline_count == 0 {
            append_str("Line ".to_owned(), decimal(first_line).as_str())
        } else {
            let last_line: u128 = first_line as u128 + newline_count as u128;
            let head = append_str("Lines ".to_owned(), decimal(first_line).as_str());
            let dash = append_str(head, "-");
            append_str(dash, wide_decimal(last_line).as_str())
        };
        let mut head = "[".to_owned();
        head = append_str(head, self.mutation_slug.as_str());
        head = append_str(head, " ");
        head = append_str(head, integer(self.id).as_str());
        head = append_str(head, "] ");
        head = append_str(head, label.as_str());
        LineParts {
            head,
            before: format_text(original.as_str()),
            after: format_text(mutated.as_str()),
        }
    }

    /// Formats a mutant for display: `[slug id] Line N: 'old' -> 'new'`,
    /// where old and new are the full lines that the mutant touches,
    /// before and after its edit, brought onto one line.
    pub fn display(&self, target: &Target) -> (r: String)
        requires
            fits(target.bytes(), self@),
        ensures
            r@ == mutant_line(target.bytes(), self.mutation_slug@, self@),
    {
        let parts = self.line_parts(target);
        join_line(parts.head, parts.before.as_str(), parts.after.as_str())
    }

    /// Formats a mutant for display as [`Mutant::display`] does and, where
    /// colors are used, shows the words that the edit takes away in red
    /// and the words that it puts in green.
    pub fn display_colored(&self, target: &Target, colors: bool) -> (r: String)
        requires
            fits(target.bytes(), self@),
        ensures
            !colors ==> r@ == mutant_line(target.bytes(), self.mutation_slug@, self@),
            colors ==> exists|changes: Seq<Change>, painted: Seq<Seq<char>>|
                is_colored_line(target.bytes(), self@, changes, painted, r@),
    {
        let parts = self.line_parts(target);
        if !colors {
            return join_line(parts.head, parts.before.as_str(), parts.after.as_str());
        }
        let changes = word_changes(parts.before.as_str(), parts.after.as_str(), DIFF_TIMEOUT_MS);
        let sides = highlight(&changes, true);
        let r = join_line(parts.head, sides.0.as_str(), sides.1.as_str());
        proof {
            let painted = choose|painted: Seq<Seq<char>>| #[trigger]
                are_painted_sides(changes@, painted, (sides.0@, sides.1@));
            assert(is_colored_line(target.bytes(), self@, changes@, painted, r@));
        }
        r
    }
}

/// A natural number in decimal digits.
fn wide_decimal(n: u128) -> (r: String)
    ensures
        r@ == decimal_text(n as nat),
    decreases n,
{
    if n < 10 {
        digit(n as u64).to_owned()
    } else {
        append_str(wide_decimal(n / 10), digit((n % 10) as u64))
    }
}

// ---------------------------------------------------------------------
// A target's path
// ---------------------------------------------------------------------
/// Calls `Path::join`: the path as it stands below the base, or the path
/// itself where it is absolute. What is absolute depends on the platform,
/// so nothing is stated of the result.
#[verifier::external_body]
fn join_paths(base: &str, path: &str) -> (r: String) {
    std::path::Path::new(base).join(path).to_string_lossy().to_string()
}

/// Calls `Path::strip_prefix`: the path without the base, where the path
/// starts with the base, component by component. What a component is
/// depends on the platform, so nothing is stated of the result.
#[verifier::external_body]
fn strip_prefix(path: &str, base: &str) -> (r: Option<String>) {
    match std::path::Path::new(path).strip_prefix(base) {
        Ok(rest) => Some(rest.to_string_lossy().to_string()),
        Err(_) => None,
    }
}

/// A path as it is shown, given what is left of it below the working
/// directory: that rest, `.` where nothing is left, and the whole path
/// where the path does not lie below the working directory.
pub open spec fn shown_path(path: Seq<char>, relative: Option<Seq<char>>) -> Seq<char> {
    match relative {
        Some(rest) => if rest.len() == 0 {
            "."@
        } else {
            rest
        },
        None => path,
    }
}

/// A path as it is shown: see [`shown_path`].
pub fn show_path(path: &str, relative: Option<String>) -> (r: String)
    ensures
        r@ == shown_path(
            path@,
            match relative {
                Some(rest) => Some(rest@),
                None => None,
            },
        ),
{
    match relative {
        Some(rest) => {
            if rest.as_str().is_empty() {
                ".".to_owned()
            } else {
                rest
            }
        },
        None => path.to_owned(),
    }
}

impl Target {
    /// The path of the target for logs, relative to the working directory
    /// where the target lies below it: see [`shown_path`], where what is
    /// left of the path below the working directory is found by the
    /// platform's rules for paths.
    pub fn display(&self, cwd: &str) -> (r: String)
        ensures
            exists|relative: Option<Seq<char>>| r@ == #[trigger] shown_path(self.path@, relative),
    {
        let absolute = join_paths(cwd, self.path.as_str());
        let relative = strip_prefix(absolute.as_str(), cwd);
        show_path(self.path.as_str(), relative)
    }
}

// ---------------------------------------------------------------------
// Counting outcomes
// ---------------------------------------------------------------------
/// The status counts for the rate of caught mutants: the mutant was
/// caught or it was not. A mutant that was skipped, broke the build or
/// timed out does not count.
pub open spec fn is_eligible(status: Status) -> bool {
    status == Status::TestFail || status == Status::Uncaught
}

/// How many mutants count, and how many of them were caught.
#[derive(Clone, Copy, Debug, PartialEq, Eq, Structural)]
pub struct OutcomeCounter {
    pub eligible: u32,
    pub caught: u32,
}

impl OutcomeCounter {
    /// A counter that has counted nothing.
    pub fn new() -> (r: OutcomeCounter)
        ensures
            r.eligible == 0,
            r.caught == 0,
    {
        OutcomeCounter { eligible: 0, caught: 0 }
    }

    /// The counter after one more status.
    pub open spec fn with(self, status: Status) -> OutcomeCounter {
        if !is_eligible(status) {
            self
        } else if status == Status::TestFail {
            OutcomeCounter {
                eligible: (self.eligible + 1) as u32,
                caught: (self.caught + 1) as u32,
            }
        } else {
            OutcomeCounter { eligible: (self.eligible + 1) as u32, caught: self.caught }
        }
    }

    /// Counts one more status.
    pub fn record(&mut self, status: &Status)
        requires
            old(self).eligible < u32::MAX,
            old(self).caught <= old(self).eligible,
        ensures
            *final(self) == old(self).with(*status),
            final(self).caught <= final(self).eligible,
    {
        match status {
            Status::TestFail => {
                self.eligible += 1;
                self.caught += 1;
            },
            Status::Uncaught => {
                self.eligible += 1;
            },
            _ => {},
        }
    }
}

/// The counters of a report: all mutants, and those of each severity.
#[derive(Clone, Copy, Debug, PartialEq, Eq, Structural)]
pub struct Summary {
    pub overall: OutcomeCounter,
    pub high: OutcomeCounter,
    pub medium: OutcomeCounter,
    pub low: OutcomeCounter,
}

impl Summary {
    /// The counters do not hold more caught mutants than mutants, and
    /// none holds more mutants than the overall counter.
    pub open spec fn well_formed(self) -> bool {
        &&& self.overall.caught <= self.overall.eligible
        &&& self.high.caught <= self.high.eligible <= self.overall.eligible
        &&& self.medium.caught <= self.medium.eligible <= self.overall.eligible
        &&& self.low.caught <= self.low.eligible <= self.overall.eligible
    }

    /// The summary after one more outcome of a mutant of the severity; a
    /// mutant whose slug has no severity counts as one of low severity.
    pub open spec fn with(self, severity: Option<MutationSeverity>, status: Status) -> Summary {
        match severity {
            Some(MutationSeverity::High) => Summary {
                overall: self.overall.with(status),
                high: self.high.with(status),
                ..self
            },
            Some(MutationSeverity::Medium) => Summary {
                overall: self.overall.with(status),
                medium: self.medium.with(status),
                ..self
            },
            _ => Summary { overall: self.overall.with(status), low: self.low.with(status), ..self },
        }
    }

    /// A summary that has counted nothing.
    pub fn new() -> (r: Summary)
        ensures
            r.well_formed(),
            r.overall.eligible == 0,
            r.high.eligible == 0,
            r.medium.eligible == 0,
            r.low.eligible == 0,
    {
        Summary {
            overall: OutcomeCounter::new(),
            high: OutcomeCounter::new(),
            medium: OutcomeCounter::new(),
            low: OutcomeCounter::new(),
        }
    }

    /// Counts the outcome of a mutant with the slug in the dialect.
    pub fn record(&mut self, slug: &str, language: &Language, status: &Status)
        requires
            old(self).well_formed(),
            old(self).overall.eligible < u32::MAX,
        ensures
            final(self).well_formed(),
            *final(self) == old(self).with(severity_in(catalog_of(*language), slug@), *status),
    {
        self.overall.record(status);
        match get_severity_by_slug(slug, language) {
            Some(MutationSeverity::High) => {
                self.high.record(status);
            },
            Some(MutationSeverity::Medium) => {
                self.medium.record(status);
            },
            _ => {
                self.low.record(status);
            },
        }
    }
}

/// Whether an outcome is listed: an uncaught one always, any other only
/// where all outcomes or all details were asked for.
pub fn is_listed(status: &Status, verbose: bool, all: bool) -> (r: bool)
    ensures
        r == (verbose || all || *status == Status::Uncaught),
{
    verbose || all || matches!(status, Status::Uncaught)
}

// ---------------------------------------------------------------------
// The order in which mutants are listed
// ---------------------------------------------------------------------
/// Mutant `a` is listed before mutant `b`: it starts earlier in the file
/// or, where both start at the same place, stands earlier in the list.
pub open spec fn listed_before(mutants: Seq<MutantView>, a: int, b: int) -> bool {
    mutants[a].byte_offset < mutants[b].byte_offset || (mutants[a].byte_offset
        == mutants[b].byte_offset && a < b)
}

/// The positions are those of the first `n` mutants, each once, in the
/// order in which the mutants are listed.
pub open spec fn is_listing_order(mutants: Seq<MutantView>, order: Seq<usize>, n: int) -> bool {
    &&& forall|p: int| 0 <= p < order.len() ==> (#[trigger] order[p]) < n
    &&& forall|p: int|
        0 <= p < order.len() - 1 ==> listed_before(
            mutants,
            (#[trigger] order[p]) as int,
            order[p + 1] as int,
        )
    &&& forall|i: usize| i < n ==> #[trigger] order.contains(i)
}

/// The order in which the mutants of a target are listed, as positions in
/// the list: by where they start in the file, and mutants that start at
/// the same place in the order of the list.
pub fn listing_order(mutants: &Vec<Mutant>) -> (r: Vec<usize>)
    ensures
        is_listing_order(crate::types::mutants::mutant_views(mutants@), r@, mutants@.len() as int),
{
    let ghost views = crate::types::mutants::mutant_views(mutants@);
    assert(views.len() == mutants@.len());
    let mut order: Vec<usize> = Vec::new();
    let mut k: usize = 0;
    while k < mutants.len()
        invariant
            k <= mutants@.len(),
            views == crate::types::mutants::mutant_views(mutants@),
            views.len() == mutants@.len(),
            is_listing_order(views, order@, k as int),
        decreases mutants@.len() - k,
    {
        let ghost before = order@;
        let offset = mutants[k].byte_offset;
        assert(views[k as int] == mutants@[k as int]@);
        let mut at: usize = 0;
        while at < order.len() && mutants[order[at]].byte_offset <= offset
            invariant
                at <= order@.len(),
                order@ == before,
                k < mutants@.len(),
                views == crate::types::mutants::mutant_views(mutants@),
                views.len() == mutants@.len(),
                offset == views[k as int].byte_offset,
                forall|p: int| 0 <= p < order@.len() ==> (#[trigger] order@[p]) < k,
                forall|p: int|
                    0 <= p < at ==> listed_before(views, (#[trigger] order@[p]) as int, k as int),
            decreases order@.len() - at,
        {
            assert(views[order@[at as int] as int] == mutants@[order@[at as int] as int]@);
            at += 1;
        }
        proof {
            if at < order@.len() {
                assert(views[order@[at as int] as int] == mutants@[order@[at as int] as int]@);
            }
        }
        order.insert(at, k);
        proof {
            let after = order@;
            assert(after =~= before.insert(at as int, k));
            assert forall|p: int| 0 <= p < after.len() implies (#[trigger] after[p]) < k + 1 by {
                if p < at {
                    assert(after[p] == before[p]);
                } else if p > at {
                    assert(after[p] == before[p - 1]);
                }
            }
            assert forall|p: int| 0 <= p < after.len() - 1 implies listed_before(
                views,
                (#[trigger] after[p]) as int,
                after[p + 1] as int,
            ) by {
                if p + 1 < at {
                    assert(after[p] == before[p] && after[p + 1] == before[p + 1]);
                } else if p + 1 == at {
                    assert(after[p] == before[p]);
                } else if p == at {
                    assert(after[p + 1] == before[p]);
                } else {
                    assert(after[p] == before[p - 1] && after[p + 1] == before[p]);
                }
            }
            assert forall|i: usize| i < k + 1 implies #[trigger] after.contains(i) by {
                if i < k {
                    assert(before.contains(i));
                    let n = choose|n: int| 0 <= n < before.len() && before[n] == i;
                    if n < at {
                        assert(after[n] == i);
                    } else {
                        assert(after[n + 1] == i);
                    }
                } else {
                    assert(after[at as int] == k);
                }
            }
        }
        k += 1;
    }
    order
}

// ---------------------------------------------------------------------
// The list of a dialect's mutations
// ---------------------------------------------------------------------
/// Position of the first mutation with the slug, or the length of the list.
pub open spec fn first_with_slug(mutations: Seq<Mutation>, slug: Seq<char>, from: int) -> int
    decreases mutations.len() - from,
{
    if from >= mutations.len() {
        mutations.len() as int
    } else if mutations[from].slug@ == slug {
        from
    } else {
        first_with_slug(mutations, slug, from + 1)
    }
}

/// How many of the first `n` mutations have the slug.
pub open spec fn count_with_slug(mutations: Seq<Mutation>, slug: Seq<char>, n: nat) -> nat
    decreases n,
{
    if n == 0 {
        0
    } else if mutations[n - 1].slug@ == slug {
        count_with_slug(mutations, slug, (n - 1) as nat) + 1
    } else {
        count_with_slug(mutations, slug, (n - 1) as nat)
    }
}

/// The line of the list for a slug: the slug in brackets, the description
/// of the first mutation with the slug, how many more there are, and the
/// severity of the first.
pub open spec fn listing_line(mutations: Seq<Mutation>, slug: Seq<char>) -> Seq<char> {
    let first = mutations[first_with_slug(mutations, slug, 0)];
    let others = count_with_slug(mutations, slug, mutations.len()) - 1;
    if others <= 0 {
        "  ["@ + slug + "] "@ + first.description@ + " (Severity: "@ + first.severity.name()
            + ")"@
    } else {
        "  ["@ + slug + "] "@ + first.description@ + " (and "@ + decimal_text(others as nat)
            + " other variants) (Severity: "@ + first.severity.name() + ")"@
    }
}

/// The line of the list for a slug.
fn line_for_slug(mutations: &[Mutation], slug: &str) -> (r: Option<String>)
    ensures
        match r {
            Some(line) => first_with_slug(mutations@, slug@, 0) < mutations@.len() && line@
                == listing_line(mutations@, slug@),
            None => first_with_slug(mutations@, slug@, 0) == mutations@.len(),
        },
{
    let mut at: usize = 0;
    while at < mutations.len() && !str_eq(mutations[at].slug, slug)
        invariant
            at <= mutations@.len(),
            first_with_slug(mutations@, slug@, 0) == first_with_slug(mutations@, slug@, at as int),
        decreases mutations@.len() - at,
    {
        at += 1;
    }
    if at >= mutations.len() {
        return None;
    }
    let mut count: usize = 0;
    let mut k: usize = 0;
    while k < mutations.len()
        invariant
            k <= mutations@.len(),
            count <= k,
            count == count_with_slug(mutations@, slug@, k as nat),
        decreases mutations@.len() - k,
    {
        if str_eq(mutations[k].slug, slug) {
            count += 1;
        }
        k += 1;
    }
    let first = &mutations[at];
    let mut out = "  [".to_owned();
    out = append_str(out, slug);
    out = append_str(out, "] ");
    out = append_str(out, first.description);
    if count <= 1 {
        out = append_str(out, " (Severity: ");
    } else {
        out = append_str(out, " (and ");
        out = append_str(out, decimal((count - 1) as u64).as_str());
        out = append_str(out, " other variants) (Severity: ");
    }
    out = append_str(out, first.severity.to_string().as_str());
    out = append_str(out, ")");
    Some(out)
}

/// The lines are those of the list of the mutations: one line for each
/// slug, for the slugs in the order of strings.
pub open spec fn is_listing(mutations: Seq<Mutation>, lines: Seq<Seq<char>>) -> bool {
    exists|slugs: Seq<Seq<char>>|
        {
            &&& crate::mutations::common::slugs::strictly_ascending(slugs)
            &&& forall|s: Seq<char>|
                slugs.contains(s) <==> crate::types::mutations::slugs_of(
                    mutation_views(mutations),
                ).contains(s)
            &&& lines.len() == slugs.len()
            &&& forall|k: int|
                0 <= k < slugs.len() ==> #[trigger] lines[k] == listing_line(mutations, slugs[k])
        }
}

/// A slug of the mutations is the slug of one of them.
proof fn lemma_slug_is_found(mutations: Seq<Mutation>, slug: Seq<char>, from: int)
    requires
        0 <= from <= mutations.len(),
        exists|j: int| from <= j < mutations.len() && mutations[j].slug@ == slug,
    ensures
        first_with_slug(mutations, slug, from) < mutations.len(),
    decreases mutations.len() - from,
{
    if from < mutations.len() && mutations[from].slug@ != slug {
        let j = choose|j: int| from <= j < mutations.len() && mutations[j].slug@ == slug;
        assert(from + 1 <= j);
        lemma_slug_is_found(mutations, slug, from + 1);
    }
}

/// The lines of the list of some mutations: one line for each slug, for
/// the slugs in the order of strings. See [`listing_line`].
pub fn mutation_lines(mutations: &[Mutation]) -> (r: Vec<String>)
    ensures
        is_listing(mutations@, string_views(r@)),
        r@.len() == sorted_slug_count(mutations@),
{
    let slugs = sorted_unique_slugs(mutations);
    let ghost names = string_views(slugs@);
    assert(names.len() == slugs@.len());
    let mut lines: Vec<String> = Vec::new();
    let mut k: usize = 0;
    while k < slugs.len()
        invariant
            k <= slugs@.len(),
            names == string_views(slugs@),
            names.len() == slugs@.len(),
            forall|s: Seq<char>|
                names.contains(s) <==> crate::types::mutations::slugs_of(
                    mutation_views(mutations@),
                ).contains(s),
            lines@.len() == k,
            forall|n: int|
                0 <= n < k ==> (#[trigger] lines@[n])@ == listing_line(mutations@, names[n]),
        decreases slugs@.len() - k,
    {
        assert(names[k as int] == slugs@[k as int]@);
        proof {
            let all = crate::types::mutations::slugs_of(mutation_views(mutations@));
            assert(names.contains(names[k as int]));
            assert(all.contains(names[k as int]));
            let j = choose|j: int| 0 <= j < all.len() && all[j] == names[k as int];
            assert(mutations@[j].slug@ == names[k as int]);
            lemma_slug_is_found(mutations@, names[k as int], 0);
        }
        match line_for_slug(mutations, slugs[k].as_str()) {
            Some(line) => {
                lines.push(line);
            },
            None => {
                lines.push(String::new());
            },
        }
        k += 1;
    }
    proof {
        lemma_sorted_slug_count(mutations@, names);
        let shown = string_views(lines@);
        assert(shown.len() == lines@.len());
        assert forall|n: int| 0 <= n < names.len() implies #[trigger] shown[n] == listing_line(
            mutations@,
            names[n],
        ) by {
            assert(shown[n] == lines@[n]@);
        }
    }
    lines
}

/// The list of the mutations of a dialect: a heading with the name of the
/// dialect, one line for each slug of the dialect's catalog in the order
/// of strings, and an empty line.
pub fn print_mutations_for_language(lang: &Language) -> (r: Vec<String>)
    ensures
        r@.len() == slugs_count(catalog_of(*lang)) + 2,
        r@[0]@ == "Available mutations for "@ + lang.name() + ":"@,
        r@[r@.len() - 1]@.len() == 0,
        exists|mutations: Seq<Mutation>|
            mutation_views(mutations) == catalog_of(*lang) && #[trigger] is_listing(
                mutations,
                string_views(r@).subrange(1, r@.len() - 1),
            ),
{
    let engine = get_mutations_for_language(lang);
    let mutations = engine.get_mutations();
    let mut all: Vec<String> = Vec::new();
    let head = append_str("Available mutations for ".to_owned(), lang.to_string().as_str());
    all.push(append_str(head, ":"));
    let mut lines = mutation_lines(mutations);
    let ghost listed = string_views(lines@);
    assert(listed.len() == lines@.len());
    let ghost body = lines@;
    all.append(&mut lines);
    all.push(String::new());
    proof {
        let shown = string_views(all@).subrange(1, all@.len() - 1);
        assert(shown.len() == listed.len());
        assert forall|k: int| 0 <= k < shown.len() implies shown[k] == listed[k] by {
            assert(all@[k + 1] == body[k]);
        }
        assert(shown =~= listed);
        assert(is_listing(mutations@, shown));
    }
    all
}

/// The number of different slugs in a catalog.
pub open spec fn slugs_count(catalog: Seq<MutationView>) -> nat {
    crate::types::mutations::slugs_of(catalog).to_set().len()
}

/// The number of different slugs among the mutations.
pub open spec fn sorted_slug_count(mutations: Seq<Mutation>) -> nat {
    crate::types::mutations::slugs_of(mutation_views(mutations)).to_set().len()
}

/// A list in order that holds just the slugs of the mutations is as long
/// as there are different slugs.
proof fn lemma_sorted_slug_count(mutations: Seq<Mutation>, slugs: Seq<Seq<char>>)
    requires
        crate::mutations::common::slugs::strictly_ascending(slugs),
        forall|s: Seq<char>|
            slugs.contains(s) <==> crate::types::mutations::slugs_of(
                mutation_views(mutations),
            ).contains(s),
    ensures
        slugs.len() == sorted_slug_count(mutations),
{
    crate::mutations::common::slugs::lemma_ascending_is_distinct(slugs);
    slugs.unique_seq_to_set();
    assert(slugs.to_set() =~= crate::types::mutations::slugs_of(
        mutation_views(mutations),
    ).to_set());
}

// ---------------------------------------------------------------------
// The report of a target
// ---------------------------------------------------------------------
/// The status of the outcome of the mutant at a position, if it has one.
pub open spec fn status_at(statuses: Seq<Option<Status>>, at: int) -> Option<Status> {
    if 0 <= at < statuses.len() {
        statuses[at]
    } else {
        None
    }
}

/// The counters after the first `n` positions of the order: each mutant
/// with an outcome is counted with its slug's severity, as long as the
/// counters have room.
pub open spec fn counted_upto(
    mutants: Seq<MutantView>,
    statuses: Seq<Option<Status>>,
    catalog: Seq<MutationView>,
    order: Seq<usize>,
    n: nat,
) -> Summary
    decreases n,
{
    if n == 0 {
        Summary {
            overall: OutcomeCounter { eligible: 0, caught: 0 },
            high: OutcomeCounter { eligible: 0, caught: 0 },
            medium: OutcomeCounter { eligible: 0, caught: 0 },
            low: OutcomeCounter { eligible: 0, caught: 0 },
        }
    } else {
        let before = counted_upto(mutants, statuses, catalog, order, (n - 1) as nat);
        let at = order[n - 1] as int;
        match status_at(statuses, at) {
            Some(status) => if at < mutants.len() && before.overall.eligible < u32::MAX {
                before.with(severity_in(catalog, mutants[at].mutation_slug), status)
            } else {
                before
            },
            None => before,
        }
    }
}

/// Among the first `n` positions of the order, those of the mutants whose
/// outcome is listed.
pub open spec fn listed_upto(
    statuses: Seq<Option<Status>>,
    order: Seq<usize>,
    verbose: bool,
    all: bool,
    n: nat,
) -> Seq<usize>
    decreases n,
{
    if n == 0 {
        Seq::empty()
    } else {
        let before = listed_upto(statuses, order, verbose, all, (n - 1) as nat);
        match status_at(statuses, order[n - 1] as int) {
            Some(status) => if verbose || all || status == Status::Uncaught {
                before.push(order[n - 1])
            } else {
                before
            },
            None => before,
        }
    }
}

/// The report of a target is made from the mutants in the given order.
pub open spec fn is_report(
    mutants: Seq<MutantView>,
    statuses: Seq<Option<Status>>,
    catalog: Seq<MutationView>,
    order: Seq<usize>,
    verbose: bool,
    all: bool,
    report: (Summary, Seq<usize>),
) -> bool {
    &&& is_listing_order(mutants, order, mutants.len() as int)
    &&& report.0 == counted_upto(mutants, statuses, catalog, order, order.len())
    &&& report.1 == listed_upto(statuses, order, verbose, all, order.len())
}

/// The report of a target: the counters over the outcomes of its mutants,
/// and the positions of the mutants whose outcome is listed, in the order
/// in which mutants are listed. `statuses` holds the status of each
/// mutant's outcome, where it has one.
pub fn summarize(
    mutants: &Vec<Mutant>,
    statuses: &Vec<Option<Status>>,
    language: &Language,
    verbose: bool,
    all: bool,
) -> (r: (Summary, Vec<usize>))
    ensures
        r.0.well_formed(),
        exists|order: Seq<usize>| #[trigger]
            is_report(
                crate::types::mutants::mutant_views(mutants@),
                statuses@,
                catalog_of(*language),
                order,
                verbose,
                all,
                (r.0, r.1@),
            ),
{
    let order = listing_order(mutants);
    let ghost views = crate::types::mutants::mutant_views(mutants@);
    assert(views.len() == mutants@.len());
    let mut summary = Summary::new();
    let mut listed: Vec<usize> = Vec::new();
    let mut k: usize = 0;
    assert(listed@ =~= listed_upto(statuses@, order@, verbose, all, 0));
    while k < order.len()
        invariant
            k <= order@.len(),
            views == crate::types::mutants::mutant_views(mutants@),
            views.len() == mutants@.len(),
            summary.well_formed(),
            summary == counted_upto(views, statuses@, catalog_of(*language), order@, k as nat),
            listed@ == listed_upto(statuses@, order@, verbose, all, k as nat),
        decreases order@.len() - k,
    {
        let at = order[k];
        let found: Option<Status> = if at < statuses.len() {
            statuses[at]
        } else {
            None
        };
        assert(found == status_at(statuses@, at as int));
        match found {
            Some(status) => {
                if at < mutants.len() && summary.overall.eligible < u32::MAX {
                    assert(views[at as int] == mutants@[at as int]@);
                    summary.record(mutants[at].mutation_slug.as_str(), language, &status);
                }
                if is_listed(&status, verbose, all) {
                    listed.push(at);
                }
            },
            None => {},
        }
        k += 1;
    }
    let r = (summary, listed);
    proof {
        assert(is_report(
            views,
            statuses@,
            catalog_of(*language),
            order@,
            verbose,
            all,
            (r.0, r.1@),
        ));
    }
    r
}

} // verus!
