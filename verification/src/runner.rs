//! The rules of the campaign scheduler.
//!
//! The scheduler tests the mutants of one target after the other. Running
//! the test command, writing the mutated file and storing outcomes is the
//! caller's work; what is decided here is which mutant is tested, which
//! is skipped, what a finished test means, and when the source file has to
//! be restored.

use crate::mutations::registry::{catalog_of, get_severity_by_slug};
use crate::text::count_newlines_before;
use crate::types::errors::{IoError, IoErrorKind};
use crate::types::language::Language;
use crate::types::mutants::{Mutant, MutantView};
use crate::types::mutations::{severity_in, MutationSeverity, MutationView};
use crate::types::outcomes::{Outcome, OutcomeView, Status};
use std::collections::HashSet;
use vstd::prelude::*;
use vstd::utf8::*;

verus! {

/// The lines that a mutant touches: its first line and as many more as
/// its old text has line feeds.
#[derive(Clone, Copy, Debug)]
pub struct LineRange {
    pub first: u32,
    pub extra: usize,
}

impl LineRange {
    /// The range holds the line.
    pub open spec fn covers(self, line: int) -> bool {
        self.first <= line <= self.first + self.extra
    }

    /// The two ranges have a line in common.
    pub open spec fn meets(self, other: LineRange) -> bool {
        exists|line: int| self.covers(line) && other.covers(line)
    }
}

/// The lines of a mutant.
pub open spec fn range_of(m: MutantView) -> LineRange {
    LineRange { first: m.line_offset, extra: m.newline_count() as usize }
}

/// The lines of a range, as a set.
pub open spec fn lines_in(range: LineRange) -> Set<u32> {
    Set::new(|line: u32| range.covers(line as int))
}

/// One of the lines is a line of `range`.
pub open spec fn any_meets(lines: Set<u32>, range: LineRange) -> bool {
    exists|line: u32| #[trigger] lines.contains(line) && range.covers(line as int)
}

/// Two ranges that have a line in common have the later of their first
/// lines in common.
pub proof fn lemma_ranges_meet(a: LineRange, b: LineRange)
    requires
        a.meets(b),
    ensures
        a.first >= b.first ==> a.covers(a.first as int) && b.covers(a.first as int),
        a.first < b.first ==> a.covers(b.first as int) && b.covers(b.first as int),
        any_meets(lines_in(a), b),
{
    let line = choose|line: int| a.covers(line) && b.covers(line);
    let first: u32 = if a.first >= b.first {
        a.first
    } else {
        b.first
    };
    assert(lines_in(a).contains(first) && b.covers(first as int));
}

/// The rank by which mutants are ordered: that of the slug's severity,
/// and that of `Low` for a slug that the catalog does not have.
pub open spec fn rank_in(catalog: Seq<MutationView>, slug: Seq<char>) -> nat {
    match severity_in(catalog, slug) {
        Some(severity) => severity.rank(),
        None => 2,
    }
}

/// The positions, among the first `n` mutants, of those with the rank, in
/// their order.
pub open spec fn positions_with_rank(
    mutants: Seq<MutantView>,
    catalog: Seq<MutationView>,
    rank: nat,
    n: nat,
) -> Seq<usize>
    decreases n,
{
    if n == 0 {
        Seq::empty()
    } else if rank_in(catalog, mutants[n - 1].mutation_slug) == rank {
        positions_with_rank(mutants, catalog, rank, (n - 1) as nat).push((n - 1) as usize)
    } else {
        positions_with_rank(mutants, catalog, rank, (n - 1) as nat)
    }
}

/// The order in which the mutants of a target are tested: those of high
/// severity, then those of medium severity, then the others, each group
/// in the order in which the mutants were given.
pub open spec fn testing_order(mutants: Seq<MutantView>, catalog: Seq<MutationView>) -> Seq<usize> {
    positions_with_rank(mutants, catalog, 0, mutants.len()) + positions_with_rank(
        mutants,
        catalog,
        1,
        mutants.len(),
    ) + positions_with_rank(mutants, catalog, 2, mutants.len())
}

/// What the scheduler does with a mutant.
#[derive(Debug)]
pub enum Decision {
    /// The mutant has an outcome that is no timeout: nothing is done.
    AlreadyTested,
    /// The mutant is not tested; this outcome is stored for it.
    Skipped(Outcome),
    /// The mutant's slug is not among those asked for: nothing is done.
    Filtered,
    /// The mutant is applied and tested.
    Test,
}

/// How a test run ended.
#[derive(Debug)]
pub enum RunResult {
    /// The command ended, or was killed when its time was up.
    Finished { status: Status, output: String },
    /// The run was cancelled from outside.
    Interrupted,
}

/// What the scheduler does next while a test command runs.
#[derive(Clone, Copy, Debug, PartialEq, Eq, Structural)]
pub enum PollAction {
    /// Kill the command: its time is up. The status is `Timeout`.
    KillForTimeout,
    /// Kill the command: the run was cancelled. No outcome is made.
    KillForInterrupt,
    /// The command has ended; this is the status of the mutant.
    Done(Status),
    /// Look again in a tenth of a second.
    Wait,
}

/// How the timeout of the mutation tests was chosen.
#[derive(Clone, Copy, Debug, PartialEq, Eq, Structural)]
pub enum TimeoutAdvice {
    /// The timeout asked for is at least twice the baseline.
    Accepted,
    /// The timeout asked for is less than twice the baseline: some tests
    /// may time out for no fault of theirs.
    BelowRecommended,
    /// No timeout was asked for; twice the baseline is used.
    Recommended,
}

/// The baseline duration in whole seconds, rounded up.
pub open spec fn baseline_seconds(duration_ms: u32) -> int {
    (duration_ms + 999) / 1000
}

/// The timeout for mutation tests, in seconds, given what the user asked
/// for and how long the baseline took. A timeout shorter than the
/// baseline is refused.
pub open spec fn chosen_timeout(user_timeout: Option<u32>, duration_ms: u32) -> Option<
    (u32, TimeoutAdvice),
> {
    let base = baseline_seconds(duration_ms);
    match user_timeout {
        Some(t) => if t < base {
            None
        } else if t < 2 * base {
            Some((t, TimeoutAdvice::BelowRecommended))
        } else {
            Some((t, TimeoutAdvice::Accepted))
        },
        None => Some(((2 * base) as u32, TimeoutAdvice::Recommended)),
    }
}

/// The timeout for mutation tests: see [`chosen_timeout`].
pub fn choose_timeout(user_timeout: Option<u32>, duration_ms: u32) -> (r: Result<
    (u32, TimeoutAdvice),
    IoError,
>)
    ensures
        match r {
            Ok(choice) => chosen_timeout(user_timeout, duration_ms) == Some(choice),
            Err(e) => chosen_timeout(user_timeout, duration_ms) is None && e.kind
                == IoErrorKind::InvalidInput && e.message@ == "Timeout too short"@,
        },
{
    let base: u32 = ((duration_ms as u64 + 999) / 1000) as u32;
    let recommended: u32 = base * 2;
    match user_timeout {
        Some(t) => {
            if t < base {
                Err(IoError::new(IoErrorKind::InvalidInput, "Timeout too short"))
            } else if t < recommended {
                Ok((t, TimeoutAdvice::BelowRecommended))
            } else {
                Ok((t, TimeoutAdvice::Accepted))
            }
        },
        None => Ok((recommended, TimeoutAdvice::Recommended)),
    }
}

/// What to do while a test command runs: first the timeout is looked at,
/// then cancellation, then whether the command has ended.
pub fn poll(timeout_secs: Option<u32>, elapsed_ms: u64, running: bool, exited: Option<bool>) -> (r:
    PollAction)
    ensures
        r == if timeout_secs matches Some(t) && elapsed_ms >= t * 1000 {
            PollAction::KillForTimeout
        } else if !running {
            PollAction::KillForInterrupt
        } else {
            match exited {
                Some(success) => PollAction::Done(
                    if success {
                        Status::Uncaught
                    } else {
                        Status::TestFail
                    },
                ),
                None => PollAction::Wait,
            }
        },
{
    match timeout_secs {
        Some(t) => {
            if elapsed_ms >= t as u64 * 1000 {
                return PollAction::KillForTimeout;
            }
        },
        None => {},
    }
    if !running {
        return PollAction::KillForInterrupt;
    }
    match exited {
        Some(success) => PollAction::Done(Status::of_exit(success)),
        None => PollAction::Wait,
    }
}

/// The text of the first `n` lines, each with a line feed after it.
pub open spec fn lines_text(lines: Seq<Seq<char>>, n: nat) -> Seq<char>
    decreases n,
{
    if n == 0 {
        Seq::empty()
    } else {
        lines_text(lines, (n - 1) as nat) + lines[n - 1] + "\n"@
    }
}

/// The output of a test command as it is stored: under the heading
/// `STDOUT:` the lines that it wrote to its standard output, then two
/// line feeds, then under the heading `STDERR:` the lines that it wrote
/// to its standard error.
pub open spec fn stored_output(stdout: Seq<Seq<char>>, stderr: Seq<Seq<char>>) -> Seq<char> {
    "STDOUT:\n"@ + lines_text(stdout, stdout.len()) + "\n\n"@ + "STDERR:\n"@ + lines_text(
        stderr,
        stderr.len(),
    )
}

/// Appends the lines, each with a line feed after it.
fn append_lines(head: String, lines: &Vec<String>) -> (r: String)
    ensures
        r@ == head@ + lines_text(
            crate::mutations::common::slugs::string_views(lines@),
            lines@.len(),
        ),
{
    let ghost views = crate::mutations::common::slugs::string_views(lines@);
    let ghost start = head@;
    let mut text = head;
    let mut k: usize = 0;
    assert(text@ =~= start + lines_text(views, 0));
    while k < lines.len()
        invariant
            k <= lines@.len(),
            views == crate::mutations::common::slugs::string_views(lines@),
            text@ == start + lines_text(views, k as nat),
        decreases lines@.len() - k,
    {
        assert(views[k as int] == lines@[k as int]@);
        let ghost before = lines_text(views, k as nat);
        text = crate::text::append_str(text, lines[k].as_str());
        text = crate::text::append_str(text, "\n");
        assert(text@ =~= start + (before + views[k as int] + "\n"@));
        k += 1;
    }
    text
}

/// The output of a test command as it is stored: see [`stored_output`].
pub fn joined_output(stdout: &Vec<String>, stderr: &Vec<String>) -> (r: String)
    ensures
        r@ == stored_output(
            crate::mutations::common::slugs::string_views(stdout@),
            crate::mutations::common::slugs::string_views(stderr@),
        ),
{
    let out = append_lines("STDOUT:\n".to_owned(), stdout);
    let gap = crate::text::append_str(out, "\n\n");
    let head = crate::text::append_str(gap, "STDERR:\n");
    let ghost first = lines_text(
        crate::mutations::common::slugs::string_views(stdout@),
        stdout@.len(),
    );
    assert(head@ =~= "STDOUT:\n"@ + first + "\n\n"@ + "STDERR:\n"@);
    append_lines(head, stderr)
}

/// The message of the error for a slug that the catalog lacks.
pub open spec fn slug_not_found_text(slug: Seq<char>) -> Seq<char> {
    "Mutation slug not found: "@ + slug
}

/// The error for a slug that the catalog lacks; it names the slug.
fn slug_not_found(slug: &str) -> (r: IoError)
    ensures
        r.kind == IoErrorKind::NotFound,
        r.message@ == slug_not_found_text(slug@),
{
    let message = crate::text::append_str("Mutation slug not found: ".to_owned(), slug);
    IoError::new(IoErrorKind::NotFound, message.as_str())
}

/// The message stored with the outcome of a mutant that was skipped.
pub open spec fn skip_message() -> Seq<char> {
    "Skipped due to uncaught higher severity mutation on the same line"@
}

/// The scheduler for one test command and timeout.
#[derive(Debug)]
pub struct TestRunner {
    pub test_cmd: String,
    /// Seconds after which a test is killed; `None` while the baseline runs.
    pub timeout: Option<u32>,
    /// Test every mutant, whatever was uncaught before.
    pub comprehensive: bool,
    pub verbose: bool,
    /// A mutated file is on disk and has to be restored.
    pub has_active_mutation: bool,
    /// The target whose mutants are being tested.
    pub current_target: Option<i64>,
    /// Lines of uncaught mutants of high severity in the current target.
    pub uncaught_high_sev_lines: HashSet<u32>,
    /// Lines of uncaught mutants of medium severity in the current target.
    pub uncaught_med_sev_lines: HashSet<u32>,
}

/// The state of the scheduler as the rules see it.
pub struct RunnerView {
    pub comprehensive: bool,
    pub has_active_mutation: bool,
    pub uncaught_high: Set<u32>,
    pub uncaught_med: Set<u32>,
}

impl View for TestRunner {
    type V = RunnerView;

    open spec fn view(&self) -> RunnerView {
        RunnerView {
            comprehensive: self.comprehensive,
            has_active_mutation: self.has_active_mutation,
            uncaught_high: self.uncaught_high_sev_lines@,
            uncaught_med: self.uncaught_med_sev_lines@,
        }
    }
}

impl RunnerView {
    /// A mutant of the severity on the lines is skipped: one of medium
    /// severity where an uncaught mutant of high severity touched one of
    /// its lines, one of low severity where an uncaught mutant of high or
    /// medium severity did. A mutant of high severity is never skipped.
    pub open spec fn prunes(self, severity: MutationSeverity, range: LineRange) -> bool {
        match severity {
            MutationSeverity::High => false,
            MutationSeverity::Medium => any_meets(self.uncaught_high, range),
            MutationSeverity::Low => any_meets(self.uncaught_high, range) || any_meets(
                self.uncaught_med,
                range,
            ),
        }
    }

    /// The state after a mutant of the severity on the lines ended with
    /// the status: an uncaught mutant of high or medium severity has its
    /// lines recorded; nothing else changes what is recorded.
    pub open spec fn after(
        self,
        severity: Option<MutationSeverity>,
        range: LineRange,
        status: Status,
    ) -> RunnerView {
        if status == Status::Uncaught && severity == Some(MutationSeverity::High) {
            RunnerView {
                uncaught_high: self.uncaught_high.union(lines_in(range)),
                has_active_mutation: false,
                ..self
            }
        } else if status == Status::Uncaught && severity == Some(MutationSeverity::Medium) {
            RunnerView {
                uncaught_med: self.uncaught_med.union(lines_in(range)),
                has_active_mutation: false,
                ..self
            }
        } else {
            RunnerView { has_active_mutation: false, ..self }
        }
    }
}

/// What is decided for a mutant; `None` stands for the error of a slug
/// that the catalog does not have.
pub enum DecisionView {
    AlreadyTested,
    Skipped(OutcomeView),
    Filtered,
    Test,
}

/// The decision for a mutant, in this order: a mutant with an outcome
/// other than a timeout is left alone; without comprehensive mode, a mutant
/// that is pruned gets a skipped outcome of no duration; a mutant whose
/// slug is not among those asked for is left alone; every other mutant is
/// tested. Without comprehensive mode a slug that the catalog lacks is an
/// error.
pub open spec fn decision_for(
    state: RunnerView,
    catalog: Seq<MutationView>,
    m: MutantView,
    prior: Option<Status>,
    allowed: Option<Seq<Seq<char>>>,
    now: i64,
) -> Option<DecisionView> {
    if prior is Some && prior != Some(Status::Timeout) {
        Some(DecisionView::AlreadyTested)
    } else if !state.comprehensive && severity_in(catalog, m.mutation_slug) is None {
        None
    } else if !state.comprehensive && state.prunes(
        severity_in(catalog, m.mutation_slug)->0,
        range_of(m),
    ) {
        Some(
            DecisionView::Skipped(
                OutcomeView {
                    mutant_id: m.id,
                    status: Status::Skipped,
                    output: skip_message(),
                    time: now,
                    duration_ms: 0,
                },
            ),
        )
    } else if allowed matches Some(slugs) && slugs.len() > 0 && !slugs.contains(m.mutation_slug) {
        Some(DecisionView::Filtered)
    } else {
        Some(DecisionView::Test)
    }
}

/// Whether the decision is what the view says.
pub open spec fn decision_is(d: Decision, v: DecisionView) -> bool {
    match (d, v) {
        (Decision::AlreadyTested, DecisionView::AlreadyTested) => true,
        (Decision::Skipped(o), DecisionView::Skipped(w)) => o@ == w,
        (Decision::Filtered, DecisionView::Filtered) => true,
        (Decision::Test, DecisionView::Test) => true,
        _ => false,
    }
}

/// The last line of a range that a line number can name.
fn last_line(range: &LineRange) -> (r: u32)
    ensures
        range.first <= r,
        forall|line: u32| range.covers(line as int) <==> range.first <= line <= r,
{
    let room: u32 = u32::MAX - range.first;
    if range.extra >= room as usize {
        u32::MAX
    } else {
        range.first + range.extra as u32
    }
}

/// Whether one of the lines is a line of `range`.
fn any_overlaps(lines: &HashSet<u32>, range: &LineRange) -> (r: bool)
    ensures
        r == any_meets(lines@, *range),
{
    let last = last_line(range);
    let mut line: u32 = range.first;
    let mut done = false;
    while !done
        invariant
            range.first <= line <= last,
            forall|n: u32| range.covers(n as int) <==> range.first <= n <= last,
            forall|n: u32| range.first <= n < line ==> !lines@.contains(n),
            done ==> line == last && !lines@.contains(last),
        decreases (last - line) + (if done { 0int } else { 1int }),
    {
        if lines.contains(&line) {
            assert(lines@.contains(line) && range.covers(line as int));
            return true;
        }
        if line == last {
            done = true;
        } else {
            line += 1;
        }
    }
    false
}

/// Records the lines of a range.
fn record_lines(lines: &mut HashSet<u32>, range: &LineRange)
    ensures
        final(lines)@ == old(lines)@.union(lines_in(*range)),
{
    let last = last_line(range);
    let mut line: u32 = range.first;
    let mut done = false;
    while !done
        invariant
            range.first <= line <= last,
            forall|n: u32| range.covers(n as int) <==> range.first <= n <= last,
            forall|n: u32|
                lines@.contains(n) <==> old(lines)@.contains(n) || range.first <= n < line || (done
                    && n == last),
            done ==> line == last,
        decreases (last - line) + (if done { 0int } else { 1int }),
    {
        lines.insert(line);
        if line == last {
            done = true;
        } else {
            line += 1;
        }
    }
    assert(lines@ =~= old(lines)@.union(lines_in(*range)));
}

/// Whether `slug` is one of `slugs`.
fn has_slug(slugs: &Vec<String>, slug: &str) -> (r: bool)
    ensures
        r == crate::mutations::common::slugs::string_views(slugs@).contains(slug@),
{
    let ghost views = crate::mutations::common::slugs::string_views(slugs@);
    let mut k: usize = 0;
    while k < slugs.len()
        invariant
            k <= slugs@.len(),
            views == crate::mutations::common::slugs::string_views(slugs@),
            forall|n: int| 0 <= n < k ==> views[n] != slug@,
        decreases slugs@.len() - k,
    {
        if crate::text::str_eq(slugs[k].as_str(), slug) {
            assert(views[k as int] == slug@);
            return true;
        }
        k += 1;
    }
    false
}

/// The lines of a mutant.
pub fn lines_of(mutant: &Mutant) -> (r: LineRange)
    ensures
        r == range_of(mutant@),
{
    let old = mutant.old_text.as_str().as_bytes();
    let extra = count_newlines_before(old, old.len());
    LineRange { first: mutant.line_offset, extra }
}

/// The order in which the mutants of a target are tested, as positions in
/// the list: by severity, high first, and within one severity in the order
/// of the list.
pub fn severity_order(mutants: &Vec<Mutant>, language: &Language) -> (r: Vec<usize>)
    ensures
        r@ == testing_order(crate::types::mutants::mutant_views(mutants@), catalog_of(*language)),
        forall|k: int| 0 <= k < r@.len() ==> (#[trigger] r@[k]) < mutants@.len(),
{
    let ghost views = crate::types::mutants::mutant_views(mutants@);
    let ghost catalog = catalog_of(*language);
    let mut ranks: Vec<usize> = Vec::new();
    let mut i: usize = 0;
    while i < mutants.len()
        invariant
            i <= mutants@.len(),
            ranks@.len() == i,
            views == crate::types::mutants::mutant_views(mutants@),
            catalog == catalog_of(*language),
            forall|k: int| 0 <= k < i ==> ranks@[k] == rank_in(catalog, views[k].mutation_slug),
        decreases mutants@.len() - i,
    {
        let rank = match get_severity_by_slug(mutants[i].mutation_slug.as_str(), language) {
            Some(severity) => severity.to_numeric(),
            None => 2,
        };
        assert(views[i as int] == mutants@[i as int]@);
        ranks.push(rank);
        i += 1;
    }
    let mut order: Vec<usize> = Vec::new();
    let mut rank: usize = 0;
    while rank < 3
        invariant
            rank <= 3,
            ranks@.len() == mutants@.len(),
            views == crate::types::mutants::mutant_views(mutants@),
            forall|k: int|
                0 <= k < mutants@.len() ==> ranks@[k] == rank_in(catalog, views[k].mutation_slug),
            forall|k: int| 0 <= k < order@.len() ==> (#[trigger] order@[k]) < mutants@.len(),
            rank == 0 ==> order@ == Seq::<usize>::empty(),
            rank == 1 ==> order@ == positions_with_rank(views, catalog, 0, views.len()),
            rank == 2 ==> order@ == positions_with_rank(views, catalog, 0, views.len())
                + positions_with_rank(views, catalog, 1, views.len()),
            rank == 3 ==> order@ == testing_order(views, catalog),
        decreases 3 - rank,
    {
        let ghost before = order@;
        let mut j: usize = 0;
        assert(before + Seq::<usize>::empty() =~= before);
        while j < mutants.len()
            invariant
                j <= mutants@.len(),
                rank < 3,
                ranks@.len() == mutants@.len(),
                views == crate::types::mutants::mutant_views(mutants@),
                forall|k: int|
                    0 <= k < mutants@.len() ==> ranks@[k] == rank_in(
                        catalog,
                        views[k].mutation_slug,
                    ),
                forall|k: int| 0 <= k < order@.len() ==> (#[trigger] order@[k]) < mutants@.len(),
                order@ == before + positions_with_rank(views, catalog, rank as nat, j as nat),
            decreases mutants@.len() - j,
        {
            let ghost earlier = positions_with_rank(views, catalog, rank as nat, j as nat);
            if ranks[j] == rank {
                order.push(j);
                assert(order@ =~= before + earlier.push(j));
            }
            j += 1;
        }
        assert(views.len() == mutants@.len());
        if rank == 0 {
            assert(order@ =~= positions_with_rank(views, catalog, 0, views.len()));
        }
        rank += 1;
    }
    order
}

impl TestRunner {
    /// A scheduler that has tested nothing yet.
    pub fn new(
        test_cmd: String,
        timeout_secs: Option<u32>,
        comprehensive: bool,
        verbose: bool,
    ) -> (r: TestRunner)
        ensures
            r.test_cmd == test_cmd,
            r.timeout == timeout_secs,
            r.verbose == verbose,
            r@ == (RunnerView {
                comprehensive,
                has_active_mutation: false,
                uncaught_high: Set::empty(),
                uncaught_med: Set::empty(),
            }),
            r.current_target is None,
    {
        TestRunner {
            test_cmd,
            timeout: timeout_secs,
            comprehensive,
            verbose,
            has_active_mutation: false,
            current_target: None,
            uncaught_high_sev_lines: HashSet::new(),
            uncaught_med_sev_lines: HashSet::new(),
        }
    }

    /// What a baseline run means: the baseline has to run without a
    /// timeout, and the test command has to succeed on the unchanged
    /// source. The duration of a good baseline is handed back.
    pub fn run_baseline_test(&self, status: Status, duration_ms: u32) -> (r: Result<u32, IoError>)
        ensures
            match r {
                Ok(d) => self.timeout is None && status == Status::Uncaught && d == duration_ms,
                Err(e) => (self.timeout is Some || status != Status::Uncaught) && e.kind
                    == IoErrorKind::Other,
            },
    {
        if self.timeout.is_some() {
            return Err(
                IoError::new(IoErrorKind::Other, "Baseline tests should run with no timeout"),
            );
        }
        if !matches!(status, Status::Uncaught) {
            return Err(IoError::new(IoErrorKind::Other, "Baseline test failed"));
        }
        Ok(duration_ms)
    }

    /// The scheduler for the mutation tests, made from the result of the
    /// baseline run. A baseline that failed gives no scheduler, and so no
    /// outcome is ever made; a timeout shorter than the baseline is
    /// refused.
    pub fn new_with_baseline(
        test_cmd: String,
        user_timeout: Option<u32>,
        baseline_status: Status,
        baseline_duration_ms: u32,
        comprehensive: bool,
        verbose: bool,
    ) -> (r: Result<(TestRunner, TimeoutAdvice), IoError>)
        ensures
            match r {
                Ok((runner, advice)) => baseline_status == Status::Uncaught && chosen_timeout(
                    user_timeout,
                    baseline_duration_ms,
                ) == Some((runner.timeout->0, advice)) && runner.timeout is Some && runner.test_cmd
                    == test_cmd && runner.verbose == verbose && runner@ == (RunnerView {
                    comprehensive,
                    has_active_mutation: false,
                    uncaught_high: Set::empty(),
                    uncaught_med: Set::empty(),
                }),
                Err(e) => if baseline_status != Status::Uncaught {
                    e.kind == IoErrorKind::Other
                } else {
                    chosen_timeout(user_timeout, baseline_duration_ms) is None && e.kind
                        == IoErrorKind::InvalidInput
                },
            },
    {
        let probe = TestRunner::new("".to_owned(), None, comprehensive, verbose);
        let duration = match probe.run_baseline_test(baseline_status, baseline_duration_ms) {
            Ok(d) => d,
            Err(e) => {
                return Err(e);
            },
        };
        match choose_timeout(user_timeout, duration) {
            Ok((timeout, advice)) => Ok(
                (TestRunner::new(test_cmd, Some(timeout), comprehensive, verbose), advice),
            ),
            Err(e) => Err(e),
        }
    }

    /// Starts on a target: what was recorded for the target before is
    /// forgotten.
    pub fn begin_target(&mut self, target_id: i64)
        ensures
            final(self).current_target == Some(target_id),
            final(self)@ == (RunnerView {
                uncaught_high: Set::empty(),
                uncaught_med: Set::empty(),
                ..old(self)@
            }),
            final(self).test_cmd == old(self).test_cmd,
            final(self).timeout == old(self).timeout,
            final(self).verbose == old(self).verbose,
    {
        self.current_target = Some(target_id);
        self.uncaught_high_sev_lines.clear();
        self.uncaught_med_sev_lines.clear();
    }

    /// Ends the current target.
    pub fn end_target(&mut self)
        ensures
            final(self).current_target is None,
            final(self)@ == old(self)@,
            final(self).test_cmd == old(self).test_cmd,
            final(self).timeout == old(self).timeout,
            final(self).verbose == old(self).verbose,
    {
        self.current_target = None;
    }

    /// What to do with a mutant: see [`decision_for`]. `prior` is the
    /// status of the outcome that the mutant has, `allowed_slugs` the
    /// slugs that were asked for, `now` the time for a skipped outcome.
    pub fn decide(
        &self,
        mutant: &Mutant,
        language: &Language,
        prior: Option<Status>,
        allowed_slugs: &Option<Vec<String>>,
        now: i64,
    ) -> (r: Result<Decision, IoError>)
        ensures
            match r {
                Ok(d) => decision_for(
                    self@,
                    catalog_of(*language),
                    mutant@,
                    prior,
                    allowed_views(*allowed_slugs),
                    now,
                ) matches Some(v) && decision_is(d, v),
                Err(e) => decision_for(
                    self@,
                    catalog_of(*language),
                    mutant@,
                    prior,
                    allowed_views(*allowed_slugs),
                    now,
                ) is None && e.kind == IoErrorKind::NotFound && e.message@
                    == slug_not_found_text(mutant@.mutation_slug),
            },
    {
        match prior {
            Some(status) => {
                if !matches!(status, Status::Timeout) {
                    return Ok(Decision::AlreadyTested);
                }
            },
            None => {},
        }
        if !self.comprehensive {
            let severity = match get_severity_by_slug(mutant.mutation_slug.as_str(), language) {
                Some(s) => s,
                None => {
                    return Err(slug_not_found(mutant.mutation_slug.as_str()));
                },
            };
            let range = lines_of(mutant);
            let should_skip = match severity {
                MutationSeverity::High => false,
                MutationSeverity::Medium => any_overlaps(&self.uncaught_high_sev_lines, &range),
                MutationSeverity::Low => any_overlaps(&self.uncaught_high_sev_lines, &range)
                    || any_overlaps(&self.uncaught_med_sev_lines, &range),
            };
            if should_skip {
                let outcome = Outcome {
                    mutant_id: mutant.id,
                    status: Status::Skipped,
                    output: "Skipped due to uncaught higher severity mutation on the same line"
                        .to_owned(),
                    time: now,
                    duration_ms: 0,
                };
                return Ok(Decision::Skipped(outcome));
            }
        }
        match allowed_slugs {
            Some(slugs) => {
                if slugs.len() > 0 && !has_slug(slugs, mutant.mutation_slug.as_str()) {
                    return Ok(Decision::Filtered);
                }
            },
            None => {},
        }
        Ok(Decision::Test)
    }

    /// Notes that the mutated file is about to be written.
    pub fn begin_test(&mut self)
        ensures
            final(self)@ == (RunnerView { has_active_mutation: true, ..old(self)@ }),
            final(self).current_target == old(self).current_target,
            final(self).test_cmd == old(self).test_cmd,
            final(self).timeout == old(self).timeout,
            final(self).verbose == old(self).verbose,
    {
        self.has_active_mutation = true;
    }

    /// Takes in how the test of a mutant ended. After a run that was
    /// interrupted no outcome is made. After any other run the outcome is
    /// made from the status, the output, the time and the duration, and
    /// the lines of an uncaught mutant of high or medium severity are
    /// recorded. Either way the source file has to be restored, and the
    /// scheduler holds the mutation for active no more.
    ///
    /// An uncaught mutant whose slug the catalog lacks is an error that
    /// names the slug; the file has to be restored all the same, and the
    /// mutation is active no more.
    pub fn test_mutant(
        &mut self,
        mutant: &Mutant,
        language: &Language,
        result: RunResult,
        now: i64,
        duration_ms: u32,
    ) -> (r: Result<Option<Outcome>, IoError>)
        ensures
            final(self).current_target == old(self).current_target,
            final(self).test_cmd == old(self).test_cmd,
            final(self).timeout == old(self).timeout,
            final(self).verbose == old(self).verbose,
            match result {
                RunResult::Interrupted => r matches Ok(None) && final(self)@ == (RunnerView {
                    has_active_mutation: false,
                    ..old(self)@
                }),
                RunResult::Finished { status, output } => if status == Status::Uncaught
                    && severity_in(catalog_of(*language), mutant@.mutation_slug) is None {
                    r matches Err(e) && e.kind == IoErrorKind::NotFound && e.message@
                        == slug_not_found_text(mutant@.mutation_slug) && final(self)@
                        == (RunnerView { has_active_mutation: false, ..old(self)@ })
                } else {
                    r matches Ok(Some(outcome)) && outcome@ == (OutcomeView {
                        mutant_id: mutant.id,
                        status,
                        output: output@,
                        time: now,
                        duration_ms,
                    }) && final(self)@ == old(self)@.after(
                        severity_in(catalog_of(*language), mutant@.mutation_slug),
                        range_of(mutant@),
                        status,
                    )
                },
            },
    {
        match result {
            RunResult::Interrupted => {
                self.has_active_mutation = false;
                Ok(None)
            },
            RunResult::Finished { status, output } => {
                if matches!(status, Status::Uncaught) {
                    let severity = match get_severity_by_slug(
                        mutant.mutation_slug.as_str(),
                        language,
                    ) {
                        Some(s) => s,
                        None => {
                            self.has_active_mutation = false;
                            return Err(slug_not_found(mutant.mutation_slug.as_str()));
                        },
                    };
                    match severity {
                        MutationSeverity::High => {
                            record_lines(&mut self.uncaught_high_sev_lines, &lines_of(mutant));
                        },
                        MutationSeverity::Medium => {
                            record_lines(&mut self.uncaught_med_sev_lines, &lines_of(mutant));
                        },
                        MutationSeverity::Low => {},
                    }
                }
                self.has_active_mutation = false;
                Ok(Some(Outcome { mutant_id: mutant.id, status, output, time: now, duration_ms }))
            },
        }
    }

    /// Whether a source file has to be restored now: it has to whenever a
    /// mutation is active. The scheduler holds the mutation for active no
    /// more.
    pub fn cleanup(&mut self) -> (r: bool)
        ensures
            r == old(self).has_active_mutation,
            final(self)@ == (RunnerView { has_active_mutation: false, ..old(self)@ }),
            final(self).current_target == old(self).current_target,
            final(self).test_cmd == old(self).test_cmd,
            final(self).timeout == old(self).timeout,
            final(self).verbose == old(self).verbose,
    {
        let active = self.has_active_mutation;
        self.has_active_mutation = false;
        active
    }
}

/// The slugs that were asked for, as strings.
pub open spec fn allowed_views(allowed: Option<Vec<String>>) -> Option<Seq<Seq<char>>> {
    match allowed {
        Some(slugs) => Some(crate::mutations::common::slugs::string_views(slugs@)),
        None => None,
    }
}

/// How the test of one mutant ended, as far as the scheduler records it:
/// the severity of the mutant's slug, the mutant's lines, and the status.
pub struct TestedView {
    pub severity: Option<MutationSeverity>,
    pub range: LineRange,
    pub status: Status,
}

/// The state after the tests of some mutants of one target, in turn.
pub open spec fn after_all(state: RunnerView, tested: Seq<TestedView>) -> RunnerView
    decreases tested.len(),
{
    if tested.len() == 0 {
        state
    } else {
        after_all(state, tested.drop_last()).after(
            tested.last().severity,
            tested.last().range,
            tested.last().status,
        )
    }
}

/// What is recorded for a target stays recorded while the target's
/// mutants are tested, and comprehensive mode does not change.
pub proof fn lemma_recorded_lines_stay(state: RunnerView, tested: Seq<TestedView>, range: LineRange)
    ensures
        after_all(state, tested).comprehensive == state.comprehensive,
        any_meets(state.uncaught_high, range) ==> any_meets(
            after_all(state, tested).uncaught_high,
            range,
        ),
        any_meets(state.uncaught_med, range) ==> any_meets(
            after_all(state, tested).uncaught_med,
            range,
        ),
    decreases tested.len(),
{
    if tested.len() > 0 {
        let before = after_all(state, tested.drop_last());
        lemma_recorded_lines_stay(state, tested.drop_last(), range);
        let now = after_all(state, tested);
        if any_meets(before.uncaught_high, range) {
            let line = choose|line: u32| #[trigger]
                before.uncaught_high.contains(line) && range.covers(line as int);
            assert(now.uncaught_high.contains(line));
        }
        if any_meets(before.uncaught_med, range) {
            let line = choose|line: u32| #[trigger]
                before.uncaught_med.contains(line) && range.covers(line as int);
            assert(now.uncaught_med.contains(line));
        }
    }
}

/// Severity pruning. Without comprehensive mode: once a mutant of high or
/// medium severity was uncaught, every mutant of low severity that is
/// decided on later in the same target, touches one of its lines and has
/// no outcome yet (or only a timeout) gets a skipped outcome; it is not
/// tested. Whatever was tested in between does not matter.
pub proof fn lemma_severity_pruning(
    state: RunnerView,
    catalog: Seq<MutationView>,
    uncaught: MutantView,
    between: Seq<TestedView>,
    later: MutantView,
    prior: Option<Status>,
    allowed: Option<Seq<Seq<char>>>,
    now: i64,
)
    requires
        !state.comprehensive,
        severity_in(catalog, uncaught.mutation_slug) == Some(MutationSeverity::High) || severity_in(
            catalog,
            uncaught.mutation_slug,
        ) == Some(MutationSeverity::Medium),
        severity_in(catalog, later.mutation_slug) == Some(MutationSeverity::Low),
        range_of(uncaught).meets(range_of(later)),
        prior is None || prior == Some(Status::Timeout),
    ensures
        decision_for(
            after_all(
                state.after(
                    severity_in(catalog, uncaught.mutation_slug),
                    range_of(uncaught),
                    Status::Uncaught,
                ),
                between,
            ),
            catalog,
            later,
            prior,
            allowed,
            now,
        ) matches Some(DecisionView::Skipped(outcome)) && outcome.status == Status::Skipped
            && outcome.mutant_id == later.id && outcome.duration_ms == 0 && outcome.output
            == skip_message(),
{
    let severity = severity_in(catalog, uncaught.mutation_slug);
    let recorded = state.after(severity, range_of(uncaught), Status::Uncaught);
    lemma_ranges_meet(range_of(uncaught), range_of(later));
    let line = choose|line: u32| #[trigger]
        lines_in(range_of(uncaught)).contains(line) && range_of(later).covers(line as int);
    if severity == Some(MutationSeverity::High) {
        assert(recorded.uncaught_high.contains(line));
        assert(any_meets(recorded.uncaught_high, range_of(later)));
    } else {
        assert(recorded.uncaught_med.contains(line));
        assert(any_meets(recorded.uncaught_med, range_of(later)));
    }
    lemma_recorded_lines_stay(recorded, between, range_of(later));
}

/// A mutant of high severity is never skipped for what was uncaught
/// before it, and in comprehensive mode no mutant is.
pub proof fn lemma_never_pruned(
    state: RunnerView,
    catalog: Seq<MutationView>,
    m: MutantView,
    prior: Option<Status>,
    allowed: Option<Seq<Seq<char>>>,
    now: i64,
)
    requires
        state.comprehensive || severity_in(catalog, m.mutation_slug) == Some(
            MutationSeverity::High,
        ),
    ensures
        !(decision_for(state, catalog, m, prior, allowed, now) matches Some(
            DecisionView::Skipped(_),
        )),
{
}

// ---------------------------------------------------------------------
// Planning a campaign
// ---------------------------------------------------------------------
/// The slugs that a filter names: what stands between its commas, without
/// the white space around it. Nothing is left out, so that an empty
/// filter names one slug, the empty one.
pub open spec fn filter_entries(list: Seq<Seq<u8>>) -> Seq<Seq<char>>
    decreases list.len(),
{
    if list.len() == 0 {
        Seq::empty()
    } else {
        filter_entries(list.drop_last()).push(
            crate::text::trimmed(crate::report::text_of(list.last())),
        )
    }
}

/// The slugs that a filter names.
pub open spec fn filter_slugs_of(filter: Seq<char>) -> Seq<Seq<char>> {
    filter_entries(crate::types::config::pieces(encode_utf8(filter), 0x2c))
}

/// The slugs that a filter names: see [`filter_slugs_of`].
pub fn parse_filter_slugs(filter: &str) -> (r: Vec<String>)
    ensures
        crate::mutations::common::slugs::string_views(r@) == filter_slugs_of(filter@),
{
    let list = crate::types::config::split_bytes(filter.as_bytes(), 0x2c);
    let ghost all = list@.map_values(|p: Vec<u8>| p@);
    let mut out: Vec<String> = Vec::new();
    let mut k: usize = 0;
    assert(crate::mutations::common::slugs::string_views(out@) =~= Seq::<Seq<char>>::empty());
    assert(all.subrange(0, 0) =~= Seq::<Seq<u8>>::empty());
    while k < list.len()
        invariant
            k <= list@.len(),
            all == list@.map_values(|p: Vec<u8>| p@),
            crate::mutations::common::slugs::string_views(out@) == filter_entries(
                all.subrange(0, k as int),
            ),
        decreases list@.len() - k,
    {
        assert(all.subrange(0, k + 1).drop_last() =~= all.subrange(0, k as int));
        assert(all.subrange(0, k + 1).last() == list@[k as int]@);
        let piece = crate::report::string_of(list[k].as_slice());
        crate::types::config::push_string(&mut out, crate::text::trim(piece.as_str()).to_owned());
        k += 1;
    }
    assert(all.subrange(0, list@.len() as int) =~= all);
    out
}

/// The sum of two counts, or the greatest count where the sum is greater.
pub open spec fn capped_sum(a: int, b: int) -> int {
    if a + b > u64::MAX {
        u64::MAX as int
    } else {
        a + b
    }
}

/// How many mutants of the first `n` targets have no outcome, and how many
/// are tested again after a timeout; each number stops at the greatest
/// `u64`.
pub open spec fn totals_upto(counts: Seq<(usize, usize)>, n: nat) -> (int, int)
    decreases n,
{
    if n == 0 {
        (0, 0)
    } else {
        let (untested, retest) = totals_upto(counts, (n - 1) as nat);
        (capped_sum(untested, counts[n - 1].0 as int), capped_sum(retest, counts[n - 1].1 as int))
    }
}

/// The longest that a campaign can take, in seconds: the timeout for each
/// mutant to test. Without a timeout nothing is estimated.
pub open spec fn estimated_seconds(timeout_secs: Option<u32>, total: int) -> int {
    match timeout_secs {
        Some(t) => if t * total > u64::MAX {
            u64::MAX as int
        } else {
            t * total
        },
        None => 0,
    }
}

/// What a campaign is about to do.
#[derive(Debug)]
pub struct CampaignPlan {
    /// The slugs that were asked for; every slug where none was.
    pub allowed_slugs: Option<Vec<String>>,
    /// Mutants without an outcome.
    pub untested: u64,
    /// Mutants that are tested again after a timeout.
    pub retest: u64,
    /// Mutants to test.
    pub total: u64,
    /// The longest that the campaign can take, in seconds.
    pub estimated_secs: u64,
    /// Whether progress is shown: there is more than one mutant to test.
    pub show_progress: bool,
}

/// The sum of two counts, capped.
fn add_capped(a: u64, b: u64) -> (r: u64)
    ensures
        r == capped_sum(a as int, b as int),
{
    if a > u64::MAX - b {
        u64::MAX
    } else {
        a + b
    }
}

impl TestRunner {
    /// Plans a campaign from the filter that was asked for and, for each
    /// target, the numbers of its mutants without an outcome and with a
    /// timeout.
    pub fn run_mutation_campaign(
        &self,
        counts: &Vec<(usize, usize)>,
        filter_slugs: Option<String>,
    ) -> (r: CampaignPlan)
        ensures
            allowed_views(r.allowed_slugs) == match filter_slugs {
                Some(filter) => Some(filter_slugs_of(filter@)),
                None => None,
            },
            (r.untested as int, r.retest as int) == totals_upto(counts@, counts@.len()),
            r.total == capped_sum(r.untested as int, r.retest as int),
            r.estimated_secs == estimated_seconds(self.timeout, r.total as int),
            r.show_progress == (r.total > 1),
    {
        let allowed_slugs = match filter_slugs {
            Some(filter) => Some(parse_filter_slugs(filter.as_str())),
            None => None,
        };
        let mut untested: u64 = 0;
        let mut retest: u64 = 0;
        let mut k: usize = 0;
        while k < counts.len()
            invariant
                k <= counts@.len(),
                (untested as int, retest as int) == totals_upto(counts@, k as nat),
            decreases counts@.len() - k,
        {
            untested = add_capped(untested, counts[k].0 as u64);
            retest = add_capped(retest, counts[k].1 as u64);
            k += 1;
        }
        let total = add_capped(untested, retest);
        let estimated_secs: u64 = match self.timeout {
            Some(t) => {
                assert(t as int * total as int <= 0xffff_ffff * 0xffff_ffff_ffff_ffff) by (
                    nonlinear_arith)
                    requires
                        0 <= t as int <= 0xffff_ffff,
                        0 <= total as int <= 0xffff_ffff_ffff_ffff,
                ;
                let product: u128 = t as u128 * total as u128;
                if product > u64::MAX as u128 {
                    u64::MAX
                } else {
                    product as u64
                }
            },
            None => 0,
        };
        CampaignPlan {
            allowed_slugs,
            untested,
            retest,
            total,
            estimated_secs,
            show_progress: total > 1,
        }
    }

    /// Starts on a target: what was recorded before is forgotten, and the
    /// order is given in which the target's mutants are decided on.
    pub fn run_mutations_for_target(
        &mut self,
        target_id: i64,
        language: &Language,
        mutants: &Vec<Mutant>,
    ) -> (r: Vec<usize>)
        ensures
            r@ == testing_order(
                crate::types::mutants::mutant_views(mutants@),
                catalog_of(*language),
            ),
            forall|k: int| 0 <= k < r@.len() ==> (#[trigger] r@[k]) < mutants@.len(),
            final(self).current_target == Some(target_id),
            final(self)@ == (RunnerView {
                uncaught_high: Set::empty(),
                uncaught_med: Set::empty(),
                ..old(self)@
            }),
            final(self).test_cmd == old(self).test_cmd,
            final(self).timeout == old(self).timeout,
            final(self).verbose == old(self).verbose,
    {
        self.begin_target(target_id);
        severity_order(mutants, language)
    }
}

} // verus!
