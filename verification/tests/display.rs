//! How mutants, targets and outcomes are shown.

use muton::mutations::common::utils::calculate_line_offset;
use muton::mutations::func::engine::FuncMutationEngine;
use muton::report::{
    decimal, format_text, highlight, integer, is_listed, listing_order, mutation_lines,
    print_mutations_for_language, summarize, Change, ChangeKind, OutcomeCounter, Summary,
};
use muton::types::language::Language;
use muton::types::mutants::Mutant;
use muton::types::mutations::{Mutation, MutationSeverity};
use muton::types::outcomes::Status;
use muton::types::targets::Target;

fn strip_ansi(input: &str) -> String {
    // Basic ANSI escape removal
    let mut out = String::with_capacity(input.len());
    let mut chars = input.chars().peekable();
    while let Some(ch) = chars.next() {
        if ch == '\u{1b}' {
            // Skip until 'm' or end
            for c in chars.by_ref() {
                if c == 'm' {
                    break;
                }
            }
        } else {
            out.push(ch);
        }
    }
    out
}

fn target(id: i64, path: &str, source: &str) -> Target {
    Target {
        id,
        path: path.to_string(),
        file_hash: muton::types::hash::Hash::digest(source.to_string()),
        text: source.to_string(),
        language: Language::FunC,
    }
}

fn mutant(
    id: i64,
    target_id: i64,
    offset: u32,
    line: u32,
    old: &str,
    new: &str,
    slug: &str,
) -> Mutant {
    Mutant {
        id,
        target_id,
        byte_offset: offset,
        line_offset: line,
        old_text: old.to_string(),
        new_text: new.to_string(),
        mutation_slug: slug.to_string(),
    }
}

#[test]
fn test_display_single_line_replacement() {
    let source = "let x = 1 + 2;\nlet y = x;\n".to_string();
    let target = target(1, "/tmp/test.fc", &source);

    let old = "1 + 2".to_string();
    let new = "error(0)".to_string();
    let byte_offset = source.find(&old).unwrap() as u32;
    let line_offset = calculate_line_offset(&source, byte_offset as usize);

    let mutant = Mutant {
        id: 42,
        target_id: 0, // allow applying to any target
        byte_offset,
        line_offset,
        old_text: old.clone(),
        new_text: new.clone(),
        mutation_slug: "test-replace".to_string(),
    };

    let output = strip_ansi(&mutant.display(&target));
    assert!(output.contains("->"), "display should show an arrow: {output}");
    assert!(output.contains("Line 1") || output.contains("Lines 1-1"));
    assert!(output.contains("error(0)"), "new_text should appear in display: {output}");
    assert!(!output.contains("'' -> ''"), "should not show empty diff: {output}");
    assert_eq!(output, "[test-replace 42] Line 1: 'let x = 1 + 2;' -> 'let x = error(0);'");
}

#[test]
fn test_display_multi_line_replacement() {
    let source = "fn main() {\n    let a = 1;\n    let b = 2;\n}\n".to_string();
    let target = target(2, "/tmp/test2.fc", &source);

    let old = "1;\n    let b = 2;".to_string();
    let new = "error(0);".to_string();
    let byte_offset = source.find("1;\n    let b = 2;").unwrap() as u32;
    let line_offset = calculate_line_offset(&source, byte_offset as usize);

    let mutant = Mutant {
        id: 7,
        target_id: 0,
        byte_offset,
        line_offset,
        old_text: old.clone(),
        new_text: new.clone(),
        mutation_slug: "test-multiline".to_string(),
    };

    let output = strip_ansi(&mutant.display(&target));
    assert!(output.contains("Lines 2-3"), "should show multi-line range: {output}");
    assert!(output.contains("error(0)"), "new_text should appear in display: {output}");
    assert_eq!(
        output,
        "[test-multiline 7] Lines 2-3: 'let a = 1;\\n let b = 2;' -> 'let a = error(0);'"
    );
    assert_eq!(mutant.get_lines(), (2, 3));
}

#[test]
fn test_display_when_line_offset_zero() {
    // Mutation at very start of file
    let source = "abc\nxyz\n".to_string();
    let target = target(3, "/tmp/test3.fc", &source);

    let old = "abc".to_string();
    let new = "error(0)".to_string();
    let byte_offset = 0u32;
    let line_offset = 0u32; // first line

    let mutant = Mutant {
        id: 3,
        target_id: 0,
        byte_offset,
        line_offset,
        old_text: old,
        new_text: new.clone(),
        mutation_slug: "test-start".to_string(),
    };

    let output = strip_ansi(&mutant.display(&target));
    assert!(output.contains("Line 1"));
    assert!(output.contains(&new));
    assert!(!output.contains("'' -> ''"));
    assert_eq!(output, "[test-start 3] Line 1: 'abc' -> 'error(0)'");
}

#[test]
fn colors_do_not_change_the_text() {
    let source = "let x = 1 + 2;\nlet y = x;\n".to_string();
    let target = target(1, "/tmp/test.fc", &source);
    let mutant = Mutant {
        id: 42,
        target_id: 0,
        byte_offset: 8,
        line_offset: 0,
        old_text: "1 + 2".to_string(),
        new_text: "error(0)".to_string(),
        mutation_slug: "ER".to_string(),
    };
    let plain = mutant.display_colored(&target, false);
    assert_eq!(plain, "[ER 42] Line 1: 'let x = 1 + 2;' -> 'let x = error(0);'");
    assert_eq!(plain, mutant.display(&target));
    // With colors the words that are the same stay, and so does every
    // word once the colors are taken off.
    let colored = strip_ansi(&mutant.display_colored(&target, true));
    assert_eq!(colored, plain);
    assert_eq!(Status::Uncaught.display(false), "Uncaught");
    assert_eq!(strip_ansi(&Status::Timeout.display(true)), "Timeout");
}

#[test]
fn lines_are_brought_onto_one_line() {
    assert_eq!(format_text("  a\n    b\n\n\tc  "), "a\\n b\\n\\n c");
    assert_eq!(format_text("x"), "x");
    assert_eq!(format_text("   "), "");
    assert_eq!(format_text(""), "");
    assert_eq!(format_text("a\n \nb"), "a\\n \\nb");
}

#[test]
fn numbers_are_written_in_decimal() {
    assert_eq!(decimal(0), "0");
    assert_eq!(decimal(7), "7");
    assert_eq!(decimal(10), "10");
    assert_eq!(decimal(18446744073709551615), "18446744073709551615");
    assert_eq!(integer(-1), "-1");
    assert_eq!(integer(i64::MIN), "-9223372036854775808");
    assert_eq!(integer(i64::MAX), "9223372036854775807");
}

#[test]
fn line_offsets_count_line_feeds() {
    assert_eq!(calculate_line_offset("a\nb\nc", 0), 0);
    assert_eq!(calculate_line_offset("a\nb\nc", 1), 0);
    assert_eq!(calculate_line_offset("a\nb\nc", 2), 1);
    assert_eq!(calculate_line_offset("a\nb\nc", 4), 2);
    assert_eq!(calculate_line_offset("a\nb\nc", 400), 2);
    assert_eq!(calculate_line_offset("", 3), 0);
}

#[test]
fn target_paths_are_shown_below_the_working_directory() {
    let t = target(1, "/home/me/project/src/a.fc", "");
    assert_eq!(t.display("/home/me/project"), "src/a.fc");
    assert_eq!(t.display("/home/me/project/"), "src/a.fc");
    assert_eq!(t.display("/home/me/proj"), "/home/me/project/src/a.fc");
    assert_eq!(t.display("/elsewhere"), "/home/me/project/src/a.fc");
    assert_eq!(t.display("/home/me/project/src/a.fc"), ".");
    assert_eq!(target(1, "src/a.fc", "").display("/home/me"), "src/a.fc");
}

#[test]
fn outcomes_are_counted_by_severity() {
    let mut counter = OutcomeCounter::new();
    for status in [
        Status::TestFail,
        Status::Uncaught,
        Status::Skipped,
        Status::BuildFail,
        Status::Timeout,
        Status::TestFail,
    ] {
        counter.record(&status);
    }
    // Caught over caught and uncaught: the others do not count.
    assert_eq!((counter.caught, counter.eligible), (2, 3));
    let mut summary = Summary::new();
    summary.record("ER", &Language::FunC, &Status::TestFail);
    summary.record("ER", &Language::FunC, &Status::Uncaught);
    summary.record("CR", &Language::FunC, &Status::TestFail);
    summary.record("BL", &Language::FunC, &Status::Skipped);
    summary.record("BL", &Language::FunC, &Status::Uncaught);
    summary.record("unknown", &Language::FunC, &Status::TestFail);
    assert_eq!((summary.high.caught, summary.high.eligible), (1, 2));
    assert_eq!((summary.medium.caught, summary.medium.eligible), (1, 1));
    assert_eq!((summary.low.caught, summary.low.eligible), (1, 2));
    assert_eq!((summary.overall.caught, summary.overall.eligible), (3, 5));
    assert!(is_listed(&Status::Uncaught, false, false));
    assert!(!is_listed(&Status::TestFail, false, false));
    assert!(is_listed(&Status::TestFail, true, false));
    assert!(is_listed(&Status::Skipped, false, true));
}

#[test]
fn mutants_are_listed_by_offset() {
    let mutant = |offset: u32| Mutant {
        id: 0,
        target_id: 1,
        byte_offset: offset,
        line_offset: 0,
        old_text: String::new(),
        new_text: String::new(),
        mutation_slug: "ER".to_string(),
    };
    let mutants = vec![mutant(30), mutant(10), mutant(30), mutant(0), mutant(10)];
    assert_eq!(listing_order(&mutants), vec![3, 1, 4, 0, 2]);
    assert_eq!(listing_order(&vec![]), Vec::<usize>::new());
}

#[test]
fn mutations_are_listed_by_slug() {
    let lines = print_mutations_for_language(&Language::Tolk);
    assert_eq!(lines.len(), 18);
    assert_eq!(lines[0], "Available mutations for tolk:");
    assert_eq!(
        lines[1],
        "  [AAOS] Arithmetic Assignment Operator Shuffle: Replace arithmetic assignment operators (+=, -=, *=, /=) (Severity: Low)"
    );
    assert_eq!(
        lines[9],
        "  [ER] Error Replacement: Replace statement with a throw statement (Severity: High)"
    );
    assert_eq!(lines[17], "");
    let engine = FuncMutationEngine::new();
    assert_eq!(mutation_lines(engine.get_mutations()).len(), 27);
    let twice = vec![
        Mutation { slug: "B", description: "second", severity: MutationSeverity::Low },
        Mutation { slug: "A", description: "first", severity: MutationSeverity::High },
        Mutation { slug: "B", description: "third", severity: MutationSeverity::High },
        Mutation { slug: "B", description: "fourth", severity: MutationSeverity::High },
    ];
    assert_eq!(
        mutation_lines(&twice),
        vec![
            "  [A] first (Severity: High)".to_string(),
            "  [B] second (and 2 other variants) (Severity: Low)".to_string(),
        ]
    );
}

#[test]
fn the_report_of_a_target_counts_and_lists() {
    let mutants = vec![
        mutant(1, 1, 30, 3, "c", "d", "BL"),
        mutant(2, 1, 0, 0, "a", "b", "ER"),
        mutant(3, 1, 10, 1, "b", "c", "CR"),
        mutant(4, 1, 10, 1, "b", "x", "ZZ"),
    ];
    let statuses =
        vec![Some(Status::Uncaught), Some(Status::TestFail), None, Some(Status::TestFail)];
    let (summary, listed) = summarize(&mutants, &statuses, &Language::FunC, false, false);
    assert_eq!((summary.overall.eligible, summary.overall.caught), (3, 2));
    assert_eq!((summary.high.eligible, summary.high.caught), (1, 1));
    assert_eq!((summary.medium.eligible, summary.medium.caught), (0, 0));
    // A slug without a severity counts as low.
    assert_eq!((summary.low.eligible, summary.low.caught), (2, 1));
    assert_eq!(listed, vec![0]);
    let (_, listed) = summarize(&mutants, &statuses, &Language::FunC, false, true);
    assert_eq!(listed, vec![1, 3, 0]);
    // Statuses that are missing at the end stand for no outcome.
    let (summary, listed) = summarize(&mutants, &vec![None, Some(Status::Timeout)], &Language::FunC, true, false);
    assert_eq!(summary.overall.eligible, 0);
    assert_eq!(listed, vec![1]);
}

#[test]
fn catalog_entries_say_what_they_do() {
    let engine = FuncMutationEngine::new();
    let entries = engine.get_mutations();
    assert_eq!(entries[0].slug, "ER");
    assert_eq!(entries[0].description, "Error Replacement: Replace statement with a throw statement");
    assert!(entries.iter().all(|entry| !entry.description.is_empty()));
}

#[test]
fn painted_text_holds_the_text() {
    for status in [Status::Uncaught, Status::TestFail, Status::BuildFail, Status::Timeout, Status::Skipped] {
        let plain = status.display(false);
        assert!(status.display(true).contains(&plain));
    }
    let changes = vec![
        Change { kind: ChangeKind::Equal, value: "a ".to_string() },
        Change { kind: ChangeKind::Delete, value: "b".to_string() },
        Change { kind: ChangeKind::Insert, value: "c".to_string() },
    ];
    assert_eq!(highlight(&changes, false), ("a b".to_string(), "a c".to_string()));
    let (before, after) = highlight(&changes, true);
    assert!(before.starts_with("a ") && before.contains('b') && !before.contains('c'));
    assert!(after.starts_with("a ") && after.contains('c') && !after.contains('b'));
}
