//! The store and the scheduler's rules.

use muton::runner::{
    choose_timeout, joined_output, poll, severity_order, Decision, PollAction, RunResult,
    TestRunner, TimeoutAdvice,
};
use muton::store::MutonStore;
use muton::types::errors::{IoErrorKind, StoreError};
use muton::types::language::Language;
use muton::types::mutants::Mutant;
use muton::types::outcomes::{Outcome, Status};
use muton::cli::{Args, Commands, PrintArgs, PrintCommand, PrintResultsArgs, RunArgs, TestArgs};
use muton::cmds::{
    group_by_test, is_confirmation, is_stale, parse_ids, total_duration, TestChoice,
};
use muton::types::targets::{SourceFile, Target};

fn target(path: &str, text: &str) -> Target {
    Target {
        id: 0,
        path: path.to_string(),
        file_hash: muton::types::hash::Hash::digest(text.to_string()),
        text: text.to_string(),
        language: Language::FunC,
    }
}

fn mutant(target_id: i64, offset: u32, line: u32, old: &str, new: &str, slug: &str) -> Mutant {
    Mutant {
        id: 0,
        target_id,
        byte_offset: offset,
        line_offset: line,
        old_text: old.to_string(),
        new_text: new.to_string(),
        mutation_slug: slug.to_string(),
    }
}

fn outcome(mutant_id: i64, status: Status, output: &str) -> Outcome {
    Outcome { mutant_id, status, output: output.to_string(), time: 1_700_000_000_000, duration_ms: 12 }
}

#[test]
fn content_addressed_target_identity() {
    let mut store = MutonStore::new();
    let first = store.add_target(target("/a/f.fc", "() main() { }")).unwrap();
    let again = store.add_target(target("/a/f.fc", "() main() { }")).unwrap();
    assert_eq!(first, 1);
    assert_eq!(first, again);
    assert_eq!(store.get_all_targets().len(), 1);
    // The file is moved: same text, another path.
    let moved = store.add_target(target("/b/g.fc", "() main() { }")).unwrap();
    assert_eq!(moved, first);
    assert_eq!(store.get_target(first).unwrap().path, "/b/g.fc");
    assert_eq!(store.get_all_targets().len(), 1);
    // Another text is another target.
    let other = store.add_target(target("/a/f.fc", "() main() { return (); }")).unwrap();
    assert_eq!(other, 2);
    assert_eq!(store.get_all_targets().len(), 2);
    assert!(matches!(store.get_target(7), Err(StoreError::NotFound(7))));
}

#[test]
fn mutants_are_added_once() {
    let mut store = MutonStore::new();
    let t = store.add_target(target("/a/f.fc", "() main() { x = 1; }")).unwrap();
    let id = store.add_mutant(mutant(t, 12, 0, "x = 1;", "throw(1);", "ER")).unwrap();
    assert_eq!(id, Some(1));
    assert_eq!(store.add_mutant(mutant(t, 12, 0, "x = 1;", "throw(1);", "ER")).unwrap(), None);
    // Another slug, another text or another offset is another mutant.
    assert_eq!(store.add_mutant(mutant(t, 12, 0, "x = 1;", "throw(1);", "CR")).unwrap(), Some(2));
    assert_eq!(store.add_mutant(mutant(t, 12, 0, "x = 1;", "throw(2);", "ER")).unwrap(), Some(3));
    assert_eq!(store.add_mutant(mutant(t, 13, 0, "x = 1;", "throw(1);", "ER")).unwrap(), Some(4));
    assert_eq!(store.add_mutant(mutant(t + 1, 12, 0, "x = 1;", "throw(1);", "ER")).unwrap(), Some(5));
    assert_eq!(store.get_mutants(t).len(), 4);
    assert_eq!(store.get_mutant(3).unwrap().new_text, "throw(2);");
    assert!(matches!(store.get_mutant(9), Err(StoreError::NotFound(9))));
}

#[test]
fn outcome_upsert() {
    let mut store = MutonStore::new();
    let t = store.add_target(target("/a/f.fc", "() main() { x = 1; }")).unwrap();
    let m = store.add_mutant(mutant(t, 12, 0, "x = 1;", "throw(1);", "ER")).unwrap().unwrap();
    assert!(store.get_outcome(m).is_none());
    assert_eq!(store.add_outcome(outcome(m, Status::Timeout, "slow")), m);
    assert_eq!(store.get_outcome(m).unwrap().status, Status::Timeout);
    store.add_outcome(outcome(m, Status::TestFail, "caught"));
    let stored = store.get_outcome(m).unwrap();
    assert_eq!(stored.status, Status::TestFail);
    assert_eq!(stored.output, "caught");
    assert_eq!(store.get_outcomes(t).len(), 1);
}

#[test]
fn timeout_retry() {
    let mut store = MutonStore::new();
    let t = store.add_target(target("/a/f.fc", "() main() { x = 1; y = 2; z = 3; }")).unwrap();
    let a = store.add_mutant(mutant(t, 12, 0, "x = 1;", "throw(1);", "ER")).unwrap().unwrap();
    let b = store.add_mutant(mutant(t, 19, 0, "y = 2;", "throw(1);", "ER")).unwrap().unwrap();
    let c = store.add_mutant(mutant(t, 26, 0, "z = 3;", "throw(1);", "ER")).unwrap().unwrap();
    store.add_outcome(outcome(a, Status::Timeout, ""));
    store.add_outcome(outcome(b, Status::TestFail, ""));
    let (to_test, untested, retest) = store.get_mutants_to_test();
    let ids: Vec<i64> = to_test.iter().map(|m| m.id).collect();
    // First the mutant without an outcome, then the one that timed out.
    assert_eq!(ids, vec![c, a]);
    assert_eq!((untested, retest), (1, 1));
    assert_eq!(store.get_mutant_test_counts(t), (1, 1));
    let without: Vec<i64> = store.get_mutants_without_outcomes().iter().map(|m| m.id).collect();
    assert_eq!(without, vec![c]);
    // The retest overwrites the timeout.
    store.add_outcome(outcome(a, Status::Uncaught, "passed"));
    assert_eq!(store.get_outcome(a).unwrap().status, Status::Uncaught);
    assert_eq!(store.get_mutants_to_test().2, 0);
    assert_eq!(store.get_mutant_test_counts(t), (1, 0));
}

#[test]
fn removing_a_target_removes_its_mutants_and_outcomes() {
    let mut store = MutonStore::new();
    let t1 = store.add_target(target("/a/f.fc", "one")).unwrap();
    let t2 = store.add_target(target("/a/g.fc", "two")).unwrap();
    let m1 = store.add_mutant(mutant(t1, 0, 0, "o", "x", "ER")).unwrap().unwrap();
    let m2 = store.add_mutant(mutant(t2, 0, 0, "t", "x", "ER")).unwrap().unwrap();
    store.add_outcome(outcome(m1, Status::Uncaught, ""));
    store.add_outcome(outcome(m2, Status::TestFail, ""));
    store.remove_target(t1);
    assert!(store.get_target(t1).is_err());
    assert!(store.get_mutant(m1).is_err());
    assert!(store.get_outcome(m1).is_none());
    assert_eq!(store.get_target(t2).unwrap().path, "/a/g.fc");
    assert_eq!(store.get_mutants(t2).len(), 1);
    assert_eq!(store.get_outcome(m2).unwrap().status, Status::TestFail);
    // Ids are not given out again.
    assert_eq!(store.add_target(target("/a/h.fc", "three")).unwrap(), 3);
}

#[test]
fn baseline_decides_the_timeout() {
    // 2500 ms are 3 whole seconds.
    assert_eq!(choose_timeout(None, 2500).unwrap(), (6, TimeoutAdvice::Recommended));
    assert_eq!(choose_timeout(Some(3), 2500).unwrap(), (3, TimeoutAdvice::BelowRecommended));
    assert_eq!(choose_timeout(Some(5), 2500).unwrap(), (5, TimeoutAdvice::BelowRecommended));
    assert_eq!(choose_timeout(Some(6), 2500).unwrap(), (6, TimeoutAdvice::Accepted));
    assert_eq!(choose_timeout(Some(60), 3000).unwrap(), (60, TimeoutAdvice::Accepted));
    let refused = choose_timeout(Some(2), 2500).unwrap_err();
    assert_eq!(refused.kind, IoErrorKind::InvalidInput);
    assert_eq!(refused.message, "Timeout too short");
    assert_eq!(choose_timeout(None, 0).unwrap(), (0, TimeoutAdvice::Recommended));
    assert_eq!(choose_timeout(None, 1).unwrap(), (2, TimeoutAdvice::Recommended));
}

#[test]
fn baseline_gate() {
    let failed =
        TestRunner::new_with_baseline("make test".to_string(), None, Status::TestFail, 10, false, false);
    assert_eq!(failed.err().unwrap().kind, IoErrorKind::Other);
    let (runner, advice) =
        TestRunner::new_with_baseline("make test".to_string(), None, Status::Uncaught, 1001, true, false)
            .unwrap();
    assert_eq!(runner.timeout, Some(4));
    assert_eq!(advice, TimeoutAdvice::Recommended);
    assert_eq!(runner.test_cmd, "make test");
    assert!(runner.comprehensive);
    assert!(!runner.has_active_mutation);
    // A baseline with a timeout set is refused.
    assert!(runner.run_baseline_test(Status::Uncaught, 5).is_err());
}

#[test]
fn polling_looks_at_the_timeout_first() {
    assert_eq!(poll(Some(2), 2000, true, Some(true)), PollAction::KillForTimeout);
    assert_eq!(poll(Some(2), 1999, false, Some(true)), PollAction::KillForInterrupt);
    assert_eq!(poll(Some(2), 1999, true, Some(true)), PollAction::Done(Status::Uncaught));
    assert_eq!(poll(Some(2), 1999, true, Some(false)), PollAction::Done(Status::TestFail));
    assert_eq!(poll(Some(2), 1999, true, None), PollAction::Wait);
    assert_eq!(poll(None, u64::MAX, true, None), PollAction::Wait);
}

#[test]
fn mutants_are_tested_by_severity() {
    let mutants = vec![
        mutant(1, 0, 0, "a", "b", "BL"),
        mutant(1, 0, 0, "a", "b", "CR"),
        mutant(1, 0, 0, "a", "b", "ER"),
        mutant(1, 0, 0, "a", "b", "nonsense"),
        mutant(1, 0, 0, "a", "b", "IF"),
        mutant(1, 0, 0, "c", "d", "ER"),
    ];
    assert_eq!(severity_order(&mutants, &Language::FunC), vec![2, 5, 1, 4, 0, 3]);
}

#[test]
fn severity_pruning() {
    // One High-severity ER mutant on line 10 and one Low-severity BL mutant on line 10.
    let er = Mutant { id: 1, ..mutant(1, 100, 10, "x = 1;", "throw(1);", "ER") };
    let bl = Mutant { id: 2, ..mutant(1, 104, 10, "true", "false", "BL") };
    let elsewhere = Mutant { id: 3, ..mutant(1, 200, 12, "true", "false", "BL") };
    let language = Language::FunC;
    let (mut runner, _) =
        TestRunner::new_with_baseline("t".to_string(), Some(5), Status::Uncaught, 100, false, false)
            .unwrap();
    let order = runner.run_mutations_for_target(1, &language, &vec![er.duplicate(), bl.duplicate()]);
    assert_eq!(order, vec![0, 1]);
    assert!(matches!(runner.decide(&er, &language, None, &None, 5).unwrap(), Decision::Test));
    runner.begin_test();
    assert!(runner.has_active_mutation);
    let result = RunResult::Finished { status: Status::Uncaught, output: "ok".to_string() };
    let made = runner.test_mutant(&er, &language, result, 77, 1234).unwrap().unwrap();
    assert_eq!((made.mutant_id, made.status, made.time, made.duration_ms), (1, Status::Uncaught, 77, 1234));
    assert_eq!(made.output, "ok");
    assert!(!runner.has_active_mutation);
    match runner.decide(&bl, &language, None, &None, 99).unwrap() {
        Decision::Skipped(outcome) => {
            assert_eq!(outcome.mutant_id, 2);
            assert_eq!(outcome.status, Status::Skipped);
            assert!(outcome
                .output
                .contains("Skipped due to uncaught higher severity mutation on the same line"));
            assert_eq!(outcome.duration_ms, 0);
            assert_eq!(outcome.time, 99);
        },
        _ => panic!("the mutant is skipped"),
    }
    // A mutant on another line is tested, and so is every mutant of high severity.
    assert!(matches!(runner.decide(&elsewhere, &language, None, &None, 5).unwrap(), Decision::Test));
    assert!(matches!(runner.decide(&er, &language, Some(Status::Timeout), &None, 5).unwrap(), Decision::Test));
    // A mutant with an outcome is left alone, unless the outcome is a timeout.
    assert!(matches!(
        runner.decide(&bl, &language, Some(Status::TestFail), &None, 5).unwrap(),
        Decision::AlreadyTested
    ));
    assert!(matches!(
        runner.decide(&bl, &language, Some(Status::Timeout), &None, 5).unwrap(),
        Decision::Skipped(_)
    ));
    // The next target starts without recorded lines.
    runner.run_mutations_for_target(2, &language, &vec![]);
    assert!(matches!(runner.decide(&bl, &language, None, &None, 5).unwrap(), Decision::Test));
}

#[test]
fn medium_severity_blocks_low_only() {
    let language = Language::FunC;
    let mut runner = TestRunner::new("t".to_string(), Some(5), false, false);
    runner.begin_target(1);
    // An uncaught CR over lines 4 to 6.
    let cr = Mutant { id: 1, ..mutant(1, 40, 4, "a;\nb;\nc;", "x", "CR") };
    runner.begin_test();
    let result = RunResult::Finished { status: Status::Uncaught, output: String::new() };
    runner.test_mutant(&cr, &language, result, 0, 0).unwrap();
    let if_on_5 = Mutant { id: 2, ..mutant(1, 44, 5, "b", "false", "IF") };
    let bl_on_6 = Mutant { id: 3, ..mutant(1, 47, 6, "true", "false", "BL") };
    let bl_on_7 = Mutant { id: 4, ..mutant(1, 60, 7, "true", "false", "BL") };
    let bl_over_3_4 = Mutant { id: 5, ..mutant(1, 30, 3, "tr\nue", "false", "BL") };
    assert!(matches!(runner.decide(&if_on_5, &language, None, &None, 0).unwrap(), Decision::Test));
    assert!(matches!(runner.decide(&bl_on_6, &language, None, &None, 0).unwrap(), Decision::Skipped(_)));
    assert!(matches!(runner.decide(&bl_on_7, &language, None, &None, 0).unwrap(), Decision::Test));
    assert!(matches!(
        runner.decide(&bl_over_3_4, &language, None, &None, 0).unwrap(),
        Decision::Skipped(_)
    ));
    // A mutant that was caught records nothing.
    let mut other = TestRunner::new("t".to_string(), Some(5), false, false);
    other.begin_target(1);
    let result = RunResult::Finished { status: Status::TestFail, output: String::new() };
    other.test_mutant(&cr, &language, result, 0, 0).unwrap();
    assert!(matches!(other.decide(&bl_on_6, &language, None, &None, 0).unwrap(), Decision::Test));
    // In comprehensive mode nothing is skipped.
    let mut all = TestRunner::new("t".to_string(), Some(5), true, false);
    all.begin_target(1);
    let result = RunResult::Finished { status: Status::Uncaught, output: String::new() };
    all.test_mutant(&cr, &language, result, 0, 0).unwrap();
    assert!(matches!(all.decide(&bl_on_6, &language, None, &None, 0).unwrap(), Decision::Test));
}

#[test]
fn slug_filter_and_unknown_slugs() {
    let language = Language::FunC;
    let mut runner = TestRunner::new("t".to_string(), Some(5), false, false);
    runner.begin_target(1);
    let er = Mutant { id: 1, ..mutant(1, 0, 0, "a", "b", "ER") };
    let allowed = Some(vec!["CR".to_string(), "IF".to_string()]);
    assert!(matches!(runner.decide(&er, &language, None, &allowed, 0).unwrap(), Decision::Filtered));
    let allowed = Some(vec!["CR".to_string(), "ER".to_string()]);
    assert!(matches!(runner.decide(&er, &language, None, &allowed, 0).unwrap(), Decision::Test));
    // An empty list filters nothing.
    assert!(matches!(runner.decide(&er, &language, None, &Some(vec![]), 0).unwrap(), Decision::Test));
    let unknown = Mutant { id: 2, ..mutant(1, 0, 0, "a", "b", "ZZ") };
    assert_eq!(
        runner.decide(&unknown, &language, None, &None, 0).unwrap_err().kind,
        IoErrorKind::NotFound
    );
    let plan = runner.run_mutation_campaign(&vec![(2, 1), (0, 4)], Some("ER, CR,,IF ".to_string()));
    assert_eq!(plan.allowed_slugs, Some(vec!["ER".to_string(), "CR".to_string(), String::new(), "IF".to_string()]));
    assert_eq!((plan.untested, plan.retest, plan.total), (2, 5, 7));
    assert_eq!(plan.estimated_secs, 35);
    assert!(plan.show_progress);
    let plan = runner.run_mutation_campaign(&vec![(1, 0)], None);
    assert_eq!(plan.allowed_slugs, None);
    assert!(!plan.show_progress);
}

#[test]
fn cancellation_makes_no_outcome_and_asks_for_restoring() {
    let language = Language::FunC;
    let mut runner = TestRunner::new("t".to_string(), Some(5), false, false);
    runner.begin_target(1);
    let er = Mutant { id: 1, ..mutant(1, 0, 0, "a", "b", "ER") };
    runner.begin_test();
    assert!(runner.has_active_mutation);
    let made = runner.test_mutant(&er, &language, RunResult::Interrupted, 1, 2).unwrap();
    assert!(made.is_none());
    assert!(!runner.has_active_mutation);
    assert!(!runner.cleanup());
    // A run that ends in an error has the file restored like any other.
    let unknown = Mutant { id: 2, ..mutant(1, 0, 0, "a", "b", "ZZ") };
    runner.begin_test();
    let result = RunResult::Finished { status: Status::Uncaught, output: String::new() };
    let error = runner.test_mutant(&unknown, &language, result, 1, 2).unwrap_err();
    assert_eq!(error.kind, IoErrorKind::NotFound);
    assert_eq!(error.message, "Mutation slug not found: ZZ");
    assert!(!runner.has_active_mutation);
    assert!(!runner.cleanup());
    // A mutation that is still active is cleaned up.
    runner.begin_test();
    assert!(runner.cleanup());
    assert!(!runner.has_active_mutation);
    assert!(!runner.cleanup());
    // A timeout is an outcome like another.
    runner.begin_test();
    let result = RunResult::Finished { status: Status::Timeout, output: "late".to_string() };
    let made = runner.test_mutant(&er, &language, result, 1, 5000).unwrap().unwrap();
    assert_eq!(made.status, Status::Timeout);
}

#[test]
fn mutating_a_target() {
    let t = Target { id: 4, ..target("/a/f.fc", "() main() { x = 1; }") };
    let m = mutant(4, 12, 0, "x = 1;", "throw(1);", "ER");
    assert_eq!(t.mutate(&m).unwrap(), "() main() { throw(1); }");
    // A mutant that belongs to no target yet applies to any.
    let m = mutant(0, 12, 0, "x = 1;", "", "ER");
    assert_eq!(t.mutate(&m).unwrap(), "() main() {  }");
    let foreign = mutant(5, 12, 0, "x = 1;", "throw(1);", "ER");
    assert_eq!(t.mutate(&foreign).unwrap_err().kind, IoErrorKind::InvalidInput);
    // An edit that cuts a character in two gives no text.
    let t = Target { id: 4, ..target("/a/f.fc", "a\u{e9}b") };
    let cut = mutant(4, 2, 0, "", "x", "ER");
    assert_eq!(t.mutate(&cut).unwrap_err().kind, IoErrorKind::InvalidData);
    // An edit that changes nothing gives the text back.
    let same = mutant(4, 0, 0, "a", "a", "ER");
    assert_eq!(t.mutate(&same).unwrap(), t.text);
}

#[test]
fn stores_are_restored_from_their_rows() {
    let mut store = MutonStore::new();
    let t = store.add_target(target("/a/f.fc", "() main() { x = 1; }")).unwrap();
    let m = store.add_mutant(mutant(t, 12, 0, "x = 1;", "throw(1);", "ER")).unwrap().unwrap();
    store.add_outcome(outcome(m, Status::Uncaught, "out"));
    let mut again =
        MutonStore::from_rows(store.get_all_targets(), store.get_all_mutants(), store.get_all_outcomes())
            .unwrap();
    assert_eq!(again.get_target(t).unwrap().path, "/a/f.fc");
    assert_eq!(again.get_outcome(m).unwrap().output, "out");
    // New rows get ids above those in use.
    assert_eq!(again.add_target(target("/a/g.fc", "other")).unwrap(), t + 1);
    assert_eq!(again.add_mutant(mutant(t, 0, 0, "a", "b", "CR")).unwrap(), Some(m + 1));
    // Rows that no store can hold are refused.
    let twice = vec![store.get_target(t).unwrap(), store.get_target(t).unwrap()];
    assert!(MutonStore::from_rows(twice, vec![], vec![]).is_err());
    let bad_id = Target { id: 0, ..store.get_target(t).unwrap() };
    assert!(MutonStore::from_rows(vec![bad_id], vec![], vec![]).is_err());
}

#[test]
fn files_are_registered_as_targets() {
    let mut store = MutonStore::new();
    let files = vec![
        SourceFile { path: "/p/a.fc".to_string(), text: "one".to_string() },
        SourceFile { path: "/p/readme.md".to_string(), text: "text".to_string() },
        SourceFile { path: "/p/b.tact".to_string(), text: "two".to_string() },
        SourceFile { path: "/p/copy.fc".to_string(), text: "one".to_string() },
    ];
    let targets = Target::load_targets(files, &mut store).unwrap();
    let seen: Vec<(i64, &str, Language)> =
        targets.iter().map(|t| (t.id, t.path.as_str(), t.language)).collect();
    assert_eq!(
        seen,
        vec![(1, "/p/a.fc", Language::FunC), (2, "/p/b.tact", Language::Tact), (1, "/p/copy.fc", Language::FunC)]
    );
    assert_eq!(store.get_all_targets().len(), 2);
    assert_eq!(store.get_target(1).unwrap().path, "/p/copy.fc");
    assert_eq!(Target::filter_by_path(&store, None).len(), 2);
    assert_eq!(Target::filter_by_path(&store, Some("/p/b.tact")).len(), 1);
    assert_eq!(Target::filter_by_path(&store, Some("/p/none.fc")).len(), 0);
}

#[test]
fn commands_decide_on_plain_values() {
    assert_eq!(parse_ids("1, 2,x,, -3 ,+4,9223372036854775808"), vec![1, 2, -3, 4]);
    assert_eq!(parse_ids("-9223372036854775808,9223372036854775807"), vec![i64::MIN, i64::MAX]);
    assert_eq!(parse_ids(""), Vec::<i64>::new());
    let choice = |cmd: &str, timeout: Option<u32>| TestChoice { cmd: cmd.to_string(), timeout };
    let choices = vec![
        choice("a", None),
        choice("b", None),
        choice("a", None),
        choice("a", Some(1)),
        choice("b", None),
    ];
    assert_eq!(group_by_test(&choices), vec![vec![0, 2], vec![1, 4], vec![3]]);
    assert_eq!(group_by_test(&vec![]), Vec::<Vec<usize>>::new());
    let t = target("/a/f.fc", "text");
    assert!(!is_stale(&t, Some("text".to_string())));
    assert!(is_stale(&t, Some("text ".to_string())));
    assert!(is_stale(&t, None));
    for yes in ["y", "Y", " yes\n", "YES"] {
        assert!(is_confirmation(yes));
    }
    for no in ["", "n", "yess", "ye s", "no"] {
        assert!(!is_confirmation(no));
    }
    let outcomes = vec![outcome(1, Status::Uncaught, ""), outcome(2, Status::TestFail, "")];
    assert_eq!(total_duration(&outcomes), 24);
}

#[test]
fn the_command_line_overrides_the_configuration() {
    let run = Args {
        cwd: None,
        db: Some("d".to_string()),
        log_level: None,
        log_color: Some("off".to_string()),
        ignore: Some("x/**".to_string()),
        command: Commands::Run(RunArgs {
            target: None,
            test_cmd: Some("t".to_string()),
            timeout: Some(3),
            mutations: Some("ER".to_string()),
            comprehensive: false,
            verbose: false,
        }),
    };
    let o = run.overrides();
    assert_eq!(o.db.as_deref(), Some("d"));
    assert_eq!(o.ignore_targets.as_deref(), Some("x/**"));
    assert_eq!(o.mutations_slugs.as_deref(), Some("ER"));
    assert_eq!(o.test_cmd.as_deref(), Some("t"));
    assert_eq!(o.test_timeout, Some(3));
    let test = Args {
        command: Commands::Test(TestArgs {
            ids: "1".to_string(),
            test_cmd: Some("u".to_string()),
            timeout: None,
            verbose: true,
        }),
        ..run
    };
    let o = test.overrides();
    assert_eq!(o.mutations_slugs, None);
    assert_eq!(o.test_cmd.as_deref(), Some("u"));
    assert_eq!(o.test_timeout, None);
    let clean = Args { command: Commands::Clean, ..test };
    assert_eq!(clean.overrides().test_cmd, None);
    let results = PrintArgs::Results(PrintResultsArgs {
        target: None,
        verbose: true,
        id: Some(4),
        all: false,
    });
    match results.command() {
        PrintCommand::Results(None, true, Some(4), false) => {},
        other => panic!("{other:?}"),
    }
    assert!(PrintCommand::Targets.needs_store());
    assert!(!PrintCommand::Mutations(None).needs_store());
}

#[test]
fn cleanup_restores_whenever_a_mutation_is_active() {
    // No target is current, and the file has to be restored all the same.
    let mut runner = TestRunner::new("t".to_string(), None, true, false);
    assert!(!runner.cleanup());
    runner.begin_test();
    assert!(runner.has_active_mutation);
    assert!(runner.cleanup());
    assert!(!runner.has_active_mutation);
    runner.begin_target(3);
    runner.begin_test();
    assert!(runner.cleanup());
    assert!(!runner.has_active_mutation);
}

#[test]
fn an_unknown_slug_is_named_in_the_error() {
    let runner = TestRunner::new("t".to_string(), Some(5), false, false);
    let unknown = Mutant { id: 2, ..mutant(1, 0, 0, "a", "b", "NOPE") };
    let error = runner.decide(&unknown, &Language::Tact, None, &None, 0).unwrap_err();
    assert_eq!(error.kind, IoErrorKind::NotFound);
    assert_eq!(error.message, "Mutation slug not found: NOPE");
}

#[test]
fn a_mutant_of_another_target_is_refused_wherever_its_edit_lies() {
    let mut t = target("/p/a.fc", "ab");
    t.id = 7;
    let far = mutant(9, 4000, 0, "zzzz", "y", "ER");
    let error = t.mutate(&far).unwrap_err();
    assert_eq!(error.kind, IoErrorKind::InvalidInput);
    assert_eq!(error.message, "Mutant applies to target 9, not 7");
    let negative = mutant(-3, 0, 0, "a", "b", "ER");
    assert_eq!(t.mutate(&negative).unwrap_err().message, "Mutant applies to target -3, not 7");
    // A mutant without a target is taken by every target.
    assert_eq!(t.mutate(&mutant(0, 0, 0, "a", "x", "ER")).unwrap(), "xb");
    assert_eq!(t.mutate(&mutant(7, 1, 0, "b", "", "ER")).unwrap(), "a");
}

#[test]
fn the_output_of_a_run_is_stored_under_two_headings() {
    let out = vec!["one".to_string(), "two".to_string()];
    let err = vec!["bad".to_string()];
    assert_eq!(joined_output(&out, &err), "STDOUT:\none\ntwo\n\n\nSTDERR:\nbad\n");
    assert_eq!(joined_output(&vec![], &vec![]), "STDOUT:\n\n\nSTDERR:\n");
    assert_eq!(joined_output(&vec![String::new()], &vec![]), "STDOUT:\n\n\n\nSTDERR:\n");
}

#[test]
fn files_are_loaded_with_the_dialects_that_were_found() {
    let files = || {
        vec![
            SourceFile { path: "/p/a.fc".to_string(), text: "one".to_string() },
            SourceFile { path: "/p/b.txt".to_string(), text: "two".to_string() },
            SourceFile { path: "/p/c".to_string(), text: "three".to_string() },
        ]
    };
    let mut store = MutonStore::new();
    let languages = vec![Some(Language::Tact), None, Some(Language::Tolk)];
    let targets = Target::load_resolved(files(), &languages, &mut store).unwrap();
    assert_eq!(targets.len(), 2);
    assert_eq!((targets[0].id, targets[0].language), (1, Language::Tact));
    assert_eq!((targets[1].id, targets[1].language), (2, Language::Tolk));
    assert_eq!(targets[1].path, "/p/c");
    // A list of dialects that is too short leaves the other files out.
    let mut store = MutonStore::new();
    let targets = Target::load_resolved(files(), &vec![None], &mut store).unwrap();
    assert!(targets.is_empty());
    // By their paths, only the first file has a dialect.
    let mut store = MutonStore::new();
    let targets = Target::load_targets(files(), &mut store).unwrap();
    assert_eq!(targets.len(), 1);
    assert_eq!(targets[0].language, Language::FunC);
}
