//! Hashes, dialects, severities, and the configuration.

use muton::types::config::{
    apply_cli_overrides, apply_env_overrides, apply_file_config, blank, colors_enabled, config,
    default_global_config, init_with_overrides, is_path_excluded, is_slug_enabled, parse_csv,
    resolve_test_for_path_with_cli, resolve_test_with_matches, CliOverrides, EnvOverrides,
    FileConfig, GeneralFileConfig, LogFileConfig, MutationsFileConfig, PerTargetTestFileConfig,
    PerTargetTestRule, TestFileConfig, GLOB_LIMIT,
};
use muton::types::hash::HashError;
use muton::types::language::Language;
use muton::types::mutations::MutationSeverity;
use muton::types::outcomes::Status;
use sha2::{Digest, Sha256};

#[test]
fn hashes_are_sha256_in_hex() {
    let hash = muton::types::hash::Hash::digest("abc".to_string());
    assert_eq!(
        hash.to_hex(),
        "ba7816bf8f01cfea414140de5dae2223b00361a396177a9cb410ff61f20015ad"
    );
    let empty = muton::types::hash::Hash::digest(String::new());
    assert_eq!(
        empty.to_hex(),
        "e3b0c44298fc1c149afbf4c8996fb92427ae41e4649b934ca495991b7852b855"
    );
    let direct: [u8; 32] = Sha256::digest("abc".as_bytes()).into();
    assert_eq!(hash.0, direct);
    assert!(hash.same_as(&muton::types::hash::Hash::digest("abc".to_string())));
    assert!(!hash.same_as(&empty));
}

#[test]
fn hashes_are_read_from_hex() {
    let hex = "BA7816BF8F01CFEA414140DE5DAE2223b00361a396177a9cb410ff61f20015ad".to_string();
    let hash = muton::types::hash::Hash::try_from(hex).unwrap();
    assert_eq!(hash.0, muton::types::hash::Hash::digest("abc".to_string()).0);
    assert_eq!(hash.to_hex().len(), 64);
    match muton::types::hash::Hash::try_from("abcd".to_string()) {
        Err(HashError::InvalidLength(2)) => {},
        other => panic!("{other:?}"),
    }
    match muton::types::hash::Hash::try_from("abc".to_string()) {
        Err(HashError::InvalidHex(s)) => assert_eq!(s, "abc"),
        other => panic!("{other:?}"),
    }
    match muton::types::hash::Hash::try_from("zz".repeat(32)) {
        Err(HashError::InvalidHex(s)) => assert_eq!(s.len(), 64),
        other => panic!("{other:?}"),
    }
    match muton::types::hash::Hash::try_from(String::new()) {
        Err(HashError::InvalidLength(0)) => {},
        other => panic!("{other:?}"),
    }
}

#[test]
fn dialects_are_found_by_extension() {
    assert_eq!(Language::from_path("/a/b/contract.fc"), Ok(Language::FunC));
    assert_eq!(Language::from_path("contract.FC"), Ok(Language::FunC));
    assert_eq!(Language::from_path("x.func"), Ok(Language::FunC));
    assert_eq!(Language::from_path("/a.b/wallet.tact"), Ok(Language::Tact));
    assert_eq!(Language::from_path("jetton.tolk"), Ok(Language::Tolk));
    assert_eq!(Language::from_path("a.tar.fc"), Ok(Language::FunC));
    assert_eq!(Language::from_path("/a/b/Makefile"), Err("missing file extension".to_string()));
    assert_eq!(Language::from_path("/a.fc/Makefile"), Err("missing file extension".to_string()));
    assert_eq!(Language::from_path("/a/.fc"), Err("missing file extension".to_string()));
    assert_eq!(Language::from_path(".."), Err("missing file extension".to_string()));
    assert_eq!(Language::from_path(""), Err("missing file extension".to_string()));
    assert_eq!(Language::from_path("a.rs"), Err("Unsupported language: rs".to_string()));
    assert_eq!(Language::from_str("Tact"), Ok(Language::Tact));
    assert_eq!(Language::from_str("sol"), Err("Unsupported language: sol".to_string()));
    assert_eq!(Language::all(), vec![Language::FunC, Language::Tact, Language::Tolk]);
    assert_eq!(Language::FunC.to_string(), "func");
    assert_eq!(Language::Tact.to_string(), "tact");
}

#[test]
fn severities_and_statuses_have_numbers_and_names() {
    assert_eq!(MutationSeverity::High.to_numeric(), 0);
    assert_eq!(MutationSeverity::Medium.to_numeric(), 1);
    assert_eq!(MutationSeverity::Low.to_numeric(), 2);
    assert_eq!(MutationSeverity::from_numeric(0), MutationSeverity::High);
    assert_eq!(MutationSeverity::from_numeric(1), MutationSeverity::Medium);
    assert_eq!(MutationSeverity::from_numeric(2), MutationSeverity::Low);
    assert_eq!(MutationSeverity::from_numeric(99), MutationSeverity::Low);
    assert_eq!(MutationSeverity::High.to_string(), "High");
    assert_eq!(MutationSeverity::from_str("Medium"), Some(MutationSeverity::Medium));
    assert_eq!(MutationSeverity::from_str("medium"), None);
    for status in
        [Status::Uncaught, Status::TestFail, Status::Skipped, Status::BuildFail, Status::Timeout]
    {
        assert_eq!(Status::from_str(&status.to_string()), Some(status));
    }
    assert_eq!(Status::TestFail.to_string(), "TestFail");
    assert_eq!(Status::from_str("Caught"), None);
    assert_eq!(Status::of_exit(true), Status::Uncaught);
    assert_eq!(Status::of_exit(false), Status::TestFail);
}

#[test]
fn lists_are_separated_by_commas() {
    assert_eq!(parse_csv("ER, CR ,,IF"), vec!["ER", "CR", "IF"]);
    assert_eq!(parse_csv(""), Vec::<String>::new());
    assert_eq!(parse_csv(" , "), Vec::<String>::new());
    assert_eq!(parse_csv("a b"), vec!["a b"]);
    assert_eq!(parse_csv("\u{a0}x\u{2003},y"), vec!["x", "y"]);
}

#[test]
fn defaults_file_environment_and_command_line() {
    let cfg = default_global_config();
    assert_eq!(cfg.general.db, "muton.sqlite");
    assert!(cfg.general.ignore_targets.is_empty());
    assert_eq!(cfg.mutations.slugs, None);
    assert_eq!(cfg.test.cmd, "npx blueprint test");
    assert_eq!(cfg.test.timeout, None);
    assert!(cfg.test.per_target.is_empty());
    assert_eq!(cfg.log.level, "info");
    assert_eq!(cfg.log.color, None);

    let file = FileConfig {
        log: Some(LogFileConfig { level: Some("debug".to_string()), color: Some(false) }),
        general: Some(GeneralFileConfig {
            db: Some("file.sqlite".to_string()),
            ignore_targets: Some(vec!["node_modules/**".to_string()]),
        }),
        mutations: Some(MutationsFileConfig { slugs: Some(vec![]) }),
        test: Some(TestFileConfig {
            cmd: Some("make test".to_string()),
            timeout: Some(30),
            per_target: Some(vec![
                PerTargetTestFileConfig {
                    glob: "a/**".to_string(),
                    cmd: Some("make a".to_string()),
                    timeout: None,
                },
                PerTargetTestFileConfig { glob: "b/**".to_string(), cmd: None, timeout: Some(1) },
                PerTargetTestFileConfig {
                    glob: "c/**".to_string(),
                    cmd: Some("  ".to_string()),
                    timeout: Some(2),
                },
            ]),
        }),
    };
    let mut cfg = default_global_config();
    apply_file_config(&mut cfg, &file);
    assert_eq!(cfg.log.level, "debug");
    assert_eq!(cfg.log.color, Some(false));
    assert_eq!(cfg.general.db, "file.sqlite");
    assert_eq!(cfg.general.ignore_targets, vec!["node_modules/**"]);
    // An empty list of slugs says nothing.
    assert_eq!(cfg.mutations.slugs, None);
    assert_eq!(cfg.test.cmd, "make test");
    assert_eq!(cfg.test.timeout, Some(30));
    // Only rules with a command count.
    assert_eq!(cfg.test.per_target.len(), 1);
    assert_eq!(cfg.test.per_target[0].cmd, "make a");

    let env = EnvOverrides {
        log_level: Some(" warn ".to_string()),
        log_color: Some("ON".to_string()),
        db: Some("  ".to_string()),
        ignore_targets: Some("build/**, dist/**".to_string()),
        slugs: Some("ER,CR".to_string()),
        test_cmd: Some("npm test".to_string()),
        test_timeout: Some(" 45 ".to_string()),
    };
    apply_env_overrides(&mut cfg, &env);
    assert_eq!(cfg.log.level, "warn");
    assert_eq!(cfg.log.color, Some(true));
    assert_eq!(cfg.general.db, "file.sqlite");
    assert_eq!(cfg.general.ignore_targets, vec!["node_modules/**", "build/**", "dist/**"]);
    assert_eq!(cfg.mutations.slugs, Some(vec!["ER".to_string(), "CR".to_string()]));
    assert_eq!(cfg.test.cmd, "npm test");
    assert_eq!(cfg.test.timeout, Some(45));

    let cli = CliOverrides {
        db: Some("cli.sqlite".to_string()),
        log_level: Some("".to_string()),
        log_color: Some("maybe".to_string()),
        ignore_targets: None,
        mutations_slugs: Some(" , ".to_string()),
        test_cmd: None,
        test_timeout: Some(7),
    };
    apply_cli_overrides(&mut cfg, &cli);
    assert_eq!(cfg.general.db, "cli.sqlite");
    assert_eq!(cfg.log.level, "warn");
    assert_eq!(cfg.log.color, Some(true));
    assert_eq!(cfg.mutations.slugs, Some(vec!["ER".to_string(), "CR".to_string()]));
    assert_eq!(cfg.test.cmd, "npm test");
    assert_eq!(cfg.test.timeout, Some(7));

    // The whole precedence in one go.
    let all = init_with_overrides(Some(&file), &env, &cli);
    assert_eq!(all.general.db, "cli.sqlite");
    assert_eq!(all.test.timeout, Some(7));
    assert_eq!(all.log.level, "warn");
    let no_cli = config(Some(&file), &env);
    assert_eq!(no_cli.general.db, "file.sqlite");
    assert_eq!(no_cli.test.timeout, Some(45));
    let bare = config(None, &EnvOverrides::default());
    assert_eq!(bare.test.cmd, "npx blueprint test");
    // A timeout that is no number says nothing.
    let mut cfg = default_global_config();
    for bad in ["", "-1", "4294967296", "1.5", "ten", "+"] {
        apply_env_overrides(
            &mut cfg,
            &EnvOverrides { test_timeout: Some(bad.to_string()), ..EnvOverrides::default() },
        );
        assert_eq!(cfg.test.timeout, None, "{bad:?}");
    }
    apply_env_overrides(
        &mut cfg,
        &EnvOverrides { test_timeout: Some("+4294967295".to_string()), ..EnvOverrides::default() },
    );
    assert_eq!(cfg.test.timeout, Some(u32::MAX));
}

#[test]
fn slugs_and_colors() {
    let mut cfg = default_global_config();
    assert!(is_slug_enabled(&cfg, "ER"));
    cfg.mutations.slugs = Some(vec!["ER".to_string(), "CR".to_string()]);
    assert!(is_slug_enabled(&cfg, "CR"));
    assert!(!is_slug_enabled(&cfg, "IF"));
    assert!(colors_enabled(&cfg, true));
    assert!(!colors_enabled(&cfg, false));
    cfg.log.color = Some(false);
    assert!(!colors_enabled(&cfg, true));
    cfg.log.color = Some(true);
    assert!(colors_enabled(&cfg, false));
}

#[test]
fn globs_exclude_paths_and_choose_test_commands() {
    let mut cfg = default_global_config();
    assert!(!is_path_excluded(&cfg, "/p/node_modules/x.fc"));
    cfg.general.ignore_targets =
        vec!["[".to_string(), "**/node_modules/**".to_string(), "*.bak".to_string()];
    assert!(is_path_excluded(&cfg, "/p/node_modules/x.fc"));
    assert!(is_path_excluded(&cfg, "x.bak"));
    assert!(!is_path_excluded(&cfg, "/p/src/x.fc"));

    cfg.test.cmd = "make test".to_string();
    cfg.test.timeout = Some(30);
    cfg.test.per_target = vec![
        PerTargetTestRule { glob: "**/a/**".to_string(), cmd: "make a".to_string(), timeout: None },
        PerTargetTestRule {
            glob: "**/*.fc".to_string(),
            cmd: "make fc".to_string(),
            timeout: Some(5),
        },
    ];
    // The first rule that matches wins.
    assert_eq!(
        resolve_test_for_path_with_cli(&cfg, "/p/a/x.fc", &None, None),
        ("make a".to_string(), Some(30))
    );
    assert_eq!(
        resolve_test_for_path_with_cli(&cfg, "/p/b/x.fc", &None, None),
        ("make fc".to_string(), Some(5))
    );
    assert_eq!(
        resolve_test_for_path_with_cli(&cfg, "/p/b/x.tact", &None, None),
        ("make test".to_string(), Some(30))
    );
    // The command line comes first.
    assert_eq!(
        resolve_test_for_path_with_cli(&cfg, "/p/a/x.fc", &Some("cli".to_string()), None),
        ("cli".to_string(), Some(30))
    );
    assert_eq!(
        resolve_test_for_path_with_cli(&cfg, "/p/b/x.fc", &Some(" ".to_string()), Some(9)),
        ("make fc".to_string(), Some(9))
    );
    assert_eq!(
        resolve_test_with_matches(&cfg, &vec![false, false], &None, Some(2)),
        ("make test".to_string(), Some(2))
    );
    assert_eq!(
        resolve_test_with_matches(&cfg, &vec![true, true], &None, None),
        ("make a".to_string(), Some(30))
    );
}

#[test]
fn the_extension_is_that_of_the_file_name() {
    // Separators at the end and a `.` component do not hide the file name.
    assert_eq!(Language::from_path("a.fc/"), Ok(Language::FunC));
    assert_eq!(Language::from_path("a.fc/."), Ok(Language::FunC));
    assert_eq!(Language::from_path("dir/b.tact//"), Ok(Language::Tact));
    assert_eq!(Language::from_path("a.fc/.."), Err("missing file extension".to_string()));
    assert_eq!(Language::from_path("no dots at all"), Err("missing file extension".to_string()));
    assert_eq!(Language::from_extension(Some("FC")), Ok(Language::FunC));
    assert_eq!(Language::from_extension(Some("Tolk")), Ok(Language::Tolk));
    assert_eq!(Language::from_extension(None), Err("missing file extension".to_string()));
    assert_eq!(
        Language::from_extension(Some("md")),
        Err("Unsupported language: md".to_string())
    );
    assert_eq!(Language::from_extension(Some("")), Err("Unsupported language: ".to_string()));
}

#[test]
fn a_glob_over_the_limit_matches_nothing() {
    let mut cfg = default_global_config();
    let long = "a".repeat(GLOB_LIMIT + 1);
    cfg.general.ignore_targets = vec![long.clone()];
    assert!(!is_path_excluded(&cfg, &long));
    let longest = "a".repeat(GLOB_LIMIT);
    cfg.general.ignore_targets = vec![longest.clone()];
    assert!(is_path_excluded(&cfg, &longest));
    // A glob that is far too long for the matcher is an answer, not a crash.
    let huge = "ab*".repeat(200_000);
    cfg.general.ignore_targets = vec![huge.clone(), "*.bak".to_string()];
    assert!(is_path_excluded(&cfg, "x.bak"));
    assert!(!is_path_excluded(&cfg, "x.fc"));
    cfg.test.cmd = "make".to_string();
    cfg.test.per_target =
        vec![PerTargetTestRule { glob: huge, cmd: "never".to_string(), timeout: None }];
    assert_eq!(resolve_test_for_path_with_cli(&cfg, "ab", &None, None).0, "make");
}

#[test]
fn white_space_is_what_unicode_says() {
    for space in ["\t", "\n", "\u{b}", "\u{c}", "\r", " ", "\u{85}", "\u{a0}", "\u{1680}",
        "\u{2000}", "\u{200a}", "\u{2028}", "\u{2029}", "\u{202f}", "\u{205f}", "\u{3000}"]
    {
        assert!(blank(space), "{:?}", space);
        assert_eq!(parse_csv(&format!("{space}x{space}")), vec!["x"]);
    }
    for other in ["\u{200b}", "\u{180e}", "\u{feff}", "\u{1c}", "_"] {
        assert!(!blank(other), "{:?}", other);
    }
}
