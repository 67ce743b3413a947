//! Configuration: the defaults, and what a configuration file, the
//! environment and the command line put in their place, in this order.

use crate::mutations::common::slugs::string_views;
use crate::text::{
    bytes_eq,
    lower_bytes,
    parse_u32,
    parsed_u32,
    str_eq,
    string_from_utf8,
    to_lower,
    trim,
    trimmed,
};
use vstd::prelude::*;
use vstd::utf8::*;

verus! {

/// The `[log]` section of a configuration file.
#[derive(Debug, Default)]
pub struct LogFileConfig {
    pub level: Option<String>,
    pub color: Option<bool>,
}

/// The `[general]` section of a configuration file.
#[derive(Debug, Default)]
pub struct GeneralFileConfig {
    pub db: Option<String>,
    /// Glob patterns of paths that are no targets.
    pub ignore_targets: Option<Vec<String>>,
}

/// The `[mutations]` section of a configuration file.
#[derive(Debug, Default)]
pub struct MutationsFileConfig {
    /// The slugs that are used; all of them where there is no list.
    pub slugs: Option<Vec<String>>,
}

/// A rule of the `[test]` section for the targets that a glob matches.
#[derive(Debug, Default)]
pub struct PerTargetTestFileConfig {
    pub glob: String,
    pub cmd: Option<String>,
    pub timeout: Option<u32>,
}

/// The `[test]` section of a configuration file.
#[derive(Debug, Default)]
pub struct TestFileConfig {
    pub cmd: Option<String>,
    pub timeout: Option<u32>,
    /// Rules in order; the first that matches a path is used.
    pub per_target: Option<Vec<PerTargetTestFileConfig>>,
}

/// A configuration file.
#[derive(Debug, Default)]
pub struct FileConfig {
    pub log: Option<LogFileConfig>,
    pub general: Option<GeneralFileConfig>,
    pub mutations: Option<MutationsFileConfig>,
    pub test: Option<TestFileConfig>,
}

/// How to log.
#[derive(Debug, Default)]
pub struct LogConfig {
    pub level: String,
    /// `Some(true)` forces colors on, `Some(false)` off; `None` leaves it
    /// to the terminal.
    pub color: Option<bool>,
}

/// Where the database is, and which paths are no targets.
#[derive(Debug, Default)]
pub struct GeneralConfig {
    pub db: String,
    pub ignore_targets: Vec<String>,
}

/// Which mutations are used.
#[derive(Debug, Default)]
pub struct MutationsConfig {
    pub slugs: Option<Vec<String>>,
}

/// A test command for the targets that a glob matches.
#[derive(Debug, Default)]
pub struct PerTargetTestRule {
    pub glob: String,
    pub cmd: String,
    pub timeout: Option<u32>,
}

/// How to test.
#[derive(Debug, Default)]
pub struct TestConfig {
    pub cmd: String,
    /// Seconds.
    pub timeout: Option<u32>,
    pub per_target: Vec<PerTargetTestRule>,
}

/// The whole configuration.
#[derive(Debug, Default)]
pub struct GlobalConfig {
    pub general: GeneralConfig,
    pub mutations: MutationsConfig,
    pub test: TestConfig,
    pub log: LogConfig,
}

/// What the command line says.
#[derive(Debug, Default)]
pub struct CliOverrides {
    pub db: Option<String>,
    pub log_level: Option<String>,
    /// `on` or `off`.
    pub log_color: Option<String>,
    /// Glob patterns, separated by commas.
    pub ignore_targets: Option<String>,
    /// Slugs, separated by commas.
    pub mutations_slugs: Option<String>,
    pub test_cmd: Option<String>,
    pub test_timeout: Option<u32>,
}

/// What the environment says: the values of the variables
/// `MUTON_LOG_LEVEL`, `MUTON_LOG_COLOR`, `MUTON_DB`,
/// `MUTON_IGNORE_TARGETS`, `MUTON_SLUGS`, `MUTON_TEST_CMD` and
/// `MUTON_TEST_TIMEOUT`, as far as they are set.
#[derive(Debug, Default)]
pub struct EnvOverrides {
    pub log_level: Option<String>,
    pub log_color: Option<String>,
    pub db: Option<String>,
    pub ignore_targets: Option<String>,
    pub slugs: Option<String>,
    pub test_cmd: Option<String>,
    pub test_timeout: Option<String>,
}

/// A rule as the resolution sees it.
pub struct RuleView {
    pub glob: Seq<char>,
    pub cmd: Seq<char>,
    pub timeout: Option<u32>,
}

/// The configuration as the rules see it.
pub struct ConfigView {
    pub db: Seq<char>,
    pub ignore_targets: Seq<Seq<char>>,
    pub slugs: Option<Seq<Seq<char>>>,
    pub cmd: Seq<char>,
    pub timeout: Option<u32>,
    pub per_target: Seq<RuleView>,
    pub level: Seq<char>,
    pub color: Option<bool>,
}

impl View for PerTargetTestRule {
    type V = RuleView;

    open spec fn view(&self) -> RuleView {
        RuleView { glob: self.glob@, cmd: self.cmd@, timeout: self.timeout }
    }
}

/// The views of a list of rules.
pub open spec fn rule_views(rules: Seq<PerTargetTestRule>) -> Seq<RuleView> {
    rules.map_values(|r: PerTargetTestRule| r@)
}

/// The strings of a list that may be missing.
pub open spec fn optional_views(list: Option<Vec<String>>) -> Option<Seq<Seq<char>>> {
    match list {
        Some(v) => Some(string_views(v@)),
        None => None,
    }
}

/// The string of a string that may be missing.
pub open spec fn optional_view(s: Option<String>) -> Option<Seq<char>> {
    match s {
        Some(v) => Some(v@),
        None => None,
    }
}

impl View for GlobalConfig {
    type V = ConfigView;

    open spec fn view(&self) -> ConfigView {
        ConfigView {
            db: self.general.db@,
            ignore_targets: string_views(self.general.ignore_targets@),
            slugs: optional_views(self.mutations.slugs),
            cmd: self.test.cmd@,
            timeout: self.test.timeout,
            per_target: rule_views(self.test.per_target@),
            level: self.log.level@,
            color: self.log.color,
        }
    }
}

/// The configuration that holds where nothing else is said.
pub open spec fn default_config() -> ConfigView {
    ConfigView {
        db: "muton.sqlite"@,
        ignore_targets: Seq::empty(),
        slugs: None,
        cmd: "npx blueprint test"@,
        timeout: None,
        per_target: Seq::empty(),
        level: "info"@,
        color: None,
    }
}

/// The configuration that holds where nothing else is said.
pub fn default_global_config() -> (r: GlobalConfig)
    ensures
        r@ == default_config(),
{
    let cfg = GlobalConfig {
        general: GeneralConfig { db: "muton.sqlite".to_owned(), ignore_targets: Vec::new() },
        mutations: MutationsConfig { slugs: None },
        test: TestConfig {
            cmd: "npx blueprint test".to_owned(),
            timeout: None,
            per_target: Vec::new(),
        },
        log: LogConfig { level: "info".to_owned(), color: None },
    };
    assert(cfg@.ignore_targets =~= Seq::<Seq<char>>::empty());
    assert(cfg@.per_target =~= Seq::<RuleView>::empty());
    cfg
}

// ---------------------------------------------------------------------
// Lists separated by commas
// ---------------------------------------------------------------------
/// The pieces of a text between its separators. A text without a
/// separator is one piece; two separators next to each other have an
/// empty piece between them.
pub open spec fn pieces(text: Seq<u8>, separator: u8) -> Seq<Seq<u8>>
    decreases text.len(),
{
    if text.len() == 0 {
        seq![Seq::empty()]
    } else if text.last() == separator {
        pieces(text.drop_last(), separator).push(Seq::empty())
    } else {
        let before = pieces(text.drop_last(), separator);
        before.drop_last().push(before.last().push(text.last()))
    }
}

/// The entries that a list of pieces stands for: each piece that is text,
/// without the white space around it, unless nothing is left of it.
pub open spec fn entries_of(list: Seq<Seq<u8>>) -> Seq<Seq<char>>
    decreases list.len(),
{
    if list.len() == 0 {
        Seq::empty()
    } else if valid_utf8(list.last()) && trimmed(decode_utf8(list.last())).len() > 0 {
        entries_of(list.drop_last()).push(trimmed(decode_utf8(list.last())))
    } else {
        entries_of(list.drop_last())
    }
}

/// The entries of a list separated by commas.
pub open spec fn csv_entries(input: Seq<char>) -> Seq<Seq<char>> {
    entries_of(pieces(encode_utf8(input), 0x2c))
}

/// There is always at least one piece.
pub proof fn lemma_pieces_not_empty(text: Seq<u8>, separator: u8)
    ensures
        pieces(text, separator).len() >= 1,
    decreases text.len(),
{
    if text.len() > 0 {
        lemma_pieces_not_empty(text.drop_last(), separator);
    }
}

/// The pieces of a text between its separators.
pub fn split_bytes(text: &[u8], separator: u8) -> (r: Vec<Vec<u8>>)
    ensures
        r@.map_values(|p: Vec<u8>| p@) == pieces(text@, separator),
{
    let mut done: Vec<Vec<u8>> = Vec::new();
    let mut current: Vec<u8> = Vec::new();
    let mut i: usize = 0;
    assert(text@.subrange(0, 0) =~= Seq::<u8>::empty());
    assert(done@.map_values(|p: Vec<u8>| p@).push(current@) =~= seq![Seq::<u8>::empty()]);
    while i < text.len()
        invariant
            i <= text@.len(),
            done@.map_values(|p: Vec<u8>| p@).push(current@) == pieces(
                text@.subrange(0, i as int),
                separator,
            ),
        decreases text@.len() - i,
    {
        let ghost before = pieces(text@.subrange(0, i as int), separator);
        assert(text@.subrange(0, i + 1).drop_last() =~= text@.subrange(0, i as int));
        assert(text@.subrange(0, i + 1).last() == text@[i as int]);
        let ghost done_before = done@.map_values(|p: Vec<u8>| p@);
        assert(before.drop_last() =~= done_before);
        assert(before.last() == current@);
        if text[i] == separator {
            done.push(current);
            current = Vec::new();
            assert(done@.map_values(|p: Vec<u8>| p@).push(current@) =~= before.push(
                Seq::empty(),
            ));
        } else {
            current.push(text[i]);
            assert(done@.map_values(|p: Vec<u8>| p@).push(current@) =~= before.drop_last().push(
                before.last().push(text@[i as int]),
            ));
        }
        i += 1;
    }
    assert(text@.subrange(0, text@.len() as int) =~= text@);
    let ghost done_before = done@.map_values(|p: Vec<u8>| p@);
    let ghost last = current@;
    done.push(current);
    assert(done@.map_values(|p: Vec<u8>| p@) =~= done_before.push(last));
    done
}

/// The entries of a list separated by commas: what stands between the
/// commas, without the white space around it; empty entries are left out.
pub fn parse_csv(input: &str) -> (r: Vec<String>)
    ensures
        string_views(r@) == csv_entries(input@),
{
    let list = split_bytes(input.as_bytes(), 0x2c);
    let ghost all = list@.map_values(|p: Vec<u8>| p@);
    let mut out: Vec<String> = Vec::new();
    let mut k: usize = 0;
    assert(string_views(out@) =~= Seq::<Seq<char>>::empty());
    assert(all.subrange(0, 0) =~= Seq::<Seq<u8>>::empty());
    while k < list.len()
        invariant
            k <= list@.len(),
            all == list@.map_values(|p: Vec<u8>| p@),
            string_views(out@) == entries_of(all.subrange(0, k as int)),
        decreases list@.len() - k,
    {
        let ghost earlier = string_views(out@);
        assert(all.subrange(0, k + 1).drop_last() =~= all.subrange(0, k as int));
        assert(all.subrange(0, k + 1).last() == list@[k as int]@);
        let mut copy: Vec<u8> = Vec::new();
        copy.extend_from_slice(list[k].as_slice());
        assert(copy@ =~= list@[k as int]@);
        match string_from_utf8(copy) {
            Some(piece) => {
                proof {
                    encode_utf8_decode_utf8(piece@);
                }
                let entry = trim(piece.as_str());
                if entry.unicode_len() > 0 {
                    out.push(entry.to_owned());
                    assert(string_views(out@) =~= earlier.push(entry@));
                }
            },
            None => {},
        }
        k += 1;
    }
    assert(all.subrange(0, list@.len() as int) =~= all);
    out
}

// ---------------------------------------------------------------------
// Small questions about strings
// ---------------------------------------------------------------------
/// Nothing is left of the string when white space is taken off its ends.
pub open spec fn is_blank(s: Seq<char>) -> bool {
    trimmed(s).len() == 0
}

/// Whether nothing is left of the string without the white space at its ends.
pub fn blank(s: &str) -> (r: bool)
    ensures
        r == is_blank(s@),
{
    trim(s).unicode_len() == 0
}

/// What a word says about colors: `on` forces them on, `off` forces them
/// off, in small or capital letters; any other word says nothing.
pub open spec fn color_word(word: Seq<char>) -> Option<bool> {
    if lower_bytes(encode_utf8(word)) == encode_utf8("on"@) {
        Some(true)
    } else if lower_bytes(encode_utf8(word)) == encode_utf8("off"@) {
        Some(false)
    } else {
        None
    }
}

/// What a word says about colors.
pub fn parse_color(word: &str) -> (r: Option<bool>)
    ensures
        r == color_word(word@),
{
    let lower = to_lower(word.as_bytes());
    if bytes_eq(lower.as_slice(), "on".as_bytes()) {
        Some(true)
    } else if bytes_eq(lower.as_slice(), "off".as_bytes()) {
        Some(false)
    } else {
        None
    }
}

/// Puts a string at the end of a list.
pub fn push_string(list: &mut Vec<String>, s: String)
    ensures
        string_views(final(list)@) == string_views(old(list)@).push(s@),
{
    list.push(s);
    assert(string_views(list@) =~= string_views(old(list)@).push(s@));
}

/// A copy of a list of strings.
pub fn copy_strings(list: &Vec<String>) -> (r: Vec<String>)
    ensures
        string_views(r@) == string_views(list@),
{
    let mut out: Vec<String> = Vec::new();
    let mut k: usize = 0;
    while k < list.len()
        invariant
            k <= list@.len(),
            string_views(out@) == string_views(list@).subrange(0, k as int),
        decreases list@.len() - k,
    {
        push_string(&mut out, list[k].clone());
        assert(string_views(list@)[k as int] == list@[k as int]@);
        assert(string_views(out@) =~= string_views(list@).subrange(0, k + 1));
        k += 1;
    }
    assert(string_views(list@).subrange(0, list@.len() as int) =~= string_views(list@));
    out
}

/// Puts copies of the strings of `more` at the end of `list`.
pub fn extend_strings(list: &mut Vec<String>, more: &Vec<String>)
    ensures
        string_views(final(list)@) == string_views(old(list)@) + string_views(more@),
{
    let ghost before = string_views(list@);
    let mut k: usize = 0;
    assert(before + string_views(more@).subrange(0, 0) =~= before);
    while k < more.len()
        invariant
            k <= more@.len(),
            string_views(list@) == before + string_views(more@).subrange(0, k as int),
        decreases more@.len() - k,
    {
        push_string(list, more[k].clone());
        assert(string_views(more@)[k as int] == more@[k as int]@);
        assert(string_views(list@) =~= before + string_views(more@).subrange(0, k + 1));
        k += 1;
    }
    assert(string_views(more@).subrange(0, more@.len() as int) =~= string_views(more@));
}

// ---------------------------------------------------------------------
// What a configuration file says
// ---------------------------------------------------------------------
/// A rule of a file as the resolution sees it.
pub struct FileRuleView {
    pub glob: Seq<char>,
    pub cmd: Option<Seq<char>>,
    pub timeout: Option<u32>,
}

impl View for PerTargetTestFileConfig {
    type V = FileRuleView;

    open spec fn view(&self) -> FileRuleView {
        FileRuleView { glob: self.glob@, cmd: optional_view(self.cmd), timeout: self.timeout }
    }
}

/// What a configuration file says, section by section.
pub struct FileView {
    pub level: Option<Seq<char>>,
    pub color: Option<bool>,
    pub db: Option<Seq<char>>,
    pub ignore_targets: Option<Seq<Seq<char>>>,
    pub slugs: Option<Seq<Seq<char>>>,
    pub cmd: Option<Seq<char>>,
    pub timeout: Option<u32>,
    pub per_target: Option<Seq<FileRuleView>>,
}

impl View for FileConfig {
    type V = FileView;

    open spec fn view(&self) -> FileView {
        FileView {
            level: match self.log {
                Some(log) => optional_view(log.level),
                None => None,
            },
            color: match self.log {
                Some(log) => log.color,
                None => None,
            },
            db: match self.general {
                Some(general) => optional_view(general.db),
                None => None,
            },
            ignore_targets: match self.general {
                Some(general) => optional_views(general.ignore_targets),
                None => None,
            },
            slugs: match self.mutations {
                Some(mutations) => optional_views(mutations.slugs),
                None => None,
            },
            cmd: match self.test {
                Some(test) => optional_view(test.cmd),
                None => None,
            },
            timeout: match self.test {
                Some(test) => test.timeout,
                None => None,
            },
            per_target: match self.test {
                Some(test) => match test.per_target {
                    Some(rules) => Some(rules@.map_values(|r: PerTargetTestFileConfig| r@)),
                    None => None,
                },
                None => None,
            },
        }
    }
}

/// The rules that a file adds: those of its rules that have a command
/// which is not blank, in their order.
pub open spec fn usable_rules(rules: Seq<FileRuleView>) -> Seq<RuleView>
    decreases rules.len(),
{
    if rules.len() == 0 {
        Seq::empty()
    } else if rules.last().cmd matches Some(cmd) && !is_blank(cmd) {
        usable_rules(rules.drop_last()).push(
            RuleView {
                glob: rules.last().glob,
                cmd: rules.last().cmd->0,
                timeout: rules.last().timeout,
            },
        )
    } else {
        usable_rules(rules.drop_last())
    }
}

/// The configuration after a file was applied: what the file says takes
/// the place of what was there; its ignore globs and its rules are added
/// to those that were there; an empty list of slugs says nothing.
pub open spec fn with_file(cfg: ConfigView, file: FileView) -> ConfigView {
    ConfigView {
        level: match file.level {
            Some(level) => level,
            None => cfg.level,
        },
        color: match file.color {
            Some(color) => Some(color),
            None => cfg.color,
        },
        db: match file.db {
            Some(db) => db,
            None => cfg.db,
        },
        ignore_targets: match file.ignore_targets {
            Some(globs) => cfg.ignore_targets + globs,
            None => cfg.ignore_targets,
        },
        slugs: match file.slugs {
            Some(slugs) => if slugs.len() > 0 {
                Some(slugs)
            } else {
                cfg.slugs
            },
            None => cfg.slugs,
        },
        cmd: match file.cmd {
            Some(cmd) => cmd,
            None => cfg.cmd,
        },
        timeout: match file.timeout {
            Some(timeout) => Some(timeout),
            None => cfg.timeout,
        },
        per_target: match file.per_target {
            Some(rules) => cfg.per_target + usable_rules(rules),
            None => cfg.per_target,
        },
    }
}

/// Puts the usable rules of a file at the end of a list of rules.
pub fn add_usable_rules(list: &mut Vec<PerTargetTestRule>, rules: &Vec<PerTargetTestFileConfig>)
    ensures
        rule_views(final(list)@) == rule_views(old(list)@) + usable_rules(
            rules@.map_values(|r: PerTargetTestFileConfig| r@),
        ),
{
    let ghost before = rule_views(list@);
    let ghost all = rules@.map_values(|r: PerTargetTestFileConfig| r@);
    let mut k: usize = 0;
    assert(all.subrange(0, 0) =~= Seq::<FileRuleView>::empty());
    assert(before + usable_rules(all.subrange(0, 0)) =~= before);
    while k < rules.len()
        invariant
            k <= rules@.len(),
            all == rules@.map_values(|r: PerTargetTestFileConfig| r@),
            rule_views(list@) == before + usable_rules(all.subrange(0, k as int)),
        decreases rules@.len() - k,
    {
        let ghost earlier = usable_rules(all.subrange(0, k as int));
        let ghost so_far = rule_views(list@);
        assert(all.subrange(0, k + 1).drop_last() =~= all.subrange(0, k as int));
        assert(all.subrange(0, k + 1).last() == rules@[k as int]@);
        match &rules[k].cmd {
            Some(cmd) => {
                if !blank(cmd.as_str()) {
                    let rule = PerTargetTestRule {
                        glob: rules[k].glob.clone(),
                        cmd: cmd.clone(),
                        timeout: rules[k].timeout,
                    };
                    list.push(rule);
                    assert(rule_views(list@) =~= so_far.push(rule@));
                    assert(rule_views(list@) =~= before + earlier.push(rule@));
                }
            },
            None => {},
        }
        k += 1;
    }
    assert(all.subrange(0, rules@.len() as int) =~= all);
}

/// Applies a configuration file: see [`with_file`].
pub fn apply_file_config(cfg: &mut GlobalConfig, file: &FileConfig)
    ensures
        final(cfg)@ == with_file(old(cfg)@, file@),
{
    match &file.log {
        Some(log) => {
            match &log.level {
                Some(level) => {
                    cfg.log.level = level.clone();
                },
                None => {},
            }
            match log.color {
                Some(color) => {
                    cfg.log.color = Some(color);
                },
                None => {},
            }
        },
        None => {},
    }
    match &file.general {
        Some(general) => {
            match &general.db {
                Some(db) => {
                    cfg.general.db = db.clone();
                },
                None => {},
            }
            match &general.ignore_targets {
                Some(globs) => {
                    extend_strings(&mut cfg.general.ignore_targets, globs);
                },
                None => {},
            }
        },
        None => {},
    }
    match &file.mutations {
        Some(mutations) => {
            match &mutations.slugs {
                Some(slugs) => {
                    if slugs.len() > 0 {
                        assert(string_views(slugs@).len() == slugs@.len());
                        cfg.mutations.slugs = Some(copy_strings(slugs));
                    }
                },
                None => {},
            }
        },
        None => {},
    }
    match &file.test {
        Some(test) => {
            match &test.cmd {
                Some(cmd) => {
                    cfg.test.cmd = cmd.clone();
                },
                None => {},
            }
            match test.timeout {
                Some(timeout) => {
                    cfg.test.timeout = Some(timeout);
                },
                None => {},
            }
            match &test.per_target {
                Some(rules) => {
                    add_usable_rules(&mut cfg.test.per_target, rules);
                },
                None => {},
            }
        },
        None => {},
    }
}

// ---------------------------------------------------------------------
// What the environment and the command line say
// ---------------------------------------------------------------------
/// What the environment says, as the resolution sees it.
pub struct EnvView {
    pub log_level: Option<Seq<char>>,
    pub log_color: Option<Seq<char>>,
    pub db: Option<Seq<char>>,
    pub ignore_targets: Option<Seq<char>>,
    pub slugs: Option<Seq<char>>,
    pub test_cmd: Option<Seq<char>>,
    pub test_timeout: Option<Seq<char>>,
}

impl View for EnvOverrides {
    type V = EnvView;

    open spec fn view(&self) -> EnvView {
        EnvView {
            log_level: optional_view(self.log_level),
            log_color: optional_view(self.log_color),
            db: optional_view(self.db),
            ignore_targets: optional_view(self.ignore_targets),
            slugs: optional_view(self.slugs),
            test_cmd: optional_view(self.test_cmd),
            test_timeout: optional_view(self.test_timeout),
        }
    }
}

/// What the command line says, as the resolution sees it.
pub struct CliView {
    pub db: Option<Seq<char>>,
    pub log_level: Option<Seq<char>>,
    pub log_color: Option<Seq<char>>,
    pub ignore_targets: Option<Seq<char>>,
    pub mutations_slugs: Option<Seq<char>>,
    pub test_cmd: Option<Seq<char>>,
    pub test_timeout: Option<u32>,
}

impl View for CliOverrides {
    type V = CliView;

    open spec fn view(&self) -> CliView {
        CliView {
            db: optional_view(self.db),
            log_level: optional_view(self.log_level),
            log_color: optional_view(self.log_color),
            ignore_targets: optional_view(self.ignore_targets),
            mutations_slugs: optional_view(self.mutations_slugs),
            test_cmd: optional_view(self.test_cmd),
            test_timeout: self.test_timeout,
        }
    }
}

/// The level after a word for it was given: the word without the white
/// space around it, unless it is blank.
pub open spec fn with_level(level: Seq<char>, word: Option<Seq<char>>) -> Seq<char> {
    match word {
        Some(w) => if is_blank(w) {
            level
        } else {
            trimmed(w)
        },
        None => level,
    }
}

/// The color setting after a word for it was given.
pub open spec fn with_color(color: Option<bool>, word: Option<Seq<char>>) -> Option<bool> {
    match word {
        Some(w) => match color_word(w) {
            Some(c) => Some(c),
            None => color,
        },
        None => color,
    }
}

/// The globs after a list of more globs was given.
pub open spec fn with_globs(globs: Seq<Seq<char>>, list: Option<Seq<char>>) -> Seq<Seq<char>> {
    match list {
        Some(l) => globs + csv_entries(l),
        None => globs,
    }
}

/// The slugs after a list of slugs was given: a list with an entry takes
/// the place of what was there.
pub open spec fn with_slugs(slugs: Option<Seq<Seq<char>>>, list: Option<Seq<char>>) -> Option<
    Seq<Seq<char>>,
> {
    match list {
        Some(l) => if csv_entries(l).len() > 0 {
            Some(csv_entries(l))
        } else {
            slugs
        },
        None => slugs,
    }
}

/// A setting after a value for it was given that counts unless it is blank.
pub open spec fn unless_blank(current: Seq<char>, value: Option<Seq<char>>) -> Seq<char> {
    match value {
        Some(v) => if is_blank(v) {
            current
        } else {
            v
        },
        None => current,
    }
}

/// The configuration after the environment was applied.
pub open spec fn with_env(cfg: ConfigView, env: EnvView) -> ConfigView {
    ConfigView {
        level: with_level(cfg.level, env.log_level),
        color: with_color(cfg.color, env.log_color),
        db: unless_blank(cfg.db, env.db),
        ignore_targets: with_globs(cfg.ignore_targets, env.ignore_targets),
        slugs: with_slugs(cfg.slugs, env.slugs),
        cmd: unless_blank(cfg.cmd, env.test_cmd),
        timeout: match env.test_timeout {
            Some(t) => match parsed_u32(encode_utf8(trimmed(t))) {
                Some(n) => Some(n),
                None => cfg.timeout,
            },
            None => cfg.timeout,
        },
        per_target: cfg.per_target,
    }
}

/// The configuration after the command line was applied.
pub open spec fn with_cli(cfg: ConfigView, cli: CliView) -> ConfigView {
    ConfigView {
        level: with_level(cfg.level, cli.log_level),
        color: with_color(cfg.color, cli.log_color),
        db: match cli.db {
            Some(db) => db,
            None => cfg.db,
        },
        ignore_targets: with_globs(cfg.ignore_targets, cli.ignore_targets),
        slugs: with_slugs(cfg.slugs, cli.mutations_slugs),
        cmd: unless_blank(cfg.cmd, cli.test_cmd),
        timeout: match cli.test_timeout {
            Some(t) => Some(t),
            None => cfg.timeout,
        },
        per_target: cfg.per_target,
    }
}

/// Sets the level from a word for it.
fn apply_level(level: &mut String, word: &Option<String>)
    ensures
        final(level)@ == with_level(old(level)@, optional_view(*word)),
{
    match word {
        Some(w) => {
            if !blank(w.as_str()) {
                *level = trim(w.as_str()).to_owned();
            }
        },
        None => {},
    }
}

/// Sets the color setting from a word for it.
fn apply_color(color: &mut Option<bool>, word: &Option<String>)
    ensures
        *final(color) == with_color(*old(color), optional_view(*word)),
{
    match word {
        Some(w) => {
            match parse_color(w.as_str()) {
                Some(c) => {
                    *color = Some(c);
                },
                None => {},
            }
        },
        None => {},
    }
}

/// Adds the globs of a list.
fn apply_globs(globs: &mut Vec<String>, list: &Option<String>)
    ensures
        string_views(final(globs)@) == with_globs(string_views(old(globs)@), optional_view(*list)),
{
    match list {
        Some(l) => {
            let more = parse_csv(l.as_str());
            extend_strings(globs, &more);
        },
        None => {},
    }
}

/// Sets the slugs from a list of them.
fn apply_slugs(slugs: &mut Option<Vec<String>>, list: &Option<String>)
    ensures
        optional_views(*final(slugs)) == with_slugs(
            optional_views(*old(slugs)),
            optional_view(*list),
        ),
{
    match list {
        Some(l) => {
            let entries = parse_csv(l.as_str());
            assert(string_views(entries@).len() == entries@.len());
            if entries.len() > 0 {
                *slugs = Some(entries);
            }
        },
        None => {},
    }
}

/// Sets a setting from a value that counts unless it is blank.
fn apply_unless_blank(current: &mut String, value: &Option<String>)
    ensures
        final(current)@ == unless_blank(old(current)@, optional_view(*value)),
{
    match value {
        Some(v) => {
            if !blank(v.as_str()) {
                *current = v.clone();
            }
        },
        None => {},
    }
}

/// Applies what the environment says: see [`with_env`].
pub fn apply_env_overrides(cfg: &mut GlobalConfig, env: &EnvOverrides)
    ensures
        final(cfg)@ == with_env(old(cfg)@, env@),
{
    apply_level(&mut cfg.log.level, &env.log_level);
    apply_color(&mut cfg.log.color, &env.log_color);
    apply_unless_blank(&mut cfg.general.db, &env.db);
    apply_globs(&mut cfg.general.ignore_targets, &env.ignore_targets);
    apply_slugs(&mut cfg.mutations.slugs, &env.slugs);
    apply_unless_blank(&mut cfg.test.cmd, &env.test_cmd);
    match &env.test_timeout {
        Some(t) => {
            match parse_u32(trim(t.as_str()).as_bytes()) {
                Some(n) => {
                    cfg.test.timeout = Some(n);
                },
                None => {},
            }
        },
        None => {},
    }
}

/// Applies what the command line says: see [`with_cli`].
pub fn apply_cli_overrides(cfg: &mut GlobalConfig, overrides: &CliOverrides)
    ensures
        final(cfg)@ == with_cli(old(cfg)@, overrides@),
{
    match &overrides.db {
        Some(db) => {
            cfg.general.db = db.clone();
        },
        None => {},
    }
    apply_level(&mut cfg.log.level, &overrides.log_level);
    apply_color(&mut cfg.log.color, &overrides.log_color);
    apply_globs(&mut cfg.general.ignore_targets, &overrides.ignore_targets);
    apply_slugs(&mut cfg.mutations.slugs, &overrides.mutations_slugs);
    apply_unless_blank(&mut cfg.test.cmd, &overrides.test_cmd);
    match overrides.test_timeout {
        Some(t) => {
            cfg.test.timeout = Some(t);
        },
        None => {},
    }
}

/// The configuration that a file and the environment give.
pub open spec fn resolved_config(file: Option<FileView>, env: EnvView) -> ConfigView {
    with_env(
        match file {
            Some(f) => with_file(default_config(), f),
            None => default_config(),
        },
        env,
    )
}

/// The configuration without a command line: the defaults, then the
/// configuration file if there is one, then the environment.
pub fn config(file: Option<&FileConfig>, env: &EnvOverrides) -> (r: GlobalConfig)
    ensures
        r@ == resolved_config(
            match file {
                Some(f) => Some(f@),
                None => None,
            },
            env@,
        ),
{
    let mut cfg = default_global_config();
    match file {
        Some(f) => {
            apply_file_config(&mut cfg, f);
        },
        None => {},
    }
    apply_env_overrides(&mut cfg, env);
    cfg
}

/// The configuration: the defaults, then the configuration file if there
/// is one, then the environment, then the command line.
pub fn init_with_overrides(
    file: Option<&FileConfig>,
    env: &EnvOverrides,
    overrides: &CliOverrides,
) -> (r: GlobalConfig)
    ensures
        r@ == with_cli(
            resolved_config(
                match file {
                    Some(f) => Some(f@),
                    None => None,
                },
                env@,
            ),
            overrides@,
        ),
{
    let mut cfg = config(file, env);
    apply_cli_overrides(&mut cfg, overrides);
    cfg
}

/// Whether colors are used: as the configuration forces it, and else as
/// the terminal takes them.
pub fn colors_enabled(cfg: &GlobalConfig, terminal_colors: bool) -> (r: bool)
    ensures
        r == match cfg.log.color {
            Some(force) => force,
            None => terminal_colors,
        },
{
    match cfg.log.color {
        Some(force) => force,
        None => terminal_colors,
    }
}

/// The slug is used: there is no list of slugs, or the list has it.
pub open spec fn slug_enabled(slugs: Option<Seq<Seq<char>>>, slug: Seq<char>) -> bool {
    match slugs {
        Some(list) => list.contains(slug),
        None => true,
    }
}

/// Whether mutations with the slug are used.
pub fn is_slug_enabled(cfg: &GlobalConfig, slug: &str) -> (r: bool)
    ensures
        r == slug_enabled(cfg@.slugs, slug@),
{
    match &cfg.mutations.slugs {
        Some(list) => {
            let ghost views = string_views(list@);
            let mut k: usize = 0;
            while k < list.len()
                invariant
                    k <= list@.len(),
                    views == string_views(list@),
                    cfg.mutations.slugs == Some(*list),
                    forall|n: int| 0 <= n < k ==> views[n] != slug@,
                decreases list@.len() - k,
            {
                if str_eq(list[k].as_str(), slug) {
                    assert(views[k as int] == slug@);
                    return true;
                }
                k += 1;
            }
            false
        },
        None => true,
    }
}

// ---------------------------------------------------------------------
// Globs
// ---------------------------------------------------------------------
/// The longest glob, in bytes, that is handed to the matcher. A longer
/// one matches nothing.
pub const GLOB_LIMIT: usize = 4096;

/// Calls `globset::Glob::new`, `GlobSetBuilder::build` on that one glob
/// and `GlobSet::is_match` on the path. A pattern that is no glob, or
/// that the builder refuses, matches nothing. The builder fails on a very
/// long pattern in ways that it does not report, so the length is
/// bounded. How a glob matches depends on the platform's path separators,
/// so nothing is stated of the answer.
#[verifier::external_body]
fn glob_matches(pattern: &str, path: &str) -> (r: bool)
    requires
        encode_utf8(pattern@).len() <= GLOB_LIMIT,
{
    let glob = match globset::Glob::new(pattern) {
        Ok(glob) => glob,
        Err(_) => return false,
    };
    match globset::GlobSetBuilder::new().add(glob).build() {
        Ok(set) => set.is_match(path),
        Err(_) => false,
    }
}

/// Whether the glob matches the path; a glob over the limit matches
/// nothing.
fn glob_answer(pattern: &str, path: &str) -> (r: bool)
    ensures
        encode_utf8(pattern@).len() > GLOB_LIMIT ==> !r,
{
    if pattern.as_bytes().len() <= GLOB_LIMIT {
        glob_matches(pattern, path)
    } else {
        false
    }
}

/// Position of the first `true`, or -1.
pub open spec fn first_true(matches: Seq<bool>) -> int {
    crate::store::position_of(matches, true)
}

/// One of the answers is `true`.
pub open spec fn any_true(matches: Seq<bool>) -> bool {
    first_true(matches) >= 0
}

/// Whether one of the answers is `true`.
pub fn excluded_by(matches: &Vec<bool>) -> (r: bool)
    ensures
        r == any_true(matches@),
{
    proof {
        crate::store::lemma_position_of(matches@, true);
    }
    let mut k: usize = 0;
    while k < matches.len()
        invariant
            k <= matches@.len(),
            forall|n: int| 0 <= n < k ==> !matches@[n],
        decreases matches@.len() - k,
    {
        if matches[k] {
            proof {
                crate::store::lemma_position_of(matches@, true);
            }
            return true;
        }
        k += 1;
    }
    proof {
        crate::store::lemma_position_of(matches@, true);
    }
    false
}

/// The answers are no more than the globs, and a glob over the limit has
/// the answer `false`.
pub open spec fn answers_for(globs: Seq<Seq<char>>, answers: Seq<bool>) -> bool {
    &&& answers.len() == globs.len()
    &&& forall|k: int|
        0 <= k < globs.len() && encode_utf8(#[trigger] globs[k]).len() > GLOB_LIMIT ==> !answers[k]
}

/// Whether a path is no target: whether one of the ignore globs matches
/// it. `answers` holds, for each ignore glob in turn, whether it matches.
pub fn is_path_excluded(cfg: &GlobalConfig, path: &str) -> (r: bool)
    ensures
        cfg@.ignore_targets.len() == 0 ==> !r,
        exists|answers: Seq<bool>| #[trigger]
            answers_for(cfg@.ignore_targets, answers) && r == any_true(answers),
{
    let mut answers: Vec<bool> = Vec::new();
    let mut k: usize = 0;
    let ghost globs = string_views(cfg.general.ignore_targets@);
    assert(globs.len() == cfg.general.ignore_targets@.len());
    while k < cfg.general.ignore_targets.len()
        invariant
            k <= cfg.general.ignore_targets@.len(),
            answers@.len() == k,
            globs == string_views(cfg.general.ignore_targets@),
            globs.len() == cfg.general.ignore_targets@.len(),
            forall|n: int|
                0 <= n < k && encode_utf8(#[trigger] globs[n]).len() > GLOB_LIMIT ==> !answers@[n],
        decreases cfg.general.ignore_targets@.len() - k,
    {
        assert(globs[k as int] == cfg.general.ignore_targets@[k as int]@);
        answers.push(glob_answer(cfg.general.ignore_targets[k].as_str(), path));
        k += 1;
    }
    let r = excluded_by(&answers);
    proof {
        crate::store::lemma_position_of(answers@, true);
        assert(answers_for(cfg@.ignore_targets, answers@));
    }
    r
}

/// The globs of the rules, in turn.
pub open spec fn globs_of(rules: Seq<RuleView>) -> Seq<Seq<char>> {
    rules.map_values(|r: RuleView| r.glob)
}

/// The first of two timeouts that is set.
pub open spec fn or_timeout(a: Option<u32>, b: Option<u32>) -> Option<u32> {
    match a {
        Some(t) => Some(t),
        None => b,
    }
}

/// The test command and timeout for a path. A command of the command
/// line that is not blank comes first, with the timeout of the command
/// line or else the general one. Next comes the first rule whose glob
/// matches, with the timeout of the command line, else its own, else the
/// general one. Last comes the general command, with the timeout of the
/// command line or else the general one. `matches` says for each rule in
/// turn whether its glob matches the path.
pub open spec fn resolved_test(
    cfg: ConfigView,
    matches: Seq<bool>,
    cli_test_cmd: Option<Seq<char>>,
    cli_timeout: Option<u32>,
) -> (Seq<char>, Option<u32>) {
    if cli_test_cmd matches Some(cmd) && !is_blank(cmd) {
        (cli_test_cmd->0, or_timeout(cli_timeout, cfg.timeout))
    } else if 0 <= first_true(matches) < cfg.per_target.len() {
        let rule = cfg.per_target[first_true(matches)];
        (rule.cmd, or_timeout(cli_timeout, or_timeout(rule.timeout, cfg.timeout)))
    } else {
        (cfg.cmd, or_timeout(cli_timeout, cfg.timeout))
    }
}

/// The first of two timeouts that is set.
fn first_timeout(a: Option<u32>, b: Option<u32>) -> (r: Option<u32>)
    ensures
        r == or_timeout(a, b),
{
    match a {
        Some(t) => Some(t),
        None => b,
    }
}

/// The test command and timeout for a path, given for each rule whether
/// its glob matches the path: see [`resolved_test`].
pub fn resolve_test_with_matches(
    cfg: &GlobalConfig,
    matches: &Vec<bool>,
    cli_test_cmd: &Option<String>,
    cli_timeout: Option<u32>,
) -> (r: (String, Option<u32>))
    ensures
        (r.0@, r.1) == resolved_test(cfg@, matches@, optional_view(*cli_test_cmd), cli_timeout),
{
    match cli_test_cmd {
        Some(cmd) => {
            if !blank(cmd.as_str()) {
                return (cmd.clone(), first_timeout(cli_timeout, cfg.test.timeout));
            }
        },
        None => {},
    }
    proof {
        crate::store::lemma_position_of(matches@, true);
    }
    assert(rule_views(cfg.test.per_target@).len() == cfg.test.per_target@.len());
    let mut k: usize = 0;
    while k < matches.len() && k < cfg.test.per_target.len()
        invariant
            k <= matches@.len(),
            k <= cfg.test.per_target@.len(),
            !(optional_view(*cli_test_cmd) matches Some(cmd) && !is_blank(cmd)),
            rule_views(cfg.test.per_target@).len() == cfg.test.per_target@.len(),
            forall|n: int| 0 <= n < k ==> !matches@[n],
        decreases matches@.len() - k,
    {
        if matches[k] {
            proof {
                crate::store::lemma_position_of(matches@, true);
            }
            let rule = &cfg.test.per_target[k];
            assert(rule_views(cfg.test.per_target@)[k as int] == rule@);
            return (
                rule.cmd.clone(),
                first_timeout(cli_timeout, first_timeout(rule.timeout, cfg.test.timeout)),
            );
        }
        k += 1;
    }
    proof {
        crate::store::lemma_position_of(matches@, true);
    }
    (cfg.test.cmd.clone(), first_timeout(cli_timeout, cfg.test.timeout))
}

/// The test command and timeout for a path: see [`resolved_test`], where
/// the answers are those of the rules' globs on the path.
pub fn resolve_test_for_path_with_cli(
    cfg: &GlobalConfig,
    path: &str,
    cli_test_cmd: &Option<String>,
    cli_timeout: Option<u32>,
) -> (r: (String, Option<u32>))
    ensures
        exists|matches: Seq<bool>|
            answers_for(globs_of(cfg@.per_target), matches) && (r.0@, r.1)
                == #[trigger] resolved_test(
                cfg@,
                matches,
                optional_view(*cli_test_cmd),
                cli_timeout,
            ),
{
    let mut matches: Vec<bool> = Vec::new();
    let mut k: usize = 0;
    let ghost globs = globs_of(rule_views(cfg.test.per_target@));
    assert(globs.len() == cfg.test.per_target@.len());
    while k < cfg.test.per_target.len()
        invariant
            k <= cfg.test.per_target@.len(),
            matches@.len() == k,
            globs == globs_of(rule_views(cfg.test.per_target@)),
            globs.len() == cfg.test.per_target@.len(),
            forall|n: int|
                0 <= n < k && encode_utf8(#[trigger] globs[n]).len() > GLOB_LIMIT ==> !matches@[n],
        decreases cfg.test.per_target@.len() - k,
    {
        assert(globs[k as int] == cfg.test.per_target@[k as int].glob@);
        matches.push(glob_answer(cfg.test.per_target[k].glob.as_str(), path));
        k += 1;
    }
    assert(rule_views(cfg.test.per_target@).len() == cfg.test.per_target@.len());
    assert(answers_for(globs_of(cfg@.per_target), matches@));
    resolve_test_with_matches(cfg, &matches, cli_test_cmd, cli_timeout)
}

} // verus!
