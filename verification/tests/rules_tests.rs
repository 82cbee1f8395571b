use hazelnut::glob::glob_matches;
use hazelnut::rules::{
    age_in_days, evaluate, file_name, has_extension, Action, Condition, FileMeta, Rule, RuleEngine,
};

fn meta(path: &str, size: u64, modified: u64, is_directory: bool, is_hidden: bool) -> FileMeta {
    FileMeta { path: path.to_string(), size, modified, is_directory, is_hidden }
}

fn rule(name: &str, conditions: Condition, action: Action) -> Rule {
    Rule { name: name.to_string(), enabled: true, conditions, action }
}

#[test]
fn glob_literal_matches_itself_only() {
    assert!(glob_matches("notes.txt", "notes.txt"));
    assert!(!glob_matches("notes.txt", "notes.txt.bak"));
    assert!(!glob_matches("notes.txt", "Notes.txt"));
    assert!(glob_matches("", ""));
    assert!(!glob_matches("", "a"));
}

#[test]
fn glob_star_matches_any_run() {
    assert!(glob_matches("*", ""));
    assert!(glob_matches("*", "anything at all"));
    assert!(glob_matches("invoice_*.pdf", "invoice_2024.pdf"));
    assert!(glob_matches("invoice_*.pdf", "invoice_.pdf"));
    assert!(!glob_matches("invoice_*.pdf", "invoice_2024.pdf.part"));
    assert!(glob_matches("*a*b*c*", "xxaxxbxxcxx"));
    assert!(!glob_matches("*a*b*c*", "xxaxxcxxbxx"));
}

#[test]
fn glob_question_mark_matches_one_character() {
    assert!(glob_matches("a?c", "abc"));
    assert!(glob_matches("a?c", "a\u{e9}c"));
    assert!(!glob_matches("a?c", "ac"));
    assert!(!glob_matches("a?c", "abbc"));
}

#[test]
fn glob_classes() {
    assert!(glob_matches("file[0-9].txt", "file7.txt"));
    assert!(!glob_matches("file[0-9].txt", "filex.txt"));
    assert!(glob_matches("[abc]x", "bx"));
    assert!(!glob_matches("[abc]x", "dx"));
    assert!(glob_matches("[!abc]x", "dx"));
    assert!(!glob_matches("[!abc]x", "ax"));
    assert!(glob_matches("[^0-9]", "z"));
    assert!(!glob_matches("[^0-9]", "5"));
    assert!(glob_matches("[]a]", "]"));
    assert!(glob_matches("[]a]", "a"));
    assert!(glob_matches("[a-]", "-"));
}

#[test]
fn glob_unclosed_bracket_is_literal() {
    assert!(glob_matches("a[b", "a[b"));
    assert!(!glob_matches("a[b", "ab"));
    assert!(glob_matches("[", "["));
}

#[test]
fn file_name_is_what_follows_the_last_separator() {
    assert_eq!(file_name("/home/u/Downloads/a.tmp"), "a.tmp");
    assert_eq!(file_name("a.tmp"), "a.tmp");
    assert_eq!(file_name("/a/b/"), "");
}

#[test]
fn extension_is_compared_without_regard_to_case() {
    assert!(has_extension("tmp", "a.tmp"));
    assert!(has_extension("tmp", "a.TMP"));
    assert!(has_extension("TMP", "a.tmp"));
    assert!(has_extension(".tmp", "a.tmp"));
    assert!(!has_extension("tmp", "a.tmpx"));
    assert!(!has_extension("tmp", "tmp"));
    assert!(!has_extension("bashrc", ".bashrc"));
    assert!(has_extension("gz", "a.tar.gz"));
    assert!(has_extension("", "README"));
}

#[test]
fn age_is_counted_in_whole_days() {
    assert_eq!(age_in_days(0, 86399), 0);
    assert_eq!(age_in_days(0, 86400), 1);
    assert_eq!(age_in_days(100, 100 + 3 * 86400 + 5), 3);
    assert_eq!(age_in_days(500, 100), 0);
}

#[test]
fn condition_with_nothing_set_matches_every_file() {
    let any = Condition::any();
    assert!(any.matches(&meta("/x/a.tmp", 10, 0, false, false), 0));
    assert!(any.matches(&meta("/x/.hidden", 0, 99, false, true), 5));
    assert!(any.matches(&meta("/x/dir", 4096, 1, true, false), u64::MAX));
    let rules = vec![rule("all", Condition::any(), Action::Nothing)];
    let found = evaluate(&meta("/x/whatever", 1, 1, false, false), &rules, 7);
    assert!(matches!(found, Some((0, Action::Nothing))));
}

#[test]
fn size_and_age_bounds_are_exclusive() {
    let mut c = Condition::any();
    c.size_greater = Some(10);
    assert!(!c.matches(&meta("/a", 10, 0, false, false), 0));
    assert!(c.matches(&meta("/a", 11, 0, false, false), 0));
    let mut c = Condition::any();
    c.size_less = Some(10);
    assert!(!c.matches(&meta("/a", 10, 0, false, false), 0));
    assert!(c.matches(&meta("/a", 9, 0, false, false), 0));
    let mut c = Condition::any();
    c.age_greater = Some(1);
    assert!(!c.matches(&meta("/a", 1, 0, false, false), 86400));
    assert!(c.matches(&meta("/a", 1, 0, false, false), 2 * 86400));
    let mut c = Condition::any();
    c.age_less = Some(1);
    assert!(c.matches(&meta("/a", 1, 0, false, false), 86399));
    assert!(!c.matches(&meta("/a", 1, 0, false, false), 86400));
}

#[test]
fn directory_and_hidden_conditions_have_three_states() {
    let file = meta("/a/f", 1, 0, false, false);
    let dir = meta("/a/.d", 1, 0, true, true);
    let mut c = Condition::any();
    c.is_directory = Some(true);
    assert!(c.matches(&dir, 0));
    assert!(!c.matches(&file, 0));
    c.is_directory = Some(false);
    assert!(!c.matches(&dir, 0));
    assert!(c.matches(&file, 0));
    let mut c = Condition::any();
    c.is_hidden = Some(true);
    assert!(c.matches(&dir, 0));
    assert!(!c.matches(&file, 0));
}

#[test]
fn glob_and_regex_look_at_the_base_name_only() {
    let mut c = Condition::any();
    c.name_glob = Some("inv*".to_string());
    assert!(c.matches(&meta("/data/inv1.pdf", 1, 0, false, false), 0));
    assert!(!c.matches(&meta("/inv/other.pdf", 1, 0, false, false), 0));
    let mut c = Condition::any();
    c.name_regex = Some("^report_[0-9]+$".to_string());
    assert!(c.matches(&meta("/data/report_12", 1, 0, false, false), 0));
    assert!(!c.matches(&meta("/report_12/x", 1, 0, false, false), 0));
}

#[test]
fn regex_that_does_not_compile_matches_nothing() {
    let mut c = Condition::any();
    c.name_regex = Some("foo(bar".to_string());
    assert!(!c.check());
    assert!(!c.matches(&meta("/data/foo(bar", 1, 0, false, false), 0));
    assert_eq!(c.search_name(&meta("/data/foo(bar", 1, 0, false, false)), None);
    let mut ok = Condition::any();
    ok.name_regex = Some("a+".to_string());
    assert!(ok.check());
    assert_eq!(ok.search_name(&meta("/data/caab", 1, 0, false, false)), Some(true));
    assert_eq!(ok.search_name(&meta("/data/xyz", 1, 0, false, false)), Some(false));
    assert!(Condition::any().check());
}

#[test]
fn matches_given_takes_the_outcome_of_the_search() {
    let mut c = Condition::any();
    c.name_regex = Some("ignored here".to_string());
    let m = meta("/a/b", 1, 0, false, false);
    assert!(c.matches_given(&m, 0, Some(true)));
    assert!(!c.matches_given(&m, 0, Some(false)));
    assert!(!c.matches_given(&m, 0, None));
    assert!(Condition::any().matches_given(&m, 0, None));
}

#[test]
fn broken_rule_is_skipped_and_listed() {
    let mut bad = Condition::any();
    bad.name_regex = Some("[".to_string());
    let mut ext = Condition::any();
    ext.extension = Some("log".to_string());
    let engine = RuleEngine::new(vec![
        rule("bad", bad.clone(), Action::Trash),
        rule("logs", ext, Action::Delete),
        rule("bad again", bad, Action::Trash),
    ]);
    assert_eq!(engine.broken_rules(), vec![0, 2]);
    let found = engine.evaluate(&meta("/var/app.log", 1, 0, false, false), 0);
    assert!(matches!(found, Some((1, Action::Delete))));
}

#[test]
fn first_enabled_match_wins() {
    let mut ext = Condition::any();
    ext.extension = Some("tmp".to_string());
    let mut rules = vec![
        rule("first", ext.clone(), Action::Delete),
        rule("second", ext.clone(), Action::Trash),
        rule("third", Condition::any(), Action::Nothing),
    ];
    let m = meta("/d/a.tmp", 10, 0, false, false);
    assert!(matches!(evaluate(&m, &rules, 0), Some((0, Action::Delete))));
    rules[0].enabled = false;
    assert!(matches!(evaluate(&m, &rules, 0), Some((1, Action::Trash))));
    rules[1].enabled = false;
    assert!(matches!(evaluate(&m, &rules, 0), Some((2, Action::Nothing))));
    rules[2].enabled = false;
    assert!(evaluate(&m, &rules, 0).is_none());
    assert!(evaluate(&m, &Vec::new(), 0).is_none());
}

#[test]
fn rules_behind_the_match_do_not_matter() {
    let mut ext = Condition::any();
    ext.extension = Some("tmp".to_string());
    let m = meta("/d/a.tmp", 10, 0, false, false);
    let short = vec![rule("first", ext.clone(), Action::Delete)];
    let mut bad = Condition::any();
    bad.name_regex = Some("(".to_string());
    let long = vec![
        rule("first", ext, Action::Delete),
        rule("broken", bad, Action::Trash),
        rule("all", Condition::any(), Action::Nothing),
    ];
    assert!(matches!(evaluate(&m, &short, 0), Some((0, Action::Delete))));
    assert!(matches!(evaluate(&m, &long, 0), Some((0, Action::Delete))));
}

#[test]
fn directory_named_like_a_log_matches_the_directory_rule_only() {
    let mut dirs = Condition::any();
    dirs.is_directory = Some(true);
    let mut logs = Condition::any();
    logs.extension = Some("log".to_string());
    let rules = vec![rule("dirs", dirs, Action::Nothing), rule("logs", logs, Action::Delete)];
    let dir = meta("/var/archive.log", 4096, 0, true, false);
    assert!(matches!(evaluate(&dir, &rules, 0), Some((0, Action::Nothing))));
    let file = meta("/var/app.log", 12, 0, false, false);
    assert!(matches!(evaluate(&file, &rules, 0), Some((1, Action::Delete))));
}

#[test]
fn toggle_rule_flips_one_switch() {
    let mut engine = RuleEngine::new(vec![
        rule("a", Condition::any(), Action::Delete),
        rule("b", Condition::any(), Action::Trash),
    ]);
    assert!(engine.toggle_rule(0));
    assert!(!engine.rules()[0].enabled);
    assert!(engine.rules()[1].enabled);
    assert_eq!(engine.rules()[0].name, "a");
    assert!(engine.toggle_rule(0));
    assert!(engine.rules()[0].enabled);
    assert!(!engine.toggle_rule(2));
    assert_eq!(engine.len(), 2);
    engine.reload(Vec::new());
    assert_eq!(engine.len(), 0);
}

#[test]
fn dot_names_are_hidden() {
    assert!(hazelnut::rules::has_dot_name("/home/u/.bashrc"));
    assert!(hazelnut::rules::has_dot_name(".git"));
    assert!(!hazelnut::rules::has_dot_name("/home/.config/file"));
    assert!(!hazelnut::rules::has_dot_name("/home/u/"));
    assert!(!hazelnut::rules::has_dot_name("a.b"));
}
