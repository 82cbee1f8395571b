use hazelnut::actions::{
    check_destination, describe, expand_pattern, level_of, rename_target, resolve_collision,
    run_arguments, transfer_target, Failure, Outcome,
};
use hazelnut::event_log::LogLevel;
use hazelnut::rules::Action;

fn names(list: &[&str]) -> Vec<String> {
    list.iter().map(|s| s.to_string()).collect()
}

#[test]
fn free_name_is_kept() {
    assert_eq!(resolve_collision("file.txt", &names(&[])), "file.txt");
    assert_eq!(resolve_collision("file.txt", &names(&["other.txt", "file.tx"])), "file.txt");
}

#[test]
fn taken_name_gets_a_number_before_the_extension() {
    assert_eq!(resolve_collision("file.txt", &names(&["file.txt"])), "file (1).txt");
    assert_eq!(
        resolve_collision("file.txt", &names(&["file (1).txt", "file.txt"])),
        "file (2).txt"
    );
    assert_eq!(
        resolve_collision("file.txt", &names(&["file.txt", "file (2).txt"])),
        "file (1).txt"
    );
    assert_eq!(resolve_collision("a.tar.gz", &names(&["a.tar.gz"])), "a.tar (1).gz");
}

#[test]
fn names_without_extension_get_the_number_at_the_end() {
    assert_eq!(resolve_collision("README", &names(&["README"])), "README (1)");
    assert_eq!(resolve_collision(".bashrc", &names(&[".bashrc"])), ".bashrc (1)");
}

#[test]
fn numbers_go_past_nine() {
    let mut taken = vec!["f.txt".to_string()];
    for i in 1..=11 {
        taken.push(format!("f ({}).txt", i));
    }
    assert_eq!(resolve_collision("f.txt", &taken), "f (12).txt");
}

#[test]
fn two_files_of_one_name_end_up_apart() {
    let mut taken = names(&["report.pdf"]);
    let first = resolve_collision("report.pdf", &taken);
    taken.push(first.clone());
    let second = resolve_collision("report.pdf", &taken);
    assert_eq!(first, "report (1).pdf");
    assert_eq!(second, "report (2).pdf");
    assert_ne!(first, second);
    assert_ne!(first, "report.pdf");
    assert_ne!(second, "report.pdf");
}

#[test]
fn invoice_is_moved_and_its_namesake_numbered() {
    let mut taken: Vec<String> = Vec::new();
    let first = transfer_target("/home/u/Downloads/invoice_2024.pdf", "~/Invoices", &taken);
    assert_eq!(first, Some("~/Invoices/invoice_2024.pdf".to_string()));
    taken.push("invoice_2024.pdf".to_string());
    let second = transfer_target("/home/u/Desktop/invoice_2024.pdf", "~/Invoices", &taken);
    assert_eq!(second, Some("~/Invoices/invoice_2024 (1).pdf".to_string()));
}

#[test]
fn transfer_into_the_own_place_is_skipped() {
    assert_eq!(transfer_target("/data/in/a.txt", "/data/in", &names(&["a.txt"])), None);
    assert_eq!(transfer_target("/data/in/a.txt", "/data/in/", &names(&["a.txt"])), None);
    assert_eq!(
        transfer_target("/data/in/a.txt", "/data/out/", &names(&[])),
        Some("/data/out/a.txt".to_string())
    );
}

#[test]
fn rename_stays_in_the_directory() {
    assert_eq!(
        rename_target("/data/in/a.txt", "b.txt", &names(&["a.txt"])),
        Some("/data/in/b.txt".to_string())
    );
    assert_eq!(
        rename_target("/data/in/a.txt", "b.txt", &names(&["a.txt", "b.txt"])),
        Some("/data/in/b (1).txt".to_string())
    );
    assert_eq!(rename_target("/data/in/a.txt", "a.txt", &names(&["a.txt"])), None);
    assert_eq!(rename_target("/a.txt", "b.txt", &names(&[])), Some("/b.txt".to_string()));
    assert_eq!(rename_target("a.txt", "b.txt", &names(&[])), Some("b.txt".to_string()));
}

#[test]
fn pattern_tokens_are_filled_in() {
    assert_eq!(
        expand_pattern("{date}_{name}.{ext}", "report.pdf", "2024-03-01", 0),
        "2024-03-01_report.pdf"
    );
    assert_eq!(expand_pattern("{name}-{n}.{ext}", "a.b.txt", "", 12), "a.b-12.txt");
    assert_eq!(expand_pattern("plain", "x.y", "d", 1), "plain");
    assert_eq!(expand_pattern("{name}{name}", "x.y", "d", 1), "xx");
    assert_eq!(expand_pattern("{unknown}{ext", "x.y", "d", 1), "{unknown}{ext");
    assert_eq!(expand_pattern("", "x.y", "d", 1), "");
    assert_eq!(expand_pattern("{name}.{ext}", "README", "d", 1), "README.");
}

#[test]
fn filled_in_text_is_not_read_again() {
    assert_eq!(expand_pattern("{name}", "{ext}.txt", "d", 1), "{ext}");
    assert_eq!(expand_pattern("{date}", "a.txt", "{n}", 5), "{n}");
}

#[test]
fn run_arguments_get_the_path() {
    let args = names(&["--input", "{path}", "--label={name}", "{path}{path}"]);
    assert_eq!(
        run_arguments(&args, "/d/a.txt"),
        names(&["--input", "/d/a.txt", "--label=a.txt", "/d/a.txt/d/a.txt"])
    );
    assert!(run_arguments(&Vec::new(), "/d/a.txt").is_empty());
}

#[test]
fn outcome_decides_the_level() {
    let done = Outcome::Done(None);
    let moved = Outcome::Done(Some("/x".to_string()));
    let skipped = Outcome::Skipped("already there".to_string());
    let failed = Outcome::Failed(Failure::TimedOut);
    assert_eq!(level_of(&Action::Delete, &done), LogLevel::Success);
    assert_eq!(level_of(&Action::Trash, &moved), LogLevel::Success);
    assert_eq!(level_of(&Action::Nothing, &done), LogLevel::Info);
    assert_eq!(level_of(&Action::Delete, &skipped), LogLevel::Warning);
    assert_eq!(level_of(&Action::Nothing, &skipped), LogLevel::Warning);
    assert_eq!(level_of(&Action::Delete, &failed), LogLevel::Error);
    assert_eq!(level_of(&Action::Nothing, &failed), LogLevel::Error);
}

#[test]
fn messages_name_rule_file_and_outcome() {
    assert_eq!(describe("tmp", "/d/a.tmp", &Outcome::Done(None)), "tmp: /d/a.tmp");
    assert_eq!(
        describe("inv", "/d/i.pdf", &Outcome::Done(Some("/i/i.pdf".to_string()))),
        "inv: /d/i.pdf -> /i/i.pdf"
    );
    assert_eq!(
        describe("inv", "/d/i.pdf", &Outcome::Skipped("same place".to_string())),
        "inv: /d/i.pdf skipped: same place"
    );
    assert_eq!(
        describe("r", "/f", &Outcome::Failed(Failure::DestinationMissing)),
        "r: /f failed: destination directory does not exist"
    );
    assert_eq!(
        describe("r", "/f", &Outcome::Failed(Failure::TimedOut)),
        "r: /f failed: command timed out"
    );
    assert_eq!(
        describe("r", "/f", &Outcome::Failed(Failure::ExitStatus(3))),
        "r: /f failed: command exited with status 3"
    );
    assert_eq!(
        describe("r", "/f", &Outcome::Failed(Failure::ExitStatus(-15))),
        "r: /f failed: command exited with status -15"
    );
    assert_eq!(
        describe("r", "/f", &Outcome::Failed(Failure::ExitStatus(i32::MIN))),
        "r: /f failed: command exited with status -2147483648"
    );
    assert_eq!(
        describe("r", "/f", &Outcome::Failed(Failure::Io("permission denied".to_string()))),
        "r: /f failed: permission denied"
    );
}

#[test]
fn missing_destination_fails_unless_it_may_be_created() {
    assert!(matches!(check_destination(true, false), Ok(false)));
    assert!(matches!(check_destination(true, true), Ok(false)));
    assert!(matches!(check_destination(false, true), Ok(true)));
    assert!(matches!(check_destination(false, false), Err(Failure::DestinationMissing)));
}

#[test]
fn only_some_actions_take_the_file_away() {
    let mv = Action::Move { destination: "/x".to_string(), create_dirs: false };
    let cp = Action::Copy { destination: "/x".to_string(), create_dirs: false };
    let rn = Action::Rename { pattern: "{name}".to_string() };
    let run = Action::Run { command: "true".to_string(), args: Vec::new() };
    let ar = Action::Archive { destination: "/x".to_string() };
    assert!(hazelnut::actions::removes_source(&mv));
    assert!(hazelnut::actions::removes_source(&rn));
    assert!(hazelnut::actions::removes_source(&Action::Trash));
    assert!(hazelnut::actions::removes_source(&Action::Delete));
    assert!(!hazelnut::actions::removes_source(&cp));
    assert!(!hazelnut::actions::removes_source(&run));
    assert!(!hazelnut::actions::removes_source(&ar));
    assert!(!hazelnut::actions::removes_source(&Action::Nothing));
}

#[test]
fn exit_status_decides_the_outcome_of_a_command() {
    assert!(matches!(hazelnut::actions::outcome_of_exit(Some(0)), Outcome::Done(None)));
    assert!(matches!(
        hazelnut::actions::outcome_of_exit(Some(2)),
        Outcome::Failed(Failure::ExitStatus(2))
    ));
    assert!(matches!(
        hazelnut::actions::outcome_of_exit(Some(-7)),
        Outcome::Failed(Failure::ExitStatus(-7))
    ));
    assert!(matches!(
        hazelnut::actions::outcome_of_exit(None),
        Outcome::Failed(Failure::ExitStatus(-1))
    ));
}

#[test]
fn archives_are_named_after_the_file() {
    assert_eq!(hazelnut::actions::archive_name("report.pdf"), "report.pdf.tar.gz");
    assert_eq!(hazelnut::actions::archive_name(""), ".tar.gz");
}

#[test]
fn patterns_are_filled_in_for_a_file_and_a_moment() {
    assert_eq!(
        hazelnut::actions::fill_pattern("{date}/{name}_{n}.{ext}", "/d/report.pdf", 1_700_000_000),
        "2023-11-14/report_0.pdf"
    );
    assert_eq!(hazelnut::actions::fill_pattern("~/Invoices", "/d/i.pdf", 0), "~/Invoices");
    assert_eq!(hazelnut::actions::fill_pattern("{date}", "x", 86399), "1970-01-01");
}
