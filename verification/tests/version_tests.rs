use hazelnut::paths::{expand_with_home, join_paths};
use hazelnut::{
    check_release_body, check_release_field, check_release_tag, expand_path, network_failure,
    version_is_newer, PackageManager, VersionCheck,
};

#[test]
fn newer_versions_are_recognised() {
    assert!(version_is_newer("1.0.1", "1.0.0"));
    assert!(version_is_newer("1.1.0", "1.0.9"));
    assert!(version_is_newer("2.0.0", "1.9.9"));
    assert!(version_is_newer("0.10.0", "0.9.0"));
    assert!(!version_is_newer("1.0.0", "1.0.0"));
    assert!(!version_is_newer("1.0.0", "1.0.1"));
    assert!(!version_is_newer("0.9.9", "1.0.0"));
}

#[test]
fn missing_numbers_count_as_zero() {
    assert!(!version_is_newer("1", "1.0.0"));
    assert!(!version_is_newer("1.0.0", "1"));
    assert!(version_is_newer("1.0.1", "1"));
    assert!(version_is_newer("1.1", "1.0.5"));
    assert!(!version_is_newer("", ""));
    assert!(version_is_newer("1", ""));
}

#[test]
fn only_the_first_three_numbers_count() {
    assert!(!version_is_newer("1.2.3.4", "1.2.3.0"));
    assert!(!version_is_newer("1.2.3.9", "1.2.3"));
}

#[test]
fn parts_that_are_no_numbers_are_left_out() {
    assert!(version_is_newer("1.x.3", "1.2"));
    assert!(!version_is_newer("1.x.2", "1.2"));
    assert!(!version_is_newer("1.0.0", "1.0.0-beta"));
    assert!(version_is_newer("1.0.1", "1.0.0-beta"));
    assert!(version_is_newer("+2.0", "1.0"));
    assert!(!version_is_newer("-2.0", "1.0"));
    assert!(!version_is_newer("1. 5", "1.0"));
    assert!(version_is_newer("4294967295", "4294967294"));
    assert!(!version_is_newer("4294967296", "1"));
    assert!(!version_is_newer("99999999999999999999999", "1"));
    assert!(version_is_newer("007", "6"));
}

#[test]
fn release_tag_is_read_behind_its_v() {
    match check_release_tag("v1.2.0", "1.1.0") {
        VersionCheck::UpdateAvailable { latest, current } => {
            assert_eq!(latest, "1.2.0");
            assert_eq!(current, "1.1.0");
        }
        other => panic!("{:?}", other),
    }
    match check_release_tag("vv3.0", "1.1.0") {
        VersionCheck::UpdateAvailable { latest, .. } => assert_eq!(latest, "3.0"),
        other => panic!("{:?}", other),
    }
    assert!(matches!(check_release_tag("v1.1.0", "1.1.0"), VersionCheck::UpToDate));
    assert!(matches!(check_release_tag("1.0.0", "1.1.0"), VersionCheck::UpToDate));
    assert!(matches!(check_release_tag("", "1.1.0"), VersionCheck::UpToDate));
}

#[test]
fn release_field_decides_the_check() {
    let field: Result<Option<String>, String> = Ok(Some("v9.0.0".to_string()));
    assert!(matches!(
        check_release_field(&field, "1.0.0"),
        VersionCheck::UpdateAvailable { .. }
    ));
    let field: Result<Option<String>, String> = Ok(None);
    match check_release_field(&field, "1.0.0") {
        VersionCheck::CheckFailed(m) => assert_eq!(m, "Could not parse release info"),
        other => panic!("{:?}", other),
    }
    let field: Result<Option<String>, String> = Err("boom".to_string());
    match check_release_field(&field, "1.0.0") {
        VersionCheck::CheckFailed(m) => assert_eq!(m, "Failed to parse response: boom"),
        other => panic!("{:?}", other),
    }
}

#[test]
fn release_body_is_parsed() {
    let body = r#"{"name": "Release", "tag_name": "v2.0.0", "draft": false}"#;
    match check_release_body(body, "1.5.0") {
        VersionCheck::UpdateAvailable { latest, current } => {
            assert_eq!(latest, "2.0.0");
            assert_eq!(current, "1.5.0");
        }
        other => panic!("{:?}", other),
    }
    assert!(matches!(check_release_body(body, "2.0.0"), VersionCheck::UpToDate));
}

#[test]
fn release_body_without_a_tag_fails_the_check() {
    for body in [r#"{"name": "Release"}"#, r#"{"tag_name": 7}"#, r#"["tag_name"]"#, "null"] {
        match check_release_body(body, "1.0.0") {
            VersionCheck::CheckFailed(m) => assert_eq!(m, "Could not parse release info"),
            other => panic!("{:?}", other),
        }
    }
}

#[test]
fn release_body_that_is_no_json_fails_the_check() {
    match check_release_body("not json", "1.0.0") {
        VersionCheck::CheckFailed(m) => {
            assert!(m.starts_with("Failed to parse response: "));
            assert!(m.len() > "Failed to parse response: ".len());
        }
        other => panic!("{:?}", other),
    }
}

#[test]
fn network_failure_carries_the_detail() {
    match network_failure("timed out") {
        VersionCheck::CheckFailed(m) => assert_eq!(m, "Network error: timed out"),
        other => panic!("{:?}", other),
    }
}

#[test]
fn package_manager_names_and_commands() {
    assert_eq!(PackageManager::Cargo.name(), "cargo");
    assert_eq!(PackageManager::Homebrew.name(), "brew");
    assert_eq!(PackageManager::Cargo.update_command(), "cargo install hazelnut");
    assert_eq!(PackageManager::Homebrew.update_command(), "brew upgrade hazelnut");
    assert_eq!(PackageManager::Cargo.update_args(), vec!["install", "hazelnut"]);
    assert_eq!(PackageManager::Homebrew.update_args(), vec!["upgrade", "hazelnut"]);
    assert_eq!(PackageManager::detected(true), PackageManager::Homebrew);
    assert_eq!(PackageManager::detected(false), PackageManager::Cargo);
}

#[test]
fn paths_are_joined_with_one_separator() {
    assert_eq!(join_paths("/home/u", "docs"), "/home/u/docs");
    assert_eq!(join_paths("/home/u/", "docs"), "/home/u/docs");
    assert_eq!(join_paths("/home/u", "/etc"), "/etc");
    assert_eq!(join_paths("", "docs"), "docs");
    assert_eq!(join_paths("/home/u", ""), "/home/u/");
    assert_eq!(join_paths("/", "a"), "/a");
}

#[test]
fn home_is_expanded_where_it_is_named() {
    assert_eq!(expand_with_home("~/Invoices", Some("/home/u")), "/home/u/Invoices");
    assert_eq!(expand_with_home("~", Some("/home/u")), "/home/u");
    assert_eq!(expand_with_home("~/", Some("/home/u")), "/home/u/");
    assert_eq!(expand_with_home("~//etc", Some("/home/u")), "/etc");
    assert_eq!(expand_with_home("~user/x", Some("/home/u")), "~user/x");
    assert_eq!(expand_with_home("/abs/~/x", Some("/home/u")), "/abs/~/x");
    assert_eq!(expand_with_home("rel/x", Some("/home/u")), "rel/x");
    assert_eq!(expand_with_home("~/Invoices", None), "~/Invoices");
    assert_eq!(expand_with_home("~", None), "~");
}

#[test]
fn paths_that_do_not_name_home_stay() {
    assert_eq!(expand_path("/var/log"), "/var/log");
    assert_eq!(expand_path("relative/path"), "relative/path");
    assert_eq!(expand_path(""), "");
    let expanded = expand_path("~/x");
    assert!(expanded == "~/x" || expanded.ends_with("/x"));
}

#[test]
fn paths_that_name_home_are_recognised() {
    assert!(hazelnut::paths::starts_at_home("~"));
    assert!(hazelnut::paths::starts_at_home("~/"));
    assert!(hazelnut::paths::starts_at_home("~/x/y"));
    assert!(!hazelnut::paths::starts_at_home("~x"));
    assert!(!hazelnut::paths::starts_at_home(""));
    assert!(!hazelnut::paths::starts_at_home("/~/"));
    assert_eq!(hazelnut::VERSION, "0.1.0");
}
