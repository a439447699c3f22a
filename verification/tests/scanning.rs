use shinydir::checker::{from_config, Checker, CheckerResult, DirectoryChecker};
use shinydir::config::{
    AutoMoveConfig, AutoMoveReportInfo, Config, DirectoryConfig, MatchRule, Settings,
};
use shinydir::fsmodel::{DirListing, EntryKind, FsEntry};

fn file_entry(name: &str, path: &str) -> FsEntry {
    FsEntry {
        name: String::from(name),
        path: String::from(path),
        kind: Some(EntryKind::File),
        children: None,
    }
}

fn dir_entry(name: &str, path: &str, children: Vec<FsEntry>) -> FsEntry {
    FsEntry {
        name: String::from(name),
        path: String::from(path),
        kind: Some(EntryKind::Directory),
        children: Some(children),
    }
}

fn unreadable_entry(name: &str, path: &str) -> FsEntry {
    FsEntry { name: String::from(name), path: String::from(path), kind: None, children: None }
}

fn settings() -> Settings {
    Settings { color: false, unicode: false, hide_ok_directories: true }
}

fn automove_config() -> AutoMoveConfig {
    AutoMoveConfig {
        script_warning: false,
        report_info: AutoMoveReportInfo::Count,
        force_dry_run: false,
        allow_overwrite: false,
        rules: Vec::new(),
    }
}

fn config_with_dir(path: &str, dir: DirectoryConfig) -> Config {
    Config {
        settings: settings(),
        directories: vec![(String::from(path), dir)],
        automove: automove_config(),
    }
}

fn dir_config_allowed_files(rules: Vec<MatchRule>) -> DirectoryConfig {
    DirectoryConfig {
        recursive: false,
        recursive_ignore_children: Vec::new(),
        allowed_dirs: None,
        allowed_files: Some(rules),
    }
}

fn checker_for(path: &str, dir: DirectoryConfig) -> Checker {
    from_config(&config_with_dir(path, dir), None).unwrap()
}

#[test]
fn allowed_extension_yields_zero_issues() {
    let checker = checker_for(
        "D",
        dir_config_allowed_files(vec![MatchRule::Extension { ext: String::from("txt") }]),
    );
    let listing = DirListing::Entries(vec![file_entry("a.txt", "D/a.txt")]);
    let result = checker.directories[0].check(&listing);
    match result {
        CheckerResult::Checked(report) => {
            assert_eq!(report.path, String::from("D"));
            assert_eq!(report.issues.len(), 0);
        }
        _ => panic!("expected a report"),
    }
}

#[test]
fn disallowed_extension_yields_one_issue() {
    let checker = checker_for(
        "D",
        dir_config_allowed_files(vec![MatchRule::Extension { ext: String::from("txt") }]),
    );
    let listing = DirListing::Entries(vec![file_entry("a.bin", "D/a.bin")]);
    let result = checker.directories[0].check(&listing);
    match result {
        CheckerResult::Checked(report) => {
            assert_eq!(report.issues.len(), 1);
            assert_eq!(report.issues[0].path(), &String::from("D/a.bin"));
            assert!(matches!(report.issues[0].file_metadata(), EntryKind::File));
        }
        _ => panic!("expected a report"),
    }
}

#[test]
fn scanning_twice_yields_equal_issue_lists() {
    let checker = checker_for(
        "D",
        dir_config_allowed_files(vec![MatchRule::Extension { ext: String::from("txt") }]),
    );
    let entries = || {
        DirListing::Entries(vec![
            file_entry("a.bin", "D/a.bin"),
            file_entry("b.txt", "D/b.txt"),
            file_entry("c.log", "D/c.log"),
        ])
    };
    let first = checker.directories[0].check(&entries());
    let second = checker.directories[0].check(&entries());
    match (first, second) {
        (CheckerResult::Checked(a), CheckerResult::Checked(b)) => {
            assert_eq!(a.path, b.path);
            assert_eq!(a.issues.len(), b.issues.len());
            for (x, y) in a.issues.iter().zip(b.issues.iter()) {
                assert_eq!(x.path(), y.path());
            }
        }
        _ => panic!("expected two reports"),
    }
}

#[test]
fn missing_and_not_directory_are_reported_per_directory() {
    let checker = checker_for("D", dir_config_allowed_files(Vec::new()));
    let missing = checker.directories[0].check(&DirListing::Missing);
    assert!(matches!(missing, CheckerResult::MissingDirectory { .. }));
    let not_dir = checker.directories[0].check(&DirListing::NotDirectory);
    assert!(matches!(not_dir, CheckerResult::NotADirectory { .. }));
    let unreadable = checker.directories[0].check(&DirListing::Unreadable);
    assert!(matches!(unreadable, CheckerResult::NotADirectory { .. }));
}

#[test]
fn format_err_describes_each_result() {
    let report = CheckerResult::Checked(shinydir::checker::Report {
        path: String::from("D"),
        issues: Vec::new(),
    });
    assert_eq!(report.format_err(), String::from("Ok"));
    let missing = CheckerResult::MissingDirectory { path: String::from("D") };
    assert_eq!(missing.format_err(), String::from("Directory does not exist!"));
    assert_eq!(missing.path(), &String::from("D"));
    let not_dir = CheckerResult::NotADirectory { path: String::from("D") };
    assert_eq!(not_dir.format_err(), String::from("File is not a directory!"));
}

#[test]
fn unreadable_entries_are_silently_skipped() {
    let checker = checker_for(
        "D",
        dir_config_allowed_files(vec![MatchRule::Extension { ext: String::from("txt") }]),
    );
    let listing = DirListing::Entries(vec![
        unreadable_entry("ghost", "D/ghost"),
        file_entry("a.bin", "D/a.bin"),
    ]);
    let result = checker.directories[0].check(&listing);
    match result {
        CheckerResult::Checked(report) => {
            assert_eq!(report.issues.len(), 1);
            assert_eq!(report.issues[0].path(), &String::from("D/a.bin"));
        }
        _ => panic!("expected a report"),
    }
}

#[test]
fn recursive_scan_splices_child_issues_in_traversal_order() {
    let dir = DirectoryConfig {
        recursive: true,
        recursive_ignore_children: Vec::new(),
        allowed_dirs: None,
        allowed_files: Some(vec![MatchRule::Extension { ext: String::from("txt") }]),
    };
    let checker = checker_for("D", dir);
    let listing = DirListing::Entries(vec![
        file_entry("one.bin", "D/one.bin"),
        dir_entry(
            "sub",
            "D/sub",
            vec![file_entry("two.bin", "D/sub/two.bin"), file_entry("ok.txt", "D/sub/ok.txt")],
        ),
        file_entry("three.bin", "D/three.bin"),
    ]);
    let result = checker.directories[0].check(&listing);
    match result {
        CheckerResult::Checked(report) => {
            let paths: Vec<String> =
                report.issues.iter().map(|i| i.path().clone()).collect();
            assert_eq!(
                paths,
                vec![
                    String::from("D/one.bin"),
                    String::from("D/sub/two.bin"),
                    String::from("D/three.bin"),
                ]
            );
        }
        _ => panic!("expected a report"),
    }
}

#[test]
fn recursive_ignore_rule_prunes_whole_subtree() {
    let dir = DirectoryConfig {
        recursive: true,
        recursive_ignore_children: vec![MatchRule::Name { name: String::from("skipme") }],
        allowed_dirs: None,
        allowed_files: Some(vec![MatchRule::Extension { ext: String::from("txt") }]),
    };
    let checker = checker_for("D", dir);
    let listing = DirListing::Entries(vec![
        dir_entry("skipme", "D/skipme", vec![file_entry("bad.bin", "D/skipme/bad.bin")]),
        dir_entry("keep", "D/keep", vec![file_entry("bad.bin", "D/keep/bad.bin")]),
    ]);
    let result = checker.directories[0].check(&listing);
    match result {
        CheckerResult::Checked(report) => {
            let paths: Vec<String> =
                report.issues.iter().map(|i| i.path().clone()).collect();
            assert_eq!(paths, vec![String::from("D/keep/bad.bin")]);
        }
        _ => panic!("expected a report"),
    }
}

#[test]
fn non_recursive_scan_reports_disallowed_dirs_but_never_descends() {
    let dir = DirectoryConfig {
        recursive: false,
        recursive_ignore_children: Vec::new(),
        allowed_dirs: Some(Vec::new()),
        allowed_files: None,
    };
    let checker = checker_for("D", dir);
    let listing = DirListing::Entries(vec![dir_entry(
        "sub",
        "D/sub",
        vec![file_entry("inner.bin", "D/sub/inner.bin")],
    )]);
    let result = checker.directories[0].check(&listing);
    match result {
        CheckerResult::Checked(report) => {
            let paths: Vec<String> =
                report.issues.iter().map(|i| i.path().clone()).collect();
            assert_eq!(paths, vec![String::from("D/sub")]);
        }
        _ => panic!("expected a report"),
    }
}

#[test]
fn run_checks_only_directories_in_scope() {
    let config = Config {
        settings: settings(),
        directories: vec![
            (
                String::from("/a/x"),
                dir_config_allowed_files(vec![MatchRule::Extension { ext: String::from("txt") }]),
            ),
            (
                String::from("/b/y"),
                dir_config_allowed_files(vec![MatchRule::Extension { ext: String::from("txt") }]),
            ),
        ],
        automove: automove_config(),
    };
    let checker = from_config(&config, Some(String::from("/a"))).unwrap();
    let listings = vec![DirListing::Entries(vec![file_entry("z.bin", "/a/x/z.bin")])];
    let results = checker.run(&listings);
    assert_eq!(results.len(), 1);
    match &results[0] {
        CheckerResult::Checked(report) => {
            assert_eq!(report.path, String::from("/a/x"));
            assert_eq!(report.issues.len(), 1);
        }
        _ => panic!("expected a report"),
    }
}

#[test]
fn check_empty_fails_only_without_directories() {
    let empty_config = Config {
        settings: settings(),
        directories: Vec::new(),
        automove: automove_config(),
    };
    let checker = from_config(&empty_config, None).unwrap();
    assert!(checker.check_empty(&empty_config).is_err());

    let one = config_with_dir("D", dir_config_allowed_files(Vec::new()));
    let checker_one = from_config(&one, None).unwrap();
    assert!(checker_one.check_empty(&one).is_ok());
}

#[test]
fn from_config_rejects_bad_pattern() {
    let config = config_with_dir(
        "D",
        dir_config_allowed_files(vec![MatchRule::Pattern { pattern: String::from("(") }]),
    );
    assert!(from_config(&config, None).is_err());
}

#[test]
fn manual_directory_checker_matches_config_built_one() {
    let compiled = shinydir::rules::compile_config_rules(&vec![MatchRule::Extension {
        ext: String::from("txt"),
    }])
    .unwrap();
    let manual = DirectoryChecker {
        path: String::from("D"),
        rules: shinydir::rules::FileMatchRule::MergeOr(vec![
            shinydir::rules::FileMatchRule::MergeAnd(vec![shinydir::rules::FileMatchRule::Type(
                shinydir::rules::FileType::Directory,
            )]),
            shinydir::rules::FileMatchRule::MergeAnd(vec![
                shinydir::rules::FileMatchRule::Type(shinydir::rules::FileType::File),
                compiled,
            ]),
        ]),
        recursive: false,
        recursive_ignore_rules: shinydir::rules::FileMatchRule::MatchNone,
    };
    let built = checker_for(
        "D",
        dir_config_allowed_files(vec![MatchRule::Extension { ext: String::from("txt") }]),
    );
    let listing = DirListing::Entries(vec![
        file_entry("a.bin", "D/a.bin"),
        file_entry("b.txt", "D/b.txt"),
        dir_entry("sub", "D/sub", Vec::new()),
    ]);
    let a = manual.check(&listing);
    let b = built.directories[0].check(&listing);
    match (a, b) {
        (CheckerResult::Checked(x), CheckerResult::Checked(y)) => {
            let xp: Vec<String> = x.issues.iter().map(|i| i.path().clone()).collect();
            let yp: Vec<String> = y.issues.iter().map(|i| i.path().clone()).collect();
            assert_eq!(xp, yp);
            assert_eq!(xp, vec![String::from("D/a.bin")]);
        }
        _ => panic!("expected two reports"),
    }
}

#[test]
fn from_config_rejects_unexpandable_path() {
    let config = config_with_dir(
        "${SHINYDIR_TEST_SURELY_UNDEFINED_VARIABLE}/docs",
        dir_config_allowed_files(Vec::new()),
    );
    assert!(matches!(
        from_config(&config, None),
        Err(shinydir::config::ConfigError::ExpansionFailed)
    ));
}
