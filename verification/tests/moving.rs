use shinydir::automove::{
    after_create_parent, after_rename, command_output_to_filename, decide_move, from_config,
    move_begin, AutoMove, AutoMoveError, AutoMoveResult, AutoMoveRule, MoveBegin, MoveDecision,
    RuleInput, ScriptOutcome,
};
use shinydir::config::{
    AutoMoveConfig, AutoMoveReportInfo, Config, MatchRule, Settings,
};
use shinydir::fsmodel::{DirListing, EntryKind, FsEntry};
use shinydir::rules::compile_config_rules;

fn file_entry(name: &str, path: &str) -> FsEntry {
    FsEntry {
        name: String::from(name),
        path: String::from(path),
        kind: Some(EntryKind::File),
        children: None,
    }
}

fn unreadable_entry(name: &str, path: &str) -> FsEntry {
    FsEntry { name: String::from(name), path: String::from(path), kind: None, children: None }
}

fn pdf_rule(to: &str, to_script: Option<&str>) -> AutoMoveRule {
    let match_rules =
        compile_config_rules(&vec![MatchRule::Extension { ext: String::from("pdf") }]).unwrap();
    AutoMoveRule {
        custom_name: None,
        directory: String::from("in"),
        match_rules,
        to: String::from(to),
        to_script: to_script.map(String::from),
    }
}

#[test]
fn test_output_to_filename() {
    assert_eq!(b"hello".to_vec(), command_output_to_filename(b"  hello \n"));
    assert_eq!("h\u{e9}".as_bytes().to_vec(), command_output_to_filename(b"h\xC3\xA9"));
}

#[test]
fn output_trimming_edge_cases() {
    assert_eq!(b"".to_vec(), command_output_to_filename(b""));
    assert_eq!(b"".to_vec(), command_output_to_filename(b" \t\r\n"));
    assert_eq!(b"a b".to_vec(), command_output_to_filename(b"a b"));
    assert_eq!(b"a \t b".to_vec(), command_output_to_filename(b"\x0Ca \t b\x0C"));
}

#[test]
fn planned_entry_without_script_keeps_filename() {
    let rule = pdf_rule("out/", None);
    let listing = DirListing::Entries(vec![file_entry("report.pdf", "in/report.pdf")]);
    let result = rule.run(&listing, &Vec::new());
    match result {
        AutoMoveResult::Planned { entries } => {
            assert_eq!(entries.len(), 1);
            let entry = entries[0].as_ref().unwrap();
            assert_eq!(entry.file, String::from("in/report.pdf"));
            assert_eq!(entry.move_to, String::from("out/report.pdf"));
            assert!(matches!(entry.file_metadata, EntryKind::File));
        }
        _ => panic!("expected planned entries"),
    }
}

#[test]
fn planned_entry_with_script_joins_relative_output() {
    let rule = pdf_rule("out", Some("rename.sh"));
    let listing = DirListing::Entries(vec![file_entry("report.pdf", "in/report.pdf")]);
    let outcomes = vec![ScriptOutcome::Output(b"2024/report.pdf\n".to_vec())];
    let result = rule.run(&listing, &outcomes);
    match result {
        AutoMoveResult::Planned { entries } => {
            assert_eq!(entries.len(), 1);
            let entry = entries[0].as_ref().unwrap();
            assert_eq!(entry.move_to, String::from("out/2024/report.pdf"));
        }
        _ => panic!("expected planned entries"),
    }
}

#[test]
fn planned_entry_with_absolute_script_output_ignores_destination() {
    let rule = pdf_rule("out", Some("rename.sh"));
    let listing = DirListing::Entries(vec![file_entry("report.pdf", "in/report.pdf")]);
    let outcomes = vec![ScriptOutcome::Output(b"/archive/report.pdf\n".to_vec())];
    let result = rule.run(&listing, &outcomes);
    match result {
        AutoMoveResult::Planned { entries } => {
            let entry = entries[0].as_ref().unwrap();
            assert_eq!(entry.move_to, String::from("/archive/report.pdf"));
        }
        _ => panic!("expected planned entries"),
    }
}

#[test]
fn failed_script_spawn_becomes_entry_error_and_siblings_continue() {
    let rule = pdf_rule("out", Some("rename.sh"));
    let listing = DirListing::Entries(vec![
        file_entry("a.pdf", "in/a.pdf"),
        file_entry("b.pdf", "in/b.pdf"),
    ]);
    let outcomes = vec![
        ScriptOutcome::SpawnFailed(String::from("no such file")),
        ScriptOutcome::Output(b"b-renamed.pdf".to_vec()),
    ];
    let result = rule.run(&listing, &outcomes);
    match result {
        AutoMoveResult::Planned { entries } => {
            assert_eq!(entries.len(), 2);
            match entries[0].as_ref().unwrap_err() {
                AutoMoveError::ScriptFailed { file, script, message } => {
                    assert_eq!(file, &String::from("a.pdf"));
                    assert_eq!(script, &String::from("rename.sh"));
                    assert_eq!(message, &String::from("no such file"));
                }
                _ => panic!("expected a script failure"),
            }
            let second = entries[1].as_ref().unwrap();
            assert_eq!(second.move_to, String::from("out/b-renamed.pdf"));
        }
        _ => panic!("expected planned entries"),
    }
}

#[test]
fn non_matching_entries_are_skipped_entirely() {
    let rule = pdf_rule("out", None);
    let listing = DirListing::Entries(vec![
        file_entry("notes.txt", "in/notes.txt"),
        file_entry("report.pdf", "in/report.pdf"),
        unreadable_entry("ghost.pdf", "in/ghost.pdf"),
    ]);
    let result = rule.run(&listing, &Vec::new());
    match result {
        AutoMoveResult::Planned { entries } => {
            assert_eq!(entries.len(), 1);
            assert_eq!(entries[0].as_ref().unwrap().file, String::from("in/report.pdf"));
            // The cheap count agrees with the materialized plan.
            assert_eq!(rule.count_move(&listing), entries.len());
        }
        _ => panic!("expected planned entries"),
    }
}

#[test]
fn unlistable_source_directory_is_reported() {
    let rule = pdf_rule("out", None);
    assert!(matches!(rule.run(&DirListing::Missing, &Vec::new()), AutoMoveResult::DirDoesNotExist));
    assert!(matches!(
        rule.run(&DirListing::Unreadable, &Vec::new()),
        AutoMoveResult::DirDoesNotExist
    ));
}

#[test]
fn candidate_paths_lists_matching_entries_in_order() {
    let rule = pdf_rule("out", Some("rename.sh"));
    let listing = DirListing::Entries(vec![
        file_entry("a.pdf", "in/a.pdf"),
        file_entry("skip.txt", "in/skip.txt"),
        file_entry("b.pdf", "in/b.pdf"),
    ]);
    let paths = rule.candidate_paths(&listing);
    assert_eq!(paths, vec![String::from("in/a.pdf"), String::from("in/b.pdf")]);
}

#[test]
fn would_move_stops_at_first_match() {
    let rule = pdf_rule("out", None);
    // The first matching entry has unreadable metadata, so nothing is
    // reported as movable even though a later entry could move.
    let listing = DirListing::Entries(vec![
        unreadable_entry("broken.pdf", "in/broken.pdf"),
        file_entry("good.pdf", "in/good.pdf"),
    ]);
    assert!(!rule.would_move(&listing));
    assert_eq!(rule.count_move(&listing), 1);

    let listing_good_first = DirListing::Entries(vec![
        file_entry("good.pdf", "in/good.pdf"),
        unreadable_entry("broken.pdf", "in/broken.pdf"),
    ]);
    assert!(rule.would_move(&listing_good_first));
}

#[test]
fn display_name_prefers_custom_name() {
    let mut rule = pdf_rule("out", None);
    assert_eq!(rule.display_name(), String::from("in"));
    rule.custom_name = Some(String::from("Documents"));
    assert_eq!(rule.display_name(), String::from("Documents"));
}

#[test]
fn automove_run_respects_scope() {
    let inside = AutoMoveRule { directory: String::from("/a/in"), ..pdf_rule("out", None) };
    let outside = AutoMoveRule { directory: String::from("/b/in"), ..pdf_rule("out", None) };
    let automove = AutoMove { parent: Some(String::from("/a")), rules: vec![inside, outside] };
    let inputs = vec![RuleInput {
        listing: DirListing::Entries(vec![file_entry("x.pdf", "/a/in/x.pdf")]),
        script_outcomes: Vec::new(),
    }];
    let results = automove.run(&inputs);
    assert_eq!(results.len(), 1);
    match &results[0] {
        AutoMoveResult::Planned { entries } => {
            assert_eq!(entries.len(), 1);
            assert_eq!(entries[0].as_ref().unwrap().move_to, String::from("out/x.pdf"));
        }
        _ => panic!("expected planned entries"),
    }
}

#[test]
fn automove_counts_across_rules() {
    let first = pdf_rule("out", None);
    let second = AutoMoveRule { directory: String::from("in2"), ..pdf_rule("out2", None) };
    let automove = AutoMove { parent: None, rules: vec![first, second] };
    let listings = vec![
        DirListing::Entries(vec![
            file_entry("a.pdf", "in/a.pdf"),
            file_entry("b.pdf", "in/b.pdf"),
        ]),
        DirListing::Entries(vec![file_entry("c.pdf", "in2/c.pdf")]),
    ];
    assert_eq!(automove.count_move(&listings), 3);
    assert!(automove.would_move_any(&listings));

    let empty_listings = vec![DirListing::Missing, DirListing::Entries(Vec::new())];
    assert_eq!(automove.count_move(&empty_listings), 0);
    assert!(!automove.would_move_any(&empty_listings));
}

#[test]
fn overwrite_guard_blocks_existing_destination() {
    let decision = decide_move(false, false, Ok(true), &String::from("out/report.pdf"));
    match decision {
        MoveDecision::Fail(AutoMoveError::WouldOverwrite { path }) => {
            assert_eq!(path, String::from("out/report.pdf"));
        }
        _ => panic!("expected a would-overwrite failure"),
    }
    assert!(matches!(
        decide_move(false, true, Ok(true), &String::from("out/report.pdf")),
        MoveDecision::DoRename
    ));
}

#[test]
fn failed_existence_check_blocks_the_move() {
    let decision = decide_move(false, true, Err(String::from("io error")), &String::from("d"));
    match decision {
        MoveDecision::Fail(AutoMoveError::ExistsCheckFailed { path, message }) => {
            assert_eq!(path, String::from("d"));
            assert_eq!(message, String::from("io error"));
        }
        _ => panic!("expected an existence-check failure"),
    }
}

#[test]
fn dry_run_never_creates_or_renames() {
    assert!(matches!(move_begin(true), MoveBegin::CheckExistsFirst));
    assert!(matches!(move_begin(false), MoveBegin::CreateParentFirst));
    assert!(matches!(
        decide_move(true, false, Ok(false), &String::from("d")),
        MoveDecision::ReportSuccess
    ));
    assert!(matches!(
        decide_move(false, false, Ok(false), &String::from("d")),
        MoveDecision::DoRename
    ));
    // Even with overwriting allowed and the destination present, a dry
    // run only reports.
    assert!(matches!(
        decide_move(true, true, Ok(true), &String::from("d")),
        MoveDecision::ReportSuccess
    ));
}

#[test]
fn create_and_rename_failures_become_entry_errors() {
    assert!(after_create_parent(&String::from("out"), Ok(())).is_none());
    match after_create_parent(&String::from("out"), Err(String::from("denied"))) {
        Some(AutoMoveError::CreateDirFailed { path, message }) => {
            assert_eq!(path, String::from("out"));
            assert_eq!(message, String::from("denied"));
        }
        _ => panic!("expected a create-dir failure"),
    }
    assert!(after_rename(&String::from("a"), &String::from("b"), Ok(())).is_ok());
    match after_rename(&String::from("a"), &String::from("b"), Err(String::from("busy"))) {
        Err(AutoMoveError::RenameFailed { from, to, message }) => {
            assert_eq!(from, String::from("a"));
            assert_eq!(to, String::from("b"));
            assert_eq!(message, String::from("busy"));
        }
        _ => panic!("expected a rename failure"),
    }
}

#[test]
fn from_config_builds_rules_with_expanded_script_path() {
    let config = Config {
        settings: Settings { color: false, unicode: false, hide_ok_directories: false },
        directories: Vec::new(),
        automove: AutoMoveConfig {
            script_warning: false,
            report_info: AutoMoveReportInfo::No,
            force_dry_run: false,
            allow_overwrite: false,
            rules: vec![
                shinydir::config::AutoMoveRule {
                    name: Some(String::from("Docs")),
                    parent: String::from("in"),
                    match_rules: vec![MatchRule::Extension { ext: String::from("pdf") }],
                    to: String::from("out"),
                    to_script: Some(String::from("rename.sh")),
                },
                shinydir::config::AutoMoveRule {
                    name: None,
                    parent: String::from("in2"),
                    match_rules: vec![MatchRule::Name { name: String::from("x") }],
                    to: String::from("out2"),
                    to_script: Some(String::from("/abs/rename.sh")),
                },
            ],
        },
    };
    let automove = from_config(&config, "/etc/shiny", None).unwrap();
    assert_eq!(automove.rules.len(), 2);
    assert_eq!(automove.rules[0].custom_name, Some(String::from("Docs")));
    assert_eq!(automove.rules[0].to_script, Some(String::from("/etc/shiny/rename.sh")));
    assert_eq!(automove.rules[1].custom_name, None);
    assert_eq!(automove.rules[1].to_script, Some(String::from("/abs/rename.sh")));
}

#[test]
fn from_config_sorts_rules_by_display_name() {
    let config = Config {
        settings: Settings { color: false, unicode: false, hide_ok_directories: false },
        directories: Vec::new(),
        automove: AutoMoveConfig {
            script_warning: false,
            report_info: AutoMoveReportInfo::No,
            force_dry_run: false,
            allow_overwrite: false,
            rules: vec![
                shinydir::config::AutoMoveRule {
                    name: Some(String::from("beta")),
                    parent: String::from("in"),
                    match_rules: vec![MatchRule::Extension { ext: String::from("pdf") }],
                    to: String::from("out"),
                    to_script: None,
                },
                shinydir::config::AutoMoveRule {
                    name: Some(String::from("alpha")),
                    parent: String::from("in2"),
                    match_rules: vec![MatchRule::Extension { ext: String::from("pdf") }],
                    to: String::from("out2"),
                    to_script: None,
                },
            ],
        },
    };
    let automove = from_config(&config, "/etc/shiny", None).unwrap();
    assert_eq!(automove.rules.len(), 2);
    assert_eq!(automove.rules[0].display_name(), String::from("alpha"));
    assert_eq!(automove.rules[1].display_name(), String::from("beta"));
    assert_eq!(automove.rules[0].to, String::from("out2"));
    assert_eq!(automove.rules[1].to, String::from("out"));
}
