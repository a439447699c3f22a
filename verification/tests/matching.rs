use shinydir::config::MatchRule;
use shinydir::fsmodel::{EntryKind, FsEntry};
use shinydir::rules::{compile_config_rules, FileMatchRule, FileType, MatchError, RuleError};

fn file_entry(name: &str, path: &str) -> FsEntry {
    FsEntry {
        name: String::from(name),
        path: String::from(path),
        kind: Some(EntryKind::File),
        children: None,
    }
}

fn dir_entry(name: &str, path: &str, children: Vec<FsEntry>) -> FsEntry {
    FsEntry {
        name: String::from(name),
        path: String::from(path),
        kind: Some(EntryKind::Directory),
        children: Some(children),
    }
}

fn unreadable_entry(name: &str, path: &str) -> FsEntry {
    FsEntry { name: String::from(name), path: String::from(path), kind: None, children: None }
}

#[test]
fn empty_merge_and_matches_everything() {
    let rule = FileMatchRule::MergeAnd(Vec::new());
    let file = file_entry("a.txt", "d/a.txt");
    let dir = dir_entry("sub", "d/sub", Vec::new());
    let unreadable = unreadable_entry("ghost", "d/ghost");
    assert!(matches!(rule.matches_dir_entry(&file), Ok(true)));
    assert!(matches!(rule.matches_dir_entry(&dir), Ok(true)));
    assert!(matches!(rule.matches_dir_entry(&unreadable), Ok(true)));
}

#[test]
fn empty_merge_or_matches_everything() {
    let rule = FileMatchRule::MergeOr(Vec::new());
    let file = file_entry("a.txt", "d/a.txt");
    assert!(matches!(rule.matches_dir_entry(&file), Ok(true)));
}

#[test]
fn match_none_matches_nothing() {
    let rule = FileMatchRule::MatchNone;
    let file = file_entry("a.txt", "d/a.txt");
    assert!(matches!(rule.matches_dir_entry(&file), Ok(false)));
}

#[test]
fn merge_or_is_disjunction_of_children() {
    let never = FileMatchRule::MatchNone;
    let is_file = FileMatchRule::Type(FileType::File);
    let file = file_entry("a.txt", "d/a.txt");
    let dir = dir_entry("sub", "d/sub", Vec::new());

    let both_false = FileMatchRule::MergeOr(vec![FileMatchRule::MatchNone, FileMatchRule::MatchNone]);
    assert!(matches!(both_false.matches_dir_entry(&file), Ok(false)));

    let second_true = FileMatchRule::MergeOr(vec![never, is_file]);
    assert!(matches!(second_true.matches_dir_entry(&file), Ok(true)));
    assert!(matches!(second_true.matches_dir_entry(&dir), Ok(false)));

    let first_true = FileMatchRule::MergeOr(vec![
        FileMatchRule::Type(FileType::File),
        FileMatchRule::MatchNone,
    ]);
    assert!(matches!(first_true.matches_dir_entry(&file), Ok(true)));
}

#[test]
fn merge_and_needs_every_child() {
    let rule = FileMatchRule::MergeAnd(vec![
        FileMatchRule::Type(FileType::File),
        FileMatchRule::MatchNone,
    ]);
    let file = file_entry("a.txt", "d/a.txt");
    assert!(matches!(rule.matches_dir_entry(&file), Ok(false)));

    let rule_all = FileMatchRule::MergeAnd(vec![
        FileMatchRule::Type(FileType::File),
        FileMatchRule::MergeOr(Vec::new()),
    ]);
    assert!(matches!(rule_all.matches_dir_entry(&file), Ok(true)));
}

#[test]
fn type_rule_follows_resolved_kind() {
    let want_dir = FileMatchRule::Type(FileType::Directory);
    let want_file = FileMatchRule::Type(FileType::File);
    let file = file_entry("a.txt", "d/a.txt");
    let dir = dir_entry("sub", "d/sub", Vec::new());
    assert!(matches!(want_dir.matches_dir_entry(&dir), Ok(true)));
    assert!(matches!(want_dir.matches_dir_entry(&file), Ok(false)));
    assert!(matches!(want_file.matches_dir_entry(&file), Ok(true)));
    assert!(matches!(want_file.matches_dir_entry(&dir), Ok(false)));
}

#[test]
fn type_rule_on_unreadable_metadata_errors() {
    let rule = FileMatchRule::Type(FileType::File);
    let unreadable = unreadable_entry("ghost", "d/ghost");
    assert!(matches!(
        rule.matches_dir_entry(&unreadable),
        Err(MatchError::MetadataUnavailable)
    ));
}

#[test]
fn short_circuit_or_skips_failing_type_check() {
    // The left child decides before the right child is consulted: the
    // right child alone would error on unreadable metadata.
    let rule = FileMatchRule::MergeOr(vec![
        FileMatchRule::MergeOr(Vec::new()),
        FileMatchRule::Type(FileType::File),
    ]);
    let unreadable = unreadable_entry("ghost", "d/ghost");
    assert!(matches!(rule.matches_dir_entry(&unreadable), Ok(true)));
}

#[test]
fn compile_empty_rule_list_allows_nothing() {
    let compiled = compile_config_rules(&Vec::new()).unwrap();
    let file = file_entry("anything", "d/anything");
    assert!(matches!(compiled.matches_dir_entry(&file), Ok(false)));
}

#[test]
fn compile_name_literal_is_anchored() {
    let rules = vec![MatchRule::Name { name: String::from("keep") }];
    let compiled = compile_config_rules(&rules).unwrap();
    assert!(matches!(
        compiled.matches_dir_entry(&file_entry("keep", "d/keep")),
        Ok(true)
    ));
    assert!(matches!(
        compiled.matches_dir_entry(&file_entry("keep.txt", "d/keep.txt")),
        Ok(false)
    ));
    assert!(matches!(
        compiled.matches_dir_entry(&file_entry("xkeep", "d/xkeep")),
        Ok(false)
    ));
}

#[test]
fn compile_escapes_name_literals() {
    // A dot in a name literal matches only a literal dot, not any
    // character: "a.b" must not match "axb".
    let rules = vec![MatchRule::Name { name: String::from("a.b") }];
    let compiled = compile_config_rules(&rules).unwrap();
    assert!(matches!(
        compiled.matches_dir_entry(&file_entry("a.b", "d/a.b")),
        Ok(true)
    ));
    assert!(matches!(
        compiled.matches_dir_entry(&file_entry("axb", "d/axb")),
        Ok(false)
    ));
}

#[test]
fn compile_extension_matches_suffix_only() {
    let rules = vec![MatchRule::Extension { ext: String::from("txt") }];
    let compiled = compile_config_rules(&rules).unwrap();
    assert!(matches!(
        compiled.matches_dir_entry(&file_entry("a.txt", "d/a.txt")),
        Ok(true)
    ));
    assert!(matches!(
        compiled.matches_dir_entry(&file_entry("a.bin", "d/a.bin")),
        Ok(false)
    ));
    assert!(matches!(
        compiled.matches_dir_entry(&file_entry("txt", "d/txt")),
        Ok(false)
    ));
    assert!(matches!(
        compiled.matches_dir_entry(&file_entry("b.txt.gz", "d/b.txt.gz")),
        Ok(false)
    ));
}

#[test]
fn compile_raw_pattern_is_used_verbatim() {
    let rules = vec![MatchRule::Pattern { pattern: String::from("^IMG_[0-9]+$") }];
    let compiled = compile_config_rules(&rules).unwrap();
    assert!(matches!(
        compiled.matches_dir_entry(&file_entry("IMG_0042", "d/IMG_0042")),
        Ok(true)
    ));
    assert!(matches!(
        compiled.matches_dir_entry(&file_entry("IMG_", "d/IMG_")),
        Ok(false)
    ));
}

#[test]
fn compile_mixes_names_extensions_and_patterns() {
    let rules = vec![
        MatchRule::Name { name: String::from("README") },
        MatchRule::Extension { ext: String::from("md") },
        MatchRule::Pattern { pattern: String::from("^draft-") },
    ];
    let compiled = compile_config_rules(&rules).unwrap();
    assert!(matches!(
        compiled.matches_dir_entry(&file_entry("README", "d/README")),
        Ok(true)
    ));
    assert!(matches!(
        compiled.matches_dir_entry(&file_entry("notes.md", "d/notes.md")),
        Ok(true)
    ));
    assert!(matches!(
        compiled.matches_dir_entry(&file_entry("draft-plan", "d/draft-plan")),
        Ok(true)
    ));
    assert!(matches!(
        compiled.matches_dir_entry(&file_entry("other.bin", "d/other.bin")),
        Ok(false)
    ));
}

#[test]
fn compile_rejects_invalid_raw_pattern() {
    let rules = vec![MatchRule::Pattern { pattern: String::from("(") }];
    let result = compile_config_rules(&rules);
    assert!(matches!(result, Err(RuleError::InvalidPattern)));
}

#[test]
fn compile_twice_gives_identical_matching_behavior() {
    let rules = vec![
        MatchRule::Name { name: String::from("keep") },
        MatchRule::Extension { ext: String::from("txt") },
        MatchRule::Pattern { pattern: String::from("^tmp") },
    ];
    let first = compile_config_rules(&rules).unwrap();
    let second = compile_config_rules(&rules).unwrap();
    let names = ["keep", "keep.txt", "tmp123", "xkeep", "a.bin", "", "txt"];
    for name in names.iter() {
        let entry = file_entry(name, name);
        let a = matches!(first.matches_dir_entry(&entry), Ok(true));
        let b = matches!(second.matches_dir_entry(&entry), Ok(true));
        assert_eq!(a, b);
    }
}
