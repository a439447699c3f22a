//! The directory scanner: walks a snapshot of the configured directories,
//! applies each directory's rule to every entry, and produces a flat
//! report of the misplaced entries.
//!
//! The scan over one directory is specified by [`spec_check`]: a missing
//! or non-directory target is reported as such without aborting other
//! directories; an entry that cleanly fails the rule and has readable
//! metadata becomes a [`ReportIssue`]; an entry whose evaluation needed
//! unreadable metadata is silently skipped; and when the directory is
//! recursive, issues of sub-directories (except those pruned by the
//! ignore rule) are spliced into the parent's flat issue list in
//! traversal order.

use vstd::prelude::*;

use crate::config::{Config, ConfigError, DirectoryConfig};
use crate::fsmodel::{DirListing, EntryKind, FsEntry};
use crate::pathstr::{path_in_scope, spec_in_scope};
use crate::rules::{
    compile_config_rules, rule_view, spec_compile, spec_matches, FileMatchRule, FileType,
    MatchError, RuleView,
};

verus! {

/// All configured directory checks, restricted to an optional scope.
#[derive(Debug)]
pub struct Checker {
    /// Only directories lying under this path are checked, when present.
    pub parent: Option<String>,
    pub directories: Vec<DirectoryChecker>,
}

/// Checker configuration for a directory.
#[derive(Debug)]
pub struct DirectoryChecker {
    /// Path of the directory.
    pub path: String,
    /// Valid file rules. Any entry that doesn't match will be reported as
    /// misplaced.
    pub rules: FileMatchRule,
    /// Whether to check rules recursively.
    pub recursive: bool,
    /// Children directories to ignore when `recursive` is `true`.
    pub recursive_ignore_rules: FileMatchRule,
}

/// Result from attempting to check a directory.
#[derive(Debug)]
pub enum CheckerResult {
    /// The directory was checked and this is its report.
    Checked(Report),
    MissingDirectory { path: String },
    NotADirectory { path: String },
}

/// A report for a directory that was checked.
#[derive(Debug)]
pub struct Report {
    /// Path of the checked directory.
    pub path: String,
    /// Reported issues for the directory itself and children.
    pub issues: Vec<ReportIssue>,
}

/// A misplaced file.
#[derive(Debug)]
pub struct ReportIssue {
    /// Path of the misplaced file.
    pub path: String,
    /// Resolved kind of the file, captured at evaluation time.
    pub metadata: EntryKind,
}

/// The mathematical content of a [`ReportIssue`].
pub struct IssueView {
    pub path: Seq<char>,
    pub metadata: EntryKind,
}

impl View for ReportIssue {
    type V = IssueView;

    open spec fn view(&self) -> IssueView {
        IssueView { path: self.path@, metadata: self.metadata }
    }
}

impl DeepView for ReportIssue {
    type V = IssueView;

    open spec fn deep_view(&self) -> IssueView {
        self.view()
    }
}

/// The mathematical content of a [`Report`].
pub struct ReportView {
    pub path: Seq<char>,
    pub issues: Seq<IssueView>,
}

impl View for Report {
    type V = ReportView;

    open spec fn view(&self) -> ReportView {
        ReportView { path: self.path@, issues: self.issues.deep_view() }
    }
}

/// The mathematical content of a [`CheckerResult`].
pub enum CheckerResultView {
    Checked(ReportView),
    MissingDirectory { path: Seq<char> },
    NotADirectory { path: Seq<char> },
}

impl View for CheckerResult {
    type V = CheckerResultView;

    open spec fn view(&self) -> CheckerResultView {
        match self {
            CheckerResult::Checked(report) => CheckerResultView::Checked(report@),
            CheckerResult::MissingDirectory { path } => CheckerResultView::MissingDirectory {
                path: path@,
            },
            CheckerResult::NotADirectory { path } => CheckerResultView::NotADirectory {
                path: path@,
            },
        }
    }
}

impl DeepView for CheckerResult {
    type V = CheckerResultView;

    open spec fn deep_view(&self) -> CheckerResultView {
        self.view()
    }
}

// ------------------------------------------------------------------
// The meaning of a scan.
// ------------------------------------------------------------------
/// The issue an entry itself contributes: one issue exactly when the rule
/// cleanly rejects the entry and its resolved metadata is readable. An
/// entry whose evaluation needed unreadable metadata is skipped silently.
pub open spec fn spec_own_issue(rules: RuleView, e: FsEntry) -> Seq<IssueView> {
    if spec_matches(rules, e.name@, e.kind) == Some(false) && e.kind is Some {
        seq![IssueView { path: e.path@, metadata: e.kind->0 }]
    } else {
        Seq::empty()
    }
}

/// The issues one entry contributes: its own issue, followed by the
/// issues of its children when the scan is recursive, the entry is a
/// listable real directory, and the ignore rule does not prune it (an
/// ignore rule that fails to evaluate does not prune).
pub open spec fn spec_entry_issues(
    rules: RuleView,
    ignore: RuleView,
    recursive: bool,
    e: FsEntry,
) -> Seq<IssueView>
    decreases e, 1int, 0int,
{
    let own = spec_own_issue(rules, e);
    let sub = if recursive && e.children is Some && spec_matches(ignore, e.name@, e.kind)
        != Some(true) {
        spec_entries_issues(rules, ignore, recursive, e.children->0@, 0)
    } else {
        Seq::empty()
    };
    own + sub
}

/// The issues of the entries from index `i` on, concatenated in order.
pub open spec fn spec_entries_issues(
    rules: RuleView,
    ignore: RuleView,
    recursive: bool,
    es: Seq<FsEntry>,
    i: int,
) -> Seq<IssueView>
    decreases es, 0int, es.len() - i,
{
    if i < 0 || i >= es.len() {
        Seq::empty()
    } else {
        spec_entry_issues(rules, ignore, recursive, es[i]) + spec_entries_issues(
            rules,
            ignore,
            recursive,
            es,
            i + 1,
        )
    }
}

/// The result of checking one configured directory against what reading
/// it produced.
pub open spec fn spec_check(d: DirectoryChecker, l: DirListing) -> CheckerResultView {
    match l {
        DirListing::Missing => CheckerResultView::MissingDirectory { path: d.path@ },
        DirListing::NotDirectory => CheckerResultView::NotADirectory { path: d.path@ },
        DirListing::Unreadable => CheckerResultView::NotADirectory { path: d.path@ },
        DirListing::Entries(es) => CheckerResultView::Checked(
            ReportView {
                path: d.path@,
                issues: spec_entries_issues(
                    rule_view(d.rules),
                    rule_view(d.recursive_ignore_rules),
                    d.recursive,
                    es@,
                    0,
                ),
            },
        ),
    }
}

/// The view of [`FileMatchRule::test_from_dir_entry`]'s result.
pub open spec fn test_result_view(r: Result<Option<ReportIssue>, MatchError>) -> Result<
    Option<IssueView>,
    MatchError,
> {
    match r {
        Ok(Some(issue)) => Ok(Some(issue@)),
        Ok(None) => Ok(None),
        Err(e) => Err(e),
    }
}

/// What testing an entry must produce: no issue for a match, an issue
/// carrying the entry's path and resolved kind for a clean mismatch, and
/// an error when the metadata the test or the issue needs is unreadable.
pub open spec fn spec_test(rules: RuleView, e: FsEntry) -> Result<Option<IssueView>, MatchError> {
    match spec_matches(rules, e.name@, e.kind) {
        Some(true) => Ok(None),
        Some(false) => match e.kind {
            Some(k) => Ok(Some(IssueView { path: e.path@, metadata: k })),
            None => Err(MatchError::MetadataUnavailable),
        },
        None => Err(MatchError::MetadataUnavailable),
    }
}

impl FileMatchRule {
    /// Tests an entry against this rule, producing the issue to report
    /// when the entry is misplaced (see [`spec_test`]).
    pub fn test_from_dir_entry(&self, dir_entry: &FsEntry) -> (r: Result<
        Option<ReportIssue>,
        MatchError,
    >)
        ensures
            test_result_view(r) == spec_test(rule_view(*self), *dir_entry),
    {
        match self.matches_dir_entry(dir_entry) {
            Err(e) => Err(e),
            Ok(true) => Ok(None),
            Ok(false) => match dir_entry.kind {
                Some(k) => Ok(Some(ReportIssue { path: dir_entry.path.clone(), metadata: k })),
                None => Err(MatchError::MetadataUnavailable),
            },
        }
    }
}

/// Appends the issues of one entry (see [`spec_entry_issues`]).
#[verifier::loop_isolation(false)]
fn append_entry_issues(
    rules: &FileMatchRule,
    ignore: &FileMatchRule,
    recursive: bool,
    e: &FsEntry,
    issues: &mut Vec<ReportIssue>,
)
    ensures
        final(issues).deep_view() == old(issues).deep_view() + spec_entry_issues(
            rule_view(*rules),
            rule_view(*ignore),
            recursive,
            *e,
        ),
    decreases *e, 1int,
{
    let ghost dv0 = issues.deep_view();
    let ghost rv = rule_view(*rules);
    let ghost iv = rule_view(*ignore);
    match rules.test_from_dir_entry(e) {
        Ok(Some(issue)) => {
            issues.push(issue);
        },
        _ => {},
    }
    proof {
        assert(issues.deep_view() =~= dv0 + spec_own_issue(rv, *e));
    }
    if recursive {
        if let Some(children) = &e.children {
            let descend = match ignore.matches_dir_entry(e) {
                Ok(matched) => !matched,
                Err(_) => true,
            };
            if descend {
                proof {
                    assert(decreases_to!(*e => e.children));
                    assert(decreases_to!(e.children => *children));
                    assert(decreases_to!(*e => *children));
                }
                append_entries_issues(rules, ignore, recursive, children, issues);
                proof {
                    assert(issues.deep_view() =~= dv0 + (spec_own_issue(rv, *e)
                        + spec_entries_issues(rv, iv, recursive, children@, 0)));
                }
                return ;
            }
        }
    }
    proof {
        assert(issues.deep_view() =~= dv0 + (spec_own_issue(rv, *e) + Seq::<IssueView>::empty()));
    }
}

/// Appends the issues of the entries, in order (see
/// [`spec_entries_issues`]).
#[verifier::loop_isolation(false)]
fn append_entries_issues(
    rules: &FileMatchRule,
    ignore: &FileMatchRule,
    recursive: bool,
    entries: &Vec<FsEntry>,
    issues: &mut Vec<ReportIssue>,
)
    ensures
        final(issues).deep_view() == old(issues).deep_view() + spec_entries_issues(
            rule_view(*rules),
            rule_view(*ignore),
            recursive,
            entries@,
            0,
        ),
    decreases *entries, 0int,
{
    let ghost rv = rule_view(*rules);
    let ghost iv = rule_view(*ignore);
    let ghost dv0 = issues.deep_view();
    let mut i: usize = 0;
    while i < entries.len()
        invariant
            0 <= i <= entries.len(),
            dv0 + spec_entries_issues(rv, iv, recursive, entries@, 0) =~= issues.deep_view()
                + spec_entries_issues(rv, iv, recursive, entries@, i as int),
        decreases entries@.len() - i,
    {
        proof {
            assert(decreases_to!(*entries => entries[i as int]));
        }
        let ghost dv = issues.deep_view();
        append_entry_issues(rules, ignore, recursive, &entries[i], issues);
        proof {
            assert(issues.deep_view() + spec_entries_issues(rv, iv, recursive, entries@, i as int
                + 1) =~= dv + spec_entries_issues(rv, iv, recursive, entries@, i as int));
        }
        i += 1;
    }
    proof {
        assert(issues.deep_view() + Seq::<IssueView>::empty() =~= issues.deep_view());
    }
}

impl DirectoryChecker {
    /// Checks this directory against what reading it produced (see
    /// [`spec_check`]): a missing path or a non-directory is reported as
    /// such, an unreadable listing counts as not-a-directory, and a
    /// readable listing yields a flat report of the misplaced entries.
    pub fn check(&self, listing: &DirListing) -> (r: CheckerResult)
        ensures
            r@ == spec_check(*self, *listing),
    {
        match listing {
            DirListing::Missing => CheckerResult::MissingDirectory { path: self.path.clone() },
            DirListing::NotDirectory => CheckerResult::NotADirectory { path: self.path.clone() },
            DirListing::Unreadable => CheckerResult::NotADirectory { path: self.path.clone() },
            DirListing::Entries(entries) => {
                let mut issues: Vec<ReportIssue> = Vec::new();
                proof {
                    assert(issues.deep_view() =~= Seq::<IssueView>::empty());
                }
                append_entries_issues(
                    &self.rules,
                    &self.recursive_ignore_rules,
                    self.recursive,
                    entries,
                    &mut issues,
                );
                proof {
                    assert(Seq::<IssueView>::empty() + spec_entries_issues(
                        rule_view(self.rules),
                        rule_view(self.recursive_ignore_rules),
                        self.recursive,
                        entries@,
                        0,
                    ) =~= spec_entries_issues(
                        rule_view(self.rules),
                        rule_view(self.recursive_ignore_rules),
                        self.recursive,
                        entries@,
                        0,
                    ));
                }
                CheckerResult::Checked(Report { path: self.path.clone(), issues })
            },
        }
    }
}

// ------------------------------------------------------------------
// Selecting directories by scope, and running them all.
// ------------------------------------------------------------------
/// Whether a directory path lies in the optional scope.
pub open spec fn spec_scope_ok(parent: Option<String>, path: Seq<char>) -> bool {
    match parent {
        Some(p) => spec_in_scope(path, p@),
        None => true,
    }
}

/// The configured directories that lie in the scope, in order.
pub open spec fn spec_selected(ds: Seq<DirectoryChecker>, parent: Option<String>) -> Seq<
    DirectoryChecker,
>
    decreases ds.len(),
{
    if ds.len() == 0 {
        Seq::empty()
    } else {
        let pre = spec_selected(ds.subrange(0, ds.len() - 1), parent);
        if spec_scope_ok(parent, ds[ds.len() - 1].path@) {
            pre + seq![ds[ds.len() - 1]]
        } else {
            pre
        }
    }
}

/// A prefix of the directory list never selects more directories than the
/// whole list.
pub proof fn lemma_selected_prefix(ds: Seq<DirectoryChecker>, parent: Option<String>, j: int)
    requires
        0 <= j <= ds.len(),
    ensures
        spec_selected(ds.subrange(0, j), parent).len() <= spec_selected(ds, parent).len(),
    decreases ds.len() - j,
{
    if j == ds.len() {
        assert(ds.subrange(0, j) =~= ds);
    } else {
        lemma_selected_prefix(ds, parent, j + 1);
        let s1 = ds.subrange(0, j + 1);
        assert(s1.subrange(0, s1.len() - 1) =~= ds.subrange(0, j));
        assert(s1[s1.len() - 1] == ds[j]);
    }
}

impl Checker {
    /// Executes directory rules to get a list of misplaced files, one
    /// result per selected directory: a directory is selected exactly
    /// when its path lies in the scope, and `listings` holds what reading
    /// each selected directory produced, in order.
    #[verifier::loop_isolation(false)]
    pub fn run(&self, listings: &Vec<DirListing>) -> (r: Vec<CheckerResult>)
        requires
            listings@.len() == spec_selected(self.directories@, self.parent).len(),
        ensures
            r.deep_view().len() == listings@.len(),
            forall|t: int|
                0 <= t < listings@.len() ==> r.deep_view()[t] == spec_check(
                    spec_selected(self.directories@, self.parent)[t],
                    listings@[t],
                ),
    {
        let ghost ds = self.directories@;
        let n = listings.len();
        let mut results: Vec<CheckerResult> = Vec::new();
        let mut k: usize = 0;
        let mut j: usize = 0;
        while j < self.directories.len()
            invariant
                0 <= j <= ds.len(),
                k == spec_selected(ds.subrange(0, j as int), self.parent).len(),
                results.deep_view().len() == k,
                k <= n,
                n == listings@.len(),
                forall|t: int|
                    0 <= t < k ==> results.deep_view()[t] == spec_check(
                        spec_selected(ds.subrange(0, j as int), self.parent)[t],
                        listings@[t],
                    ),
            decreases ds.len() - j,
        {
            let directory = &self.directories[j];
            let selected = match &self.parent {
                Some(p) => path_in_scope(directory.path.as_str(), p.as_str()),
                None => true,
            };
            proof {
                let s1 = ds.subrange(0, j as int + 1);
                assert(s1.subrange(0, s1.len() - 1) =~= ds.subrange(0, j as int));
                assert(s1[s1.len() - 1] == ds[j as int]);
                assert(selected == spec_scope_ok(self.parent, ds[j as int].path@));
                if selected {
                    assert(spec_selected(s1, self.parent) =~= spec_selected(
                        ds.subrange(0, j as int),
                        self.parent,
                    ) + seq![ds[j as int]]);
                    lemma_selected_prefix(ds, self.parent, j as int + 1);
                    assert(k + 1 <= listings@.len());
                } else {
                    assert(spec_selected(s1, self.parent) =~= spec_selected(
                        ds.subrange(0, j as int),
                        self.parent,
                    ));
                }
            }
            if selected {
                let ghost pdv = results.deep_view();
                let result = directory.check(&listings[k]);
                results.push(result);
                proof {
                    assert(results.deep_view() =~= pdv.push(result@));
                }
                k += 1;
            }
            j += 1;
        }
        proof {
            assert(ds.subrange(0, ds.len() as int) =~= ds);
        }
        results
    }

    /// Reports an error exactly when no directories were configured to be
    /// checked.
    pub fn check_empty(&self, config: &Config) -> (r: Result<(), ConfigError>)
        ensures
            r is Err <==> self.directories@.len() == 0,
            r matches Err(e) ==> e is NoDirectories,
    {
        let _ = config;
        if self.directories.len() == 0 {
            Err(ConfigError::NoDirectories)
        } else {
            Ok(())
        }
    }
}

impl CheckerResult {
    /// The path of the directory this result is about.
    pub fn path(&self) -> (r: &String)
        ensures
            r@ == match self@ {
                CheckerResultView::Checked(report) => report.path,
                CheckerResultView::MissingDirectory { path } => path,
                CheckerResultView::NotADirectory { path } => path,
            },
    {
        match self {
            CheckerResult::Checked(report) => &report.path,
            CheckerResult::NotADirectory { path } => path,
            CheckerResult::MissingDirectory { path } => path,
        }
    }

    /// A short description of the failure, and `Ok` for a success.
    pub fn format_err(&self) -> (r: String)
        ensures
            self is Checked ==> r@ == "Ok"@,
            self is MissingDirectory ==> r@ == "Directory does not exist!"@,
            self is NotADirectory ==> r@ == "File is not a directory!"@,
    {
        match self {
            CheckerResult::Checked(_) => String::from_str("Ok"),
            CheckerResult::MissingDirectory { .. } => String::from_str(
                "Directory does not exist!",
            ),
            CheckerResult::NotADirectory { .. } => String::from_str("File is not a directory!"),
        }
    }
}

impl ReportIssue {
    /// Path of the misplaced file.
    pub fn path(&self) -> (r: &String)
        ensures
            r@ == self@.path,
    {
        &self.path
    }

    /// Resolved kind of the misplaced file.
    pub fn file_metadata(&self) -> (r: &EntryKind)
        ensures
            *r == self@.metadata,
    {
        &self.metadata
    }
}

// ------------------------------------------------------------------
// Construction from configuration.
// ------------------------------------------------------------------
/// The composite rule of a configured directory: an entry is acceptable
/// when it is a directory satisfying the allowed-directories rule, or a
/// file satisfying the allowed-files rule; an absent allow-list means
/// unrestricted.
pub open spec fn spec_dir_rule(dc: DirectoryConfig) -> RuleView {
    let dir_rules = seq![RuleView::Type(FileType::Directory)] + (match dc.allowed_dirs {
        Some(rs) => seq![spec_compile(rs@)],
        None => Seq::empty(),
    });
    let file_rules = seq![RuleView::Type(FileType::File)] + (match dc.allowed_files {
        Some(rs) => seq![spec_compile(rs@)],
        None => Seq::empty(),
    });
    RuleView::MergeOr(seq![RuleView::MergeAnd(dir_rules), RuleView::MergeAnd(file_rules)])
}

/// Whether every rule list of a directory's configuration compiles.
pub open spec fn spec_dir_config_compiles(dc: DirectoryConfig) -> bool {
    &&& crate::rules::spec_compile_ok(dc.recursive_ignore_children@)
    &&& (dc.allowed_dirs matches Some(rs) ==> crate::rules::spec_compile_ok(rs@))
    &&& (dc.allowed_files matches Some(rs) ==> crate::rules::spec_compile_ok(rs@))
}

/// Whether one built directory checker matches its configuration.
pub open spec fn spec_dir_checker_ok(d: DirectoryChecker, dc: DirectoryConfig) -> bool {
    &&& d.recursive == dc.recursive
    &&& rule_view(d.recursive_ignore_rules) == spec_compile(dc.recursive_ignore_children@)
    &&& rule_view(d.rules) == spec_dir_rule(dc)
}

/// Builds the composite rule of one configured directory.
fn build_dir_rule(dc: &DirectoryConfig) -> (r: Result<FileMatchRule, ConfigError>)
    ensures
        r matches Ok(m) ==> rule_view(m) == spec_dir_rule(*dc),
        r matches Err(e) ==> e is InvalidPattern && !((dc.allowed_dirs matches Some(rs)
            ==> crate::rules::spec_compile_ok(rs@)) && (dc.allowed_files matches Some(rs)
            ==> crate::rules::spec_compile_ok(rs@))),
{
    let mut rules_dir: Vec<FileMatchRule> = Vec::new();
    rules_dir.push(FileMatchRule::Type(FileType::Directory));
    if let Some(rules) = &dc.allowed_dirs {
        match compile_config_rules(rules) {
            Ok(m) => rules_dir.push(m),
            Err(_) => {
                return Err(ConfigError::InvalidPattern);
            },
        }
    }
    let mut rules_file: Vec<FileMatchRule> = Vec::new();
    rules_file.push(FileMatchRule::Type(FileType::File));
    if let Some(rules) = &dc.allowed_files {
        match compile_config_rules(rules) {
            Ok(m) => rules_file.push(m),
            Err(_) => {
                return Err(ConfigError::InvalidPattern);
            },
        }
    }
    let ghost rdv = rules_dir@;
    let ghost fdv = rules_file@;
    proof {
        crate::rules::lemma_rule_views_len(rdv);
        crate::rules::lemma_rule_views_len(fdv);
        assert forall|t: int| 0 <= t < rdv.len() implies #[trigger] crate::rules::rule_views(
            rdv,
        )[t] == rule_view(rdv[t]) by {
            crate::rules::lemma_rule_views_index(rdv, t);
        }
        assert forall|t: int| 0 <= t < fdv.len() implies #[trigger] crate::rules::rule_views(
            fdv,
        )[t] == rule_view(fdv[t]) by {
            crate::rules::lemma_rule_views_index(fdv, t);
        }
        match &dc.allowed_dirs {
            Some(rs) => {
                assert(crate::rules::rule_views(rdv) =~= seq![
                    RuleView::Type(FileType::Directory),
                ] + seq![spec_compile(rs@)]);
            },
            None => {
                assert(crate::rules::rule_views(rdv) =~= seq![
                    RuleView::Type(FileType::Directory),
                ] + Seq::<RuleView>::empty());
            },
        }
        match &dc.allowed_files {
            Some(rs) => {
                assert(crate::rules::rule_views(fdv) =~= seq![RuleView::Type(FileType::File)]
                    + seq![spec_compile(rs@)]);
            },
            None => {
                assert(crate::rules::rule_views(fdv) =~= seq![RuleView::Type(FileType::File)]
                    + Seq::<RuleView>::empty());
            },
        }
    }
    let dir_and = FileMatchRule::MergeAnd(rules_dir);
    let file_and = FileMatchRule::MergeAnd(rules_file);
    let ghost dir_and_snap = dir_and;
    let ghost file_and_snap = file_and;
    let mut both: Vec<FileMatchRule> = Vec::new();
    both.push(dir_and);
    both.push(file_and);
    proof {
        crate::rules::lemma_rule_views_len(both@);
        crate::rules::lemma_rule_views_index(both@, 0);
        crate::rules::lemma_rule_views_index(both@, 1);
        assert(crate::rules::rule_views(both@) =~= seq![
            rule_view(dir_and_snap),
            rule_view(file_and_snap),
        ]);
    }
    Ok(FileMatchRule::MergeOr(both))
}

/// Sets up a [`Checker`] from config. Every configured directory yields
/// one directory checker whose rules follow [`spec_dir_rule`]; the
/// directory's path is its configured path with environment references
/// expanded, and a failed expansion or a rejected pattern fails the whole
/// construction before any scanning begins; with no directories
/// configured (or when every pattern compiles and every expansion
/// succeeds) construction succeeds.
#[verifier::loop_isolation(false)]
pub fn from_config(config: &Config, parent: Option<String>) -> (r: Result<Checker, ConfigError>)
    ensures
        r matches Ok(c) ==> {
            &&& c.parent == parent
            &&& c.directories@.len() == config.directories@.len()
            &&& forall|i: int|
                0 <= i < c.directories@.len() ==> spec_dir_checker_ok(
                    #[trigger] c.directories@[i],
                    config.directories@[i].1,
                )
        },
        config.directories@.len() == 0 ==> r is Ok,
        r matches Err(e) ==> (e is InvalidPattern || e is ExpansionFailed),
        r == Err::<Checker, ConfigError>(ConfigError::InvalidPattern) ==> exists|t: int|
            0 <= t < config.directories@.len() && !spec_dir_config_compiles(
                #[trigger] config.directories@[t].1,
            ),
{
    let mut directories: Vec<DirectoryChecker> = Vec::new();
    let mut i: usize = 0;
    while i < config.directories.len()
        invariant
            0 <= i <= config.directories@.len(),
            directories@.len() == i,
            forall|t: int|
                0 <= t < i ==> spec_dir_checker_ok(
                    #[trigger] directories@[t],
                    config.directories@[t].1,
                ),
        decreases config.directories@.len() - i,
    {
        let (dir_path, dir_config) = &config.directories[i];
        let path = match crate::config::expand_env(dir_path.as_str()) {
            Ok(p) => p,
            Err(_) => {
                return Err(ConfigError::ExpansionFailed);
            },
        };
        let rules = match build_dir_rule(dir_config) {
            Ok(m) => m,
            Err(e) => {
                proof {
                    assert(!spec_dir_config_compiles(config.directories@[i as int].1));
                }
                return Err(e);
            },
        };
        let recursive_ignore_rules = match compile_config_rules(
            &dir_config.recursive_ignore_children,
        ) {
            Ok(m) => m,
            Err(_) => {
                proof {
                    assert(!spec_dir_config_compiles(config.directories@[i as int].1));
                }
                return Err(ConfigError::InvalidPattern);
            },
        };
        directories.push(
            DirectoryChecker {
                path,
                rules,
                recursive: dir_config.recursive,
                recursive_ignore_rules,
            },
        );
        i += 1;
    }
    Ok(Checker { parent, directories })
}

// ------------------------------------------------------------------
// Law of the scan.
// ------------------------------------------------------------------
/// Law: the scan is a function of the directory configuration and the
/// snapshot alone, so scanning a directory twice with no filesystem
/// change between runs yields equal reports, issue for issue.
pub proof fn lemma_scan_deterministic(
    d: DirectoryChecker,
    l: DirListing,
    a: CheckerResultView,
    b: CheckerResultView,
)
    requires
        a == spec_check(d, l),
        b == spec_check(d, l),
    ensures
        a == b,
{
}

} // verus!
