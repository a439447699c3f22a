//! The auto-move resolver: scans a source directory's listing
//! (non-recursively), selects the entries its rule matches, derives a
//! destination path for each — optionally through an external renaming
//! program — and decides guarded moves with overwrite protection.
//!
//! Planning is specified by [`spec_plan_from`]: a matching entry with
//! readable metadata becomes a planned entry whose destination is the
//! rule's target directory joined with the replacement filename (or that
//! filename itself when it is absolute); a rename script that could not
//! be run becomes a per-entry error; everything else is skipped. Running
//! the rename script and touching the filesystem are the embedding
//! program's job: it hands over each script's recorded outcome and
//! performs the moves that [`decide_move`] asks for.
//!
//! Script output is trimmed as raw bytes and then decoded to text
//! ([`lossy_decoded`]), since the model carries paths as text: output
//! that is valid UTF-8 reaches the destination byte-exactly, and only
//! invalid bytes are replaced.

use vstd::prelude::*;

use vstd::multiset::Multiset;

use crate::config::{Config, ConfigError};
use crate::fsmodel::{DirListing, EntryKind, FsEntry};
use crate::pathstr::{
    is_absolute_path, join_path, lemma_str_le_total, lemma_str_le_trans, spec_is_absolute,
    spec_join_path, spec_str_le, str_le,
};
use crate::rules::{compile_config_rules, rule_view, spec_compile, spec_matches, FileMatchRule, RuleView};

verus! {

broadcast use vstd::seq_lib::group_to_multiset_ensures;

// ------------------------------------------------------------------
// Data model.
// ------------------------------------------------------------------
/// All configured auto-move rules, restricted to an optional scope.
#[derive(Debug)]
pub struct AutoMove {
    /// Only rules whose source directory lies under this path are run,
    /// when present.
    pub parent: Option<String>,
    pub rules: Vec<AutoMoveRule>,
}

/// A rule to move files.
#[derive(Debug)]
pub struct AutoMoveRule {
    /// Custom display name of the rule.
    pub custom_name: Option<String>,
    /// Directory in which files will be checked.
    pub directory: String,
    /// Matching rules to determine which files need to be moved.
    pub match_rules: FileMatchRule,
    /// Target directory in which files will be put.
    pub to: String,
    /// Custom script path to give a new filename to files. It can also
    /// return the new absolute path.
    pub to_script: Option<String>,
}

/// What invoking the rename script for one candidate produced: the raw
/// bytes of its standard output, or the reason it could not be run.
#[derive(Debug)]
pub enum ScriptOutcome {
    Output(Vec<u8>),
    SpawnFailed(String),
}

/// Instruction to move a file from a path to a new one.
#[derive(Debug)]
pub struct AutoMoveResultEntry {
    /// Current file path.
    pub file: String,
    /// Current file metadata (its resolved kind).
    pub file_metadata: EntryKind,
    /// New file path to be moved to.
    pub move_to: String,
}

/// A per-entry failure; processing of sibling entries always continues.
#[derive(Debug)]
pub enum AutoMoveError {
    /// The rename script could not be executed for this file.
    ScriptFailed { file: String, script: String, message: String },
    /// The destination's parent directory could not be created.
    CreateDirFailed { path: String, message: String },
    /// Moving would overwrite an existing file and overwriting is not
    /// allowed.
    WouldOverwrite { path: String },
    /// Whether the destination already exists could not be determined.
    ExistsCheckFailed { path: String, message: String },
    /// The rename itself failed.
    RenameFailed { from: String, to: String, message: String },
}

/// Result from attempting to execute a rule.
#[derive(Debug)]
pub enum AutoMoveResult {
    /// The rule's source directory could not be listed.
    DirDoesNotExist,
    /// The planned entries, one per matching file, each either a planned
    /// move or a per-entry error.
    Planned { entries: Vec<Result<AutoMoveResultEntry, AutoMoveError>> },
}

/// The mathematical content of an [`AutoMoveResultEntry`].
pub struct AutoMoveEntryView {
    pub file: Seq<char>,
    pub file_metadata: EntryKind,
    pub move_to: Seq<char>,
}

impl View for AutoMoveResultEntry {
    type V = AutoMoveEntryView;

    open spec fn view(&self) -> AutoMoveEntryView {
        AutoMoveEntryView {
            file: self.file@,
            file_metadata: self.file_metadata,
            move_to: self.move_to@,
        }
    }
}

/// The mathematical content of an [`AutoMoveError`].
pub enum AutoMoveErrorView {
    ScriptFailed { file: Seq<char>, script: Seq<char>, message: Seq<char> },
    CreateDirFailed { path: Seq<char>, message: Seq<char> },
    WouldOverwrite { path: Seq<char> },
    ExistsCheckFailed { path: Seq<char>, message: Seq<char> },
    RenameFailed { from: Seq<char>, to: Seq<char>, message: Seq<char> },
}

impl View for AutoMoveError {
    type V = AutoMoveErrorView;

    open spec fn view(&self) -> AutoMoveErrorView {
        match self {
            AutoMoveError::ScriptFailed { file, script, message } => AutoMoveErrorView::ScriptFailed {
                file: file@,
                script: script@,
                message: message@,
            },
            AutoMoveError::CreateDirFailed { path, message } => AutoMoveErrorView::CreateDirFailed {
                path: path@,
                message: message@,
            },
            AutoMoveError::WouldOverwrite { path } => AutoMoveErrorView::WouldOverwrite {
                path: path@,
            },
            AutoMoveError::ExistsCheckFailed { path, message } => AutoMoveErrorView::ExistsCheckFailed {
                path: path@,
                message: message@,
            },
            AutoMoveError::RenameFailed { from, to, message } => AutoMoveErrorView::RenameFailed {
                from: from@,
                to: to@,
                message: message@,
            },
        }
    }
}

/// The mathematical content of one planned item.
pub open spec fn item_view(r: Result<AutoMoveResultEntry, AutoMoveError>) -> Result<
    AutoMoveEntryView,
    AutoMoveErrorView,
> {
    match r {
        Ok(entry) => Ok(entry@),
        Err(err) => Err(err@),
    }
}

/// The mathematical content of a planned item list.
pub open spec fn items_view(es: Seq<Result<AutoMoveResultEntry, AutoMoveError>>) -> Seq<
    Result<AutoMoveEntryView, AutoMoveErrorView>,
> {
    Seq::new(es.len(), |i: int| item_view(es[i]))
}

/// The mathematical content of an [`AutoMoveResult`].
pub enum AutoMoveResultView {
    DirDoesNotExist,
    Planned { entries: Seq<Result<AutoMoveEntryView, AutoMoveErrorView>> },
}

impl View for AutoMoveResult {
    type V = AutoMoveResultView;

    open spec fn view(&self) -> AutoMoveResultView {
        match self {
            AutoMoveResult::DirDoesNotExist => AutoMoveResultView::DirDoesNotExist,
            AutoMoveResult::Planned { entries } => AutoMoveResultView::Planned {
                entries: items_view(entries@),
            },
        }
    }
}

impl DeepView for AutoMoveResult {
    type V = AutoMoveResultView;

    open spec fn deep_view(&self) -> AutoMoveResultView {
        self.view()
    }
}

// ------------------------------------------------------------------
// Rename-script output to filename.
// ------------------------------------------------------------------
/// Whether a byte is ASCII whitespace (space, tab, line feed, form feed,
/// carriage return).
pub open spec fn spec_is_ascii_ws(b: u8) -> bool {
    b == 32 || b == 9 || b == 10 || b == 12 || b == 13
}

/// The first index at or after `i` holding a byte that is not ASCII
/// whitespace, or the length when there is none.
pub open spec fn spec_trim_start(out: Seq<u8>, i: int) -> int
    decreases out.len() - i,
{
    if i < 0 || i >= out.len() {
        out.len() as int
    } else if spec_is_ascii_ws(out[i]) {
        spec_trim_start(out, i + 1)
    } else {
        i
    }
}

/// One past the last index below `i` holding a byte that is not ASCII
/// whitespace, or zero when there is none.
pub open spec fn spec_trim_end(out: Seq<u8>, i: int) -> int
    decreases i,
{
    if i <= 0 || i > out.len() {
        0
    } else if spec_is_ascii_ws(out[i - 1]) {
        spec_trim_end(out, i - 1)
    } else {
        i
    }
}

/// The output with leading and trailing ASCII whitespace removed and the
/// remaining bytes kept verbatim.
pub open spec fn spec_trimmed(out: Seq<u8>) -> Seq<u8> {
    let lo = spec_trim_start(out, 0);
    let hi = spec_trim_end(out, out.len() as int);
    if lo < hi {
        out.subrange(lo, hi)
    } else {
        Seq::empty()
    }
}

/// Whether a byte is ASCII whitespace (the executable form of
/// [`spec_is_ascii_ws`]).
pub fn is_ascii_ws_byte(b: u8) -> (r: bool)
    ensures
        r == spec_is_ascii_ws(b),
{
    b == 32 || b == 9 || b == 10 || b == 12 || b == 13
}

/// Turns the raw output of a rename script into the replacement filename
/// bytes: leading and trailing ASCII whitespace is stripped and the rest
/// is kept verbatim, not assumed to be valid text.
#[verifier::loop_isolation(false)]
pub fn command_output_to_filename(out: &[u8]) -> (r: Vec<u8>)
    ensures
        r@ == spec_trimmed(out@),
{
    let len = out.len();
    let mut lo: usize = 0;
    while lo < len && is_ascii_ws_byte(out[lo])
        invariant
            0 <= lo <= len,
            spec_trim_start(out@, 0) == spec_trim_start(out@, lo as int),
        decreases len - lo,
    {
        lo += 1;
    }
    let mut hi: usize = len;
    while hi > 0 && is_ascii_ws_byte(out[hi - 1])
        invariant
            0 <= hi <= len,
            spec_trim_end(out@, len as int) == spec_trim_end(out@, hi as int),
        decreases hi,
    {
        hi -= 1;
    }
    proof {
        assert(spec_trim_start(out@, 0) == lo as int);
        assert(spec_trim_end(out@, len as int) == hi as int);
    }
    let mut r: Vec<u8> = Vec::new();
    if lo < hi {
        let mut t: usize = lo;
        while t < hi
            invariant
                lo <= t <= hi <= len,
                r@ =~= out@.subrange(lo as int, t as int),
            decreases hi - t,
        {
            r.push(out[t]);
            proof {
                assert(r@ =~= out@.subrange(lo as int, t as int + 1));
            }
            t += 1;
        }
    }
    proof {
        if lo < hi {
            assert(r@ =~= spec_trimmed(out@));
        } else {
            assert(r@ =~= spec_trimmed(out@));
        }
    }
    r
}

/// The text a filename's raw bytes decode to, replacing invalid UTF-8
/// with the replacement character.
///
/// This is where the model departs from carrying script output as raw
/// bytes end to end: paths are text here, so output that is not valid
/// UTF-8 reaches the destination with its invalid bytes replaced. The
/// bound is exact — for valid UTF-8 output (ASCII included) the decoded
/// text re-encodes to the very same bytes, so the planned destination is
/// byte-exact.
pub uninterp spec fn lossy_decoded(bytes: Seq<u8>) -> Seq<char>;

/// Relies on String::from_utf8_lossy: the decoding is a function of the
/// bytes alone, and bytes that are already valid UTF-8 decode to the
/// text that re-encodes to exactly those bytes.
#[verifier::external_body]
fn decode_filename(bytes: &Vec<u8>) -> (r: String)
    ensures
        r@ == lossy_decoded(bytes@),
        vstd::utf8::valid_utf8(bytes@) ==> vstd::utf8::encode_utf8(r@) == bytes@,
{
    String::from_utf8_lossy(bytes).into_owned()
}

// ------------------------------------------------------------------
// Planning.
// ------------------------------------------------------------------
/// The destination for a replacement filename: the filename itself when
/// it is absolute, otherwise the rule's target directory joined with it.
pub open spec fn spec_dest(to: Seq<char>, filename: Seq<char>) -> Seq<char> {
    if spec_is_absolute(filename) {
        filename
    } else {
        spec_join_path(to, filename)
    }
}

/// The destination for a replacement filename (the executable form of
/// [`spec_dest`]).
pub fn dest_path(to: &str, filename: &str) -> (r: String)
    ensures
        r@ == spec_dest(to@, filename@),
{
    if is_absolute_path(filename) {
        filename.to_owned()
    } else {
        join_path(to, filename)
    }
}

/// Whether a rule would move this entry: the rule matches it cleanly and
/// its metadata is readable. An entry whose evaluation fails counts as
/// not matching.
pub open spec fn spec_is_candidate(rules: RuleView, e: FsEntry) -> bool {
    spec_matches(rules, e.name@, e.kind) == Some(true) && e.kind is Some
}

/// How many entries from index `i` on are candidates.
pub open spec fn spec_candidate_count(rules: RuleView, es: Seq<FsEntry>, i: int) -> int
    decreases es.len() - i,
{
    if i < 0 || i >= es.len() {
        0
    } else {
        (if spec_is_candidate(rules, es[i]) {
            1int
        } else {
            0int
        }) + spec_candidate_count(rules, es, i + 1)
    }
}

/// The candidate count lies between zero and the number of entries left.
pub proof fn lemma_candidate_count_bounds(rules: RuleView, es: Seq<FsEntry>, i: int)
    requires
        0 <= i <= es.len(),
    ensures
        0 <= spec_candidate_count(rules, es, i) <= es.len() - i,
    decreases es.len() - i,
{
    if i < es.len() {
        lemma_candidate_count_bounds(rules, es, i + 1);
    }
}

/// The full paths of the candidates from index `i` on, in listing order.
pub open spec fn spec_candidate_paths(rules: RuleView, es: Seq<FsEntry>, i: int) -> Seq<Seq<char>>
    decreases es.len() - i,
{
    if i < 0 || i >= es.len() {
        Seq::empty()
    } else {
        let rest = spec_candidate_paths(rules, es, i + 1);
        if spec_is_candidate(rules, es[i]) {
            seq![es[i].path@] + rest
        } else {
            rest
        }
    }
}

/// What planning one candidate yields: without a script outcome, a move
/// of the file to the destination derived from its own name; with a
/// spawn failure, a per-entry error; with script output, a move to the
/// destination derived from the trimmed, decoded output.
pub open spec fn spec_plan_candidate(
    to: Seq<char>,
    script_path: Seq<char>,
    e: FsEntry,
    outcome: Option<ScriptOutcome>,
) -> Result<AutoMoveEntryView, AutoMoveErrorView> {
    match outcome {
        None => Ok(
            AutoMoveEntryView {
                file: e.path@,
                file_metadata: e.kind->0,
                move_to: spec_dest(to, e.name@),
            },
        ),
        Some(oc) => match oc {
            ScriptOutcome::SpawnFailed(msg) => Err(
                AutoMoveErrorView::ScriptFailed {
                    file: e.name@,
                    script: script_path,
                    message: msg@,
                },
            ),
            ScriptOutcome::Output(bytes) => Ok(
                AutoMoveEntryView {
                    file: e.path@,
                    file_metadata: e.kind->0,
                    move_to: spec_dest(to, lossy_decoded(spec_trimmed(bytes@))),
                },
            ),
        },
    }
}

/// The planned items for the entries from index `i` on, with `k` script
/// outcomes already consumed: each candidate becomes one item (consuming
/// the next outcome when the rule has a script) and every other entry is
/// skipped.
pub open spec fn spec_plan_from(
    rules: RuleView,
    to: Seq<char>,
    script: Option<String>,
    outs: Seq<ScriptOutcome>,
    es: Seq<FsEntry>,
    i: int,
    k: int,
) -> Seq<Result<AutoMoveEntryView, AutoMoveErrorView>>
    decreases es.len() - i,
{
    if i < 0 || i >= es.len() {
        Seq::empty()
    } else if spec_is_candidate(rules, es[i]) {
        match script {
            Some(sp) => seq![spec_plan_candidate(to, sp@, es[i], Some(outs[k]))]
                + spec_plan_from(rules, to, script, outs, es, i + 1, k + 1),
            None => seq![spec_plan_candidate(to, Seq::empty(), es[i], None)] + spec_plan_from(
                rules,
                to,
                script,
                outs,
                es,
                i + 1,
                k + 1,
            ),
        }
    } else {
        spec_plan_from(rules, to, script, outs, es, i + 1, k)
    }
}

/// What running one rule yields: an unlistable source directory is
/// reported as such, and a listable one yields the planned items of its
/// entries.
pub open spec fn spec_run_rule(
    rule: AutoMoveRule,
    l: DirListing,
    outs: Seq<ScriptOutcome>,
) -> AutoMoveResultView {
    match l {
        DirListing::Entries(es) => AutoMoveResultView::Planned {
            entries: spec_plan_from(
                rule_view(rule.match_rules),
                rule.to@,
                rule.to_script,
                outs,
                es@,
                0,
                0,
            ),
        },
        _ => AutoMoveResultView::DirDoesNotExist,
    }
}

/// Whether any entry from index `i` on would move, stopping at the first
/// matching entry: that entry moves exactly when its metadata is
/// readable (later entries are not considered).
pub open spec fn spec_would_move_entries(rules: RuleView, es: Seq<FsEntry>, i: int) -> bool
    decreases es.len() - i,
{
    if i < 0 || i >= es.len() {
        false
    } else if spec_matches(rules, es[i].name@, es[i].kind) == Some(true) {
        es[i].kind is Some
    } else {
        spec_would_move_entries(rules, es, i + 1)
    }
}

/// Whether running the rule on this listing would move any file.
pub open spec fn spec_would_move(rule: AutoMoveRule, l: DirListing) -> bool {
    match l {
        DirListing::Entries(es) => spec_would_move_entries(rule_view(rule.match_rules), es@, 0),
        _ => false,
    }
}

/// How many files running the rule on this listing would move.
pub open spec fn spec_count_move(rule: AutoMoveRule, l: DirListing) -> int {
    match l {
        DirListing::Entries(es) => spec_candidate_count(rule_view(rule.match_rules), es@, 0),
        _ => 0,
    }
}

/// The display name of a rule: its custom name, or its source directory.
pub open spec fn spec_display_name(rule: AutoMoveRule) -> Seq<char> {
    match rule.custom_name {
        Some(name) => name@,
        None => rule.directory@,
    }
}

impl AutoMoveRule {
    /// Returns the display name of the rule (could be a custom name or
    /// its source directory).
    pub fn display_name(&self) -> (r: String)
        ensures
            r@ == spec_display_name(*self),
    {
        match &self.custom_name {
            Some(name) => name.clone(),
            None => self.directory.clone(),
        }
    }

    /// The full paths of the files this rule would move, in listing
    /// order: one per matching entry with readable metadata. When the
    /// rule has a rename script, the embedding program runs it once per
    /// returned path and hands the outcomes to [`AutoMoveRule::run`].
    #[verifier::loop_isolation(false)]
    pub fn candidate_paths(&self, listing: &DirListing) -> (r: Vec<String>)
        ensures
            r.deep_view() == match *listing {
                DirListing::Entries(es) => spec_candidate_paths(
                    rule_view(self.match_rules),
                    es@,
                    0,
                ),
                _ => Seq::<Seq<char>>::empty(),
            },
    {
        let ghost rv = rule_view(self.match_rules);
        let mut r: Vec<String> = Vec::new();
        proof {
            assert(r.deep_view() =~= Seq::<Seq<char>>::empty());
        }
        match listing {
            DirListing::Entries(entries) => {
                let mut i: usize = 0;
                while i < entries.len()
                    invariant
                        0 <= i <= entries@.len(),
                        spec_candidate_paths(rv, entries@, 0) =~= r.deep_view()
                            + spec_candidate_paths(rv, entries@, i as int),
                    decreases entries@.len() - i,
                {
                    let e = &entries[i];
                    let matched = match self.match_rules.matches_dir_entry(e) {
                        Ok(m) => m,
                        Err(_) => false,
                    };
                    if matched && e.kind.is_some() {
                        let ghost dv = r.deep_view();
                        r.push(e.path.clone());
                        proof {
                            assert(r.deep_view() =~= dv.push(e.path@));
                            assert(dv.push(e.path@) + spec_candidate_paths(rv, entries@, i as int
                                + 1) =~= dv + spec_candidate_paths(rv, entries@, i as int));
                        }
                    }
                    i += 1;
                }
            },
            _ => {},
        }
        r
    }

    /// Returns the planned items of this rule (see [`spec_run_rule`]):
    /// `listing` is what reading the source directory produced, and
    /// `script_outcomes` holds the recorded outcome of the rename script
    /// for each candidate in order — required exactly when the rule has
    /// a script, ignored otherwise.
    #[verifier::loop_isolation(false)]
    pub fn run(&self, listing: &DirListing, script_outcomes: &Vec<ScriptOutcome>) -> (r:
        AutoMoveResult)
        requires
            self.to_script is Some ==> (listing matches DirListing::Entries(es)
                ==> script_outcomes@.len() == spec_candidate_count(
                rule_view(self.match_rules),
                es@,
                0,
            )),
        ensures
            r@ == spec_run_rule(*self, *listing, script_outcomes@),
    {
        let ghost rv = rule_view(self.match_rules);
        match listing {
            DirListing::Entries(entries) => {
                let ghost es = entries@;
                let ghost outs = script_outcomes@;
                let mut result_entries: Vec<Result<AutoMoveResultEntry, AutoMoveError>> =
                    Vec::new();
                proof {
                    assert(items_view(result_entries@) =~= Seq::<
                        Result<AutoMoveEntryView, AutoMoveErrorView>,
                    >::empty());
                }
                let mut k: usize = 0;
                let mut i: usize = 0;
                while i < entries.len()
                    invariant
                        0 <= i <= es.len(),
                        k <= i,
                        k as int + spec_candidate_count(rv, es, i as int)
                            == spec_candidate_count(rv, es, 0),
                        spec_plan_from(rv, self.to@, self.to_script, outs, es, 0, 0)
                            =~= items_view(result_entries@) + spec_plan_from(
                            rv,
                            self.to@,
                            self.to_script,
                            outs,
                            es,
                            i as int,
                            k as int,
                        ),
                    decreases es.len() - i,
                {
                    proof {
                        lemma_candidate_count_bounds(rv, es, i as int + 1);
                    }
                    let e = &entries[i];
                    let matched = match self.match_rules.matches_dir_entry(e) {
                        Ok(m) => m,
                        Err(_) => false,
                    };
                    if matched {
                        if let Some(kind) = e.kind {
                            let item: Result<AutoMoveResultEntry, AutoMoveError> =
                                match &self.to_script {
                                None => Ok(
                                    AutoMoveResultEntry {
                                        file: e.path.clone(),
                                        file_metadata: kind,
                                        move_to: dest_path(self.to.as_str(), e.name.as_str()),
                                    },
                                ),
                                Some(script) => match &script_outcomes[k] {
                                    ScriptOutcome::SpawnFailed(msg) => Err(
                                        AutoMoveError::ScriptFailed {
                                            file: e.name.clone(),
                                            script: script.clone(),
                                            message: msg.clone(),
                                        },
                                    ),
                                    ScriptOutcome::Output(bytes) => {
                                        let trimmed = command_output_to_filename(
                                            bytes.as_slice(),
                                        );
                                        let filename = decode_filename(&trimmed);
                                        Ok(
                                            AutoMoveResultEntry {
                                                file: e.path.clone(),
                                                file_metadata: kind,
                                                move_to: dest_path(
                                                    self.to.as_str(),
                                                    filename.as_str(),
                                                ),
                                            },
                                        )
                                    },
                                },
                            };
                            let ghost idv = items_view(result_entries@);
                            let ghost item_snap = item;
                            result_entries.push(item);
                            proof {
                                assert(items_view(result_entries@) =~= idv.push(
                                    item_view(item_snap),
                                ));
                                assert(idv.push(item_view(item_snap)) + spec_plan_from(
                                    rv,
                                    self.to@,
                                    self.to_script,
                                    outs,
                                    es,
                                    i as int + 1,
                                    k as int + 1,
                                ) =~= idv + spec_plan_from(
                                    rv,
                                    self.to@,
                                    self.to_script,
                                    outs,
                                    es,
                                    i as int,
                                    k as int,
                                ));
                            }
                            k += 1;
                        }
                    }
                    i += 1;
                }
                proof {
                    assert(items_view(result_entries@) + Seq::<
                        Result<AutoMoveEntryView, AutoMoveErrorView>,
                    >::empty() =~= items_view(result_entries@));
                }
                AutoMoveResult::Planned { entries: result_entries }
            },
            _ => AutoMoveResult::DirDoesNotExist,
        }
    }

    /// Checks if any file would be moved without building a full list of
    /// entries: scanning stops at the first matching entry, which moves
    /// exactly when its metadata is readable.
    #[verifier::loop_isolation(false)]
    pub fn would_move(&self, listing: &DirListing) -> (r: bool)
        ensures
            r == spec_would_move(*self, *listing),
    {
        let ghost rv = rule_view(self.match_rules);
        match listing {
            DirListing::Entries(entries) => {
                let mut i: usize = 0;
                while i < entries.len()
                    invariant
                        0 <= i <= entries@.len(),
                        spec_would_move_entries(rv, entries@, 0) == spec_would_move_entries(
                            rv,
                            entries@,
                            i as int,
                        ),
                    decreases entries@.len() - i,
                {
                    let e = &entries[i];
                    let matched = match self.match_rules.matches_dir_entry(e) {
                        Ok(m) => m,
                        Err(_) => false,
                    };
                    if matched {
                        return e.kind.is_some();
                    }
                    i += 1;
                }
                false
            },
            _ => false,
        }
    }

    /// Counts how many files would be moved without building a full list
    /// of entries.
    #[verifier::loop_isolation(false)]
    pub fn count_move(&self, listing: &DirListing) -> (r: usize)
        ensures
            r as int == spec_count_move(*self, *listing),
    {
        let ghost rv = rule_view(self.match_rules);
        match listing {
            DirListing::Entries(entries) => {
                let mut count: usize = 0;
                let mut i: usize = 0;
                while i < entries.len()
                    invariant
                        0 <= i <= entries@.len(),
                        count <= i,
                        count as int + spec_candidate_count(rv, entries@, i as int)
                            == spec_candidate_count(rv, entries@, 0),
                    decreases entries@.len() - i,
                {
                    let e = &entries[i];
                    let matched = match self.match_rules.matches_dir_entry(e) {
                        Ok(m) => m,
                        Err(_) => false,
                    };
                    if matched && e.kind.is_some() {
                        count += 1;
                    }
                    i += 1;
                }
                count
            },
            _ => 0,
        }
    }
}


// ------------------------------------------------------------------
// Running all rules.
// ------------------------------------------------------------------
/// What the embedding program collected for one selected rule: the
/// source directory's listing, and the rename script's recorded outcome
/// for each candidate in order (empty when the rule has no script).
#[derive(Debug)]
pub struct RuleInput {
    pub listing: DirListing,
    pub script_outcomes: Vec<ScriptOutcome>,
}

/// The configured rules whose source directory lies in the scope, in
/// order.
pub open spec fn spec_selected_rules(rs: Seq<AutoMoveRule>, parent: Option<String>) -> Seq<
    AutoMoveRule,
>
    decreases rs.len(),
{
    if rs.len() == 0 {
        Seq::empty()
    } else {
        let pre = spec_selected_rules(rs.subrange(0, rs.len() - 1), parent);
        if crate::checker::spec_scope_ok(parent, rs[rs.len() - 1].directory@) {
            pre + seq![rs[rs.len() - 1]]
        } else {
            pre
        }
    }
}

/// What a prefix of the rule list selects is a prefix of what the whole
/// list selects.
pub proof fn lemma_selected_rules_prefix(rs: Seq<AutoMoveRule>, parent: Option<String>, j: int)
    requires
        0 <= j <= rs.len(),
    ensures
        spec_selected_rules(rs.subrange(0, j), parent).len() <= spec_selected_rules(
            rs,
            parent,
        ).len(),
        spec_selected_rules(rs.subrange(0, j), parent) =~= spec_selected_rules(
            rs,
            parent,
        ).subrange(0, spec_selected_rules(rs.subrange(0, j), parent).len() as int),
    decreases rs.len() - j,
{
    let full = spec_selected_rules(rs, parent);
    if j == rs.len() {
        assert(rs.subrange(0, j) =~= rs);
        assert(full.subrange(0, full.len() as int) =~= full);
    } else {
        lemma_selected_rules_prefix(rs, parent, j + 1);
        let s1 = rs.subrange(0, j + 1);
        assert(s1.subrange(0, s1.len() - 1) =~= rs.subrange(0, j));
        assert(s1[s1.len() - 1] == rs[j]);
        let a = spec_selected_rules(rs.subrange(0, j), parent);
        let b = spec_selected_rules(s1, parent);
        assert(a =~= b.subrange(0, a.len() as int));
        assert(full.subrange(0, b.len() as int).subrange(0, a.len() as int) =~= full.subrange(
            0,
            a.len() as int,
        ));
    }
}

impl AutoMove {
    /// Executes rules to get a list of entries to move, one result per
    /// selected rule: a rule is selected exactly when its source
    /// directory lies in the scope, and `inputs` holds what the
    /// embedding program collected for each selected rule, in order.
    /// This doesn't actually move the files: each planned entry carries
    /// the current file path and the wanted new file path.
    #[verifier::loop_isolation(false)]
    pub fn run(&self, inputs: &Vec<RuleInput>) -> (r: Vec<AutoMoveResult>)
        requires
            inputs@.len() == spec_selected_rules(self.rules@, self.parent).len(),
            forall|t: int|
                0 <= t < inputs@.len() ==> (#[trigger] spec_selected_rules(
                    self.rules@,
                    self.parent,
                )[t].to_script is Some ==> (inputs@[t].listing matches DirListing::Entries(es)
                    ==> inputs@[t].script_outcomes@.len() == spec_candidate_count(
                    rule_view(spec_selected_rules(self.rules@, self.parent)[t].match_rules),
                    es@,
                    0,
                ))),
        ensures
            r.deep_view().len() == inputs@.len(),
            forall|t: int|
                0 <= t < inputs@.len() ==> r.deep_view()[t] == spec_run_rule(
                    spec_selected_rules(self.rules@, self.parent)[t],
                    inputs@[t].listing,
                    inputs@[t].script_outcomes@,
                ),
    {
        let ghost rs = self.rules@;
        let n = inputs.len();
        let mut results: Vec<AutoMoveResult> = Vec::new();
        let mut k: usize = 0;
        let mut j: usize = 0;
        while j < self.rules.len()
            invariant
                0 <= j <= rs.len(),
                k == spec_selected_rules(rs.subrange(0, j as int), self.parent).len(),
                results.deep_view().len() == k,
                k <= n,
                n == inputs@.len(),
                spec_selected_rules(rs.subrange(0, j as int), self.parent)
                    =~= spec_selected_rules(rs, self.parent).subrange(0, k as int),
                forall|t: int|
                    0 <= t < k ==> results.deep_view()[t] == spec_run_rule(
                        spec_selected_rules(rs.subrange(0, j as int), self.parent)[t],
                        inputs@[t].listing,
                        inputs@[t].script_outcomes@,
                    ),
            decreases rs.len() - j,
        {
            let rule = &self.rules[j];
            let selected = match &self.parent {
                Some(p) => crate::pathstr::path_in_scope(rule.directory.as_str(), p.as_str()),
                None => true,
            };
            proof {
                let s1 = rs.subrange(0, j as int + 1);
                assert(s1.subrange(0, s1.len() - 1) =~= rs.subrange(0, j as int));
                assert(s1[s1.len() - 1] == rs[j as int]);
                assert(selected == crate::checker::spec_scope_ok(
                    self.parent,
                    rs[j as int].directory@,
                ));
                if selected {
                    assert(spec_selected_rules(s1, self.parent) =~= spec_selected_rules(
                        rs.subrange(0, j as int),
                        self.parent,
                    ) + seq![rs[j as int]]);
                    lemma_selected_rules_prefix(rs, self.parent, j as int + 1);
                    assert(k + 1 <= inputs@.len());
                    assert(spec_selected_rules(s1, self.parent) =~= spec_selected_rules(
                        rs,
                        self.parent,
                    ).subrange(0, k as int + 1));
                } else {
                    assert(spec_selected_rules(s1, self.parent) =~= spec_selected_rules(
                        rs.subrange(0, j as int),
                        self.parent,
                    ));
                }
            }
            if selected {
                let ghost pdv = results.deep_view();
                proof {
                    let s1 = rs.subrange(0, j as int + 1);
                    let full = spec_selected_rules(rs, self.parent);
                    assert(spec_selected_rules(s1, self.parent)[k as int] == rs[j as int]);
                    assert(full.subrange(0, k as int + 1)[k as int] == full[k as int]);
                    assert(full[k as int] == rs[j as int]);
                }
                let input = &inputs[k];
                let result = rule.run(&input.listing, &input.script_outcomes);
                results.push(result);
                proof {
                    assert(results.deep_view() =~= pdv.push(result@));
                }
                k += 1;
            }
            j += 1;
        }
        proof {
            assert(rs.subrange(0, rs.len() as int) =~= rs);
        }
        results
    }

    /// Checks if any file would be moved if this were to be run:
    /// `listings` holds what reading each rule's source directory
    /// produced, one per rule in order (the scope plays no part here).
    #[verifier::loop_isolation(false)]
    pub fn would_move_any(&self, listings: &Vec<DirListing>) -> (r: bool)
        requires
            listings@.len() == self.rules@.len(),
        ensures
            r == exists|t: int|
                0 <= t < self.rules@.len() && #[trigger] spec_would_move(
                    self.rules@[t],
                    listings@[t],
                ),
    {
        let mut j: usize = 0;
        while j < self.rules.len()
            invariant
                0 <= j <= self.rules@.len(),
                forall|t: int|
                    0 <= t < j ==> !#[trigger] spec_would_move(self.rules@[t], listings@[t]),
            decreases self.rules@.len() - j,
        {
            if self.rules[j].would_move(&listings[j]) {
                return true;
            }
            j += 1;
        }
        false
    }
}

/// The total count of files the rules from index `i` on would move.
pub open spec fn spec_total_count(rs: Seq<AutoMoveRule>, ls: Seq<DirListing>, i: int) -> int
    decreases rs.len() - i,
{
    if i < 0 || i >= rs.len() {
        0
    } else {
        spec_count_move(rs[i], ls[i]) + spec_total_count(rs, ls, i + 1)
    }
}

/// Every suffix total is non-negative.
pub proof fn lemma_total_count_nonneg(rs: Seq<AutoMoveRule>, ls: Seq<DirListing>, i: int)
    requires
        0 <= i <= rs.len(),
    ensures
        0 <= spec_total_count(rs, ls, i),
    decreases rs.len() - i,
{
    if i < rs.len() {
        lemma_total_count_nonneg(rs, ls, i + 1);
        match ls[i] {
            DirListing::Entries(es) => {
                lemma_candidate_count_bounds(rule_view(rs[i].match_rules), es@, 0);
            },
            _ => {},
        }
    }
}

impl AutoMove {
    /// Counts how many files would be moved across rules if this were to
    /// be run: `listings` holds what reading each rule's source
    /// directory produced, one per rule in order.
    #[verifier::loop_isolation(false)]
    pub fn count_move(&self, listings: &Vec<DirListing>) -> (r: usize)
        requires
            listings@.len() == self.rules@.len(),
            spec_total_count(self.rules@, listings@, 0) <= usize::MAX,
        ensures
            r as int == spec_total_count(self.rules@, listings@, 0),
    {
        let ghost rs = self.rules@;
        let ghost ls = listings@;
        let mut count: usize = 0;
        let mut j: usize = 0;
        while j < self.rules.len()
            invariant
                0 <= j <= rs.len(),
                count as int + spec_total_count(rs, ls, j as int) == spec_total_count(rs, ls, 0),
            decreases rs.len() - j,
        {
            proof {
                lemma_total_count_nonneg(rs, ls, j as int + 1);
                match ls[j as int] {
                    DirListing::Entries(es) => {
                        lemma_candidate_count_bounds(
                            rule_view(rs[j as int].match_rules),
                            es@,
                            0,
                        );
                    },
                    _ => {},
                }
            }
            let c = self.rules[j].count_move(&listings[j]);
            count += c;
            j += 1;
        }
        count
    }
}

// ------------------------------------------------------------------
// The execution guard for one planned entry.
// ------------------------------------------------------------------
/// What to do before checking the destination of one planned entry.
#[derive(Debug)]
pub enum MoveBegin {
    /// A live run first ensures the destination's parent directory
    /// exists, creating it and any ancestors as needed.
    CreateParentFirst,
    /// A dry run creates nothing and goes straight to the existence
    /// check.
    CheckExistsFirst,
}

/// The first step for one planned entry: only a live run creates the
/// destination's parent directory.
pub open spec fn spec_move_begin(dry_run: bool) -> MoveBegin {
    if dry_run {
        MoveBegin::CheckExistsFirst
    } else {
        MoveBegin::CreateParentFirst
    }
}

/// The first step for one planned entry (the executable form of
/// [`spec_move_begin`]).
pub fn move_begin(dry_run: bool) -> (r: MoveBegin)
    ensures
        r == spec_move_begin(dry_run),
{
    if dry_run {
        MoveBegin::CheckExistsFirst
    } else {
        MoveBegin::CreateParentFirst
    }
}

/// The error for a failed parent-directory creation; a successful
/// creation lets the entry proceed to the existence check.
pub fn after_create_parent(parent_path: &String, result: Result<(), String>) -> (r: Option<
    AutoMoveError,
>)
    ensures
        result is Ok <==> r is None,
        result matches Err(m) ==> r matches Some(e) && e@ == (AutoMoveErrorView::CreateDirFailed {
            path: parent_path@,
            message: m@,
        }),
{
    match result {
        Ok(_) => None,
        Err(message) => Some(
            AutoMoveError::CreateDirFailed { path: parent_path.clone(), message },
        ),
    }
}

/// What the guard decides for one planned entry once the destination's
/// existence is known.
#[derive(Debug)]
pub enum MoveDecision {
    /// The entry becomes this error; nothing is moved.
    Fail(AutoMoveError),
    /// Perform the rename (live runs only).
    DoRename,
    /// Report the entry as a (would-be) success without renaming.
    ReportSuccess,
}

/// The mathematical content of a [`MoveDecision`].
pub enum MoveDecisionView {
    Fail(AutoMoveErrorView),
    DoRename,
    ReportSuccess,
}

/// The view of a [`MoveDecision`].
pub open spec fn move_decision_view(d: MoveDecision) -> MoveDecisionView {
    match d {
        MoveDecision::Fail(e) => MoveDecisionView::Fail(e@),
        MoveDecision::DoRename => MoveDecisionView::DoRename,
        MoveDecision::ReportSuccess => MoveDecisionView::ReportSuccess,
    }
}

/// The view of an existence-check outcome.
pub open spec fn exists_check_view(e: Result<bool, String>) -> Result<bool, Seq<char>> {
    match e {
        Ok(b) => Ok(b),
        Err(m) => Err(m@),
    }
}

/// The guard's decision: an existing destination with overwriting
/// disallowed fails the entry; a failed existence check fails it too;
/// otherwise a live run renames and a dry run reports the would-be
/// success.
pub open spec fn spec_decide_move(
    dry_run: bool,
    allow_overwrite: bool,
    exists: Result<bool, Seq<char>>,
    move_to: Seq<char>,
) -> MoveDecisionView {
    match exists {
        Ok(true) => if !allow_overwrite {
            MoveDecisionView::Fail(AutoMoveErrorView::WouldOverwrite { path: move_to })
        } else if !dry_run {
            MoveDecisionView::DoRename
        } else {
            MoveDecisionView::ReportSuccess
        },
        Ok(false) => if !dry_run {
            MoveDecisionView::DoRename
        } else {
            MoveDecisionView::ReportSuccess
        },
        Err(m) => MoveDecisionView::Fail(
            AutoMoveErrorView::ExistsCheckFailed { path: move_to, message: m },
        ),
    }
}

/// The guard's decision for one planned entry (the executable form of
/// [`spec_decide_move`]): `exists` is what checking the destination
/// produced.
pub fn decide_move(
    dry_run: bool,
    allow_overwrite: bool,
    exists: Result<bool, String>,
    move_to: &String,
) -> (r: MoveDecision)
    ensures
        move_decision_view(r) == spec_decide_move(
            dry_run,
            allow_overwrite,
            exists_check_view(exists),
            move_to@,
        ),
{
    match exists {
        Ok(true) if !allow_overwrite => MoveDecision::Fail(
            AutoMoveError::WouldOverwrite { path: move_to.clone() },
        ),
        Err(message) => MoveDecision::Fail(
            AutoMoveError::ExistsCheckFailed { path: move_to.clone(), message },
        ),
        _ => if !dry_run {
            MoveDecision::DoRename
        } else {
            MoveDecision::ReportSuccess
        },
    }
}

/// The entry's final state after a live run's rename: a failure becomes
/// a per-entry error carrying both paths.
pub fn after_rename(from: &String, to: &String, result: Result<(), String>) -> (r: Result<
    (),
    AutoMoveError,
>)
    ensures
        result is Ok <==> r is Ok,
        result matches Err(m) ==> r matches Err(e) && e@ == (AutoMoveErrorView::RenameFailed {
            from: from@,
            to: to@,
            message: m@,
        }),
{
    match result {
        Ok(_) => Ok(()),
        Err(message) => Err(
            AutoMoveError::RenameFailed { from: from.clone(), to: to.clone(), message },
        ),
    }
}

// ------------------------------------------------------------------
// Laws of planning and its derived queries.
// ------------------------------------------------------------------
/// The planned items from index `i` on are exactly the candidates from
/// index `i` on, one item each.
pub proof fn lemma_plan_len(
    rules: RuleView,
    to: Seq<char>,
    script: Option<String>,
    outs: Seq<ScriptOutcome>,
    es: Seq<FsEntry>,
    i: int,
    k: int,
)
    requires
        0 <= i <= es.len(),
    ensures
        spec_plan_from(rules, to, script, outs, es, i, k).len() == spec_candidate_count(
            rules,
            es,
            i,
        ),
    decreases es.len() - i,
{
    if i < es.len() {
        lemma_plan_len(rules, to, script, outs, es, i + 1, k + 1);
        lemma_plan_len(rules, to, script, outs, es, i + 1, k);
    }
}

/// Law: counting without materializing the entry list agrees with the
/// list the resolver produces — a listable source directory plans exactly
/// as many items as [`spec_count_move`] counts.
pub proof fn lemma_count_move_matches_run(rule: AutoMoveRule, l: DirListing, outs: Seq<
    ScriptOutcome,
>)
    ensures
        spec_run_rule(rule, l, outs) matches AutoMoveResultView::Planned { entries }
            ==> entries.len() == spec_count_move(rule, l),
{
    match l {
        DirListing::Entries(es) => {
            lemma_plan_len(rule_view(rule.match_rules), rule.to@, rule.to_script, outs, es@, 0, 0);
        },
        _ => {},
    }
}

/// Law: when the first-match probe reports a move, at least one file is
/// counted (and so at least one item is planned); the probe stops at the
/// first matching entry, so the converse does not hold in general.
pub proof fn lemma_would_move_counts(rules: RuleView, es: Seq<FsEntry>, i: int)
    requires
        0 <= i <= es.len(),
    ensures
        spec_would_move_entries(rules, es, i) ==> spec_candidate_count(rules, es, i) >= 1,
    decreases es.len() - i,
{
    if i < es.len() {
        lemma_would_move_counts(rules, es, i + 1);
        lemma_candidate_count_bounds(rules, es, i + 1);
    }
}

// ------------------------------------------------------------------
// Laws of the guard.
// ------------------------------------------------------------------
/// Law: a planned move whose destination already exists, with
/// overwriting disallowed, becomes a would-overwrite error entry and is
/// never a rename — in a dry run or a live one — so the source and the
/// existing destination file stay untouched.
pub proof fn lemma_overwrite_guard(dry_run: bool, move_to: Seq<char>)
    ensures
        spec_decide_move(dry_run, false, Ok(true), move_to) == MoveDecisionView::Fail(
            AutoMoveErrorView::WouldOverwrite { path: move_to },
        ),
{
}

/// Law: a dry run never creates directories, never overwrites and never
/// renames — creation is skipped up front and the guard never asks for a
/// rename — yet on a conflict-free entry (destination absent) it reports
/// the same success a live run reports once its rename succeeds; the
/// planning stage ([`spec_run_rule`]) does not depend on the mode at
/// all.
pub proof fn lemma_dry_run_safe(
    allow_overwrite: bool,
    exists: Result<bool, Seq<char>>,
    move_to: Seq<char>,
)
    ensures
        spec_move_begin(true) is CheckExistsFirst,
        !(spec_decide_move(true, allow_overwrite, exists, move_to) is DoRename),
        exists == Ok::<bool, Seq<char>>(false) ==> spec_decide_move(
            true,
            allow_overwrite,
            exists,
            move_to,
        ) is ReportSuccess && spec_decide_move(
            false,
            allow_overwrite,
            exists,
            move_to,
        ) is DoRename,
{
}

// ------------------------------------------------------------------
// Construction from configuration.
// ------------------------------------------------------------------
/// Whether one built rule matches its configuration: everything but the
/// expanded paths, which depend on the process environment.
pub open spec fn spec_rule_ok(r: AutoMoveRule, cfg: crate::config::AutoMoveRule) -> bool {
    &&& rule_view(r.match_rules) == spec_compile(cfg.match_rules@)
    &&& (r.custom_name is Some <==> cfg.name is Some)
    &&& (r.custom_name is Some ==> r.custom_name->0@ == cfg.name->0@)
    &&& (r.to_script is Some <==> cfg.to_script is Some)
}

/// Whether the rules stand in ascending display-name order.
pub open spec fn spec_rules_sorted(rs: Seq<AutoMoveRule>) -> bool {
    forall|p: int, q: int|
        0 <= p < q < rs.len() ==> spec_str_le(
            spec_display_name(#[trigger] rs[p]),
            spec_display_name(#[trigger] rs[q]),
        )
}

/// Sorts the rules ascending by display name, by insertion into an
/// already sorted list; exactly the same rules come out.
#[verifier::loop_isolation(false)]
fn sort_rules(rules: Vec<AutoMoveRule>) -> (r: Vec<AutoMoveRule>)
    ensures
        r@.len() == rules@.len(),
        r@.to_multiset() == rules@.to_multiset(),
        spec_rules_sorted(r@),
{
    let ghost orig = rules@;
    let mut input = rules;
    let mut out: Vec<AutoMoveRule> = Vec::new();
    proof {
        assert(out@.to_multiset().add(input@.to_multiset()) =~= orig.to_multiset());
    }
    while input.len() > 0
        invariant
            out@.len() + input@.len() == orig.len(),
            out@.to_multiset().add(input@.to_multiset()) == orig.to_multiset(),
            spec_rules_sorted(out@),
        decreases input@.len(),
    {
        let ghost in0 = input@;
        let x = input.remove(0);
        let key = x.display_name();
        let ghost out1 = out@;
        let mut pos: usize = 0;
        while pos < out.len() && str_le(out[pos].display_name().as_str(), key.as_str())
            invariant
                0 <= pos <= out1.len(),
                out@ == out1,
                forall|t: int|
                    0 <= t < pos ==> spec_str_le(
                        spec_display_name(#[trigger] out1[t]),
                        spec_display_name(x),
                    ),
            decreases out1.len() - pos,
        {
            pos += 1;
        }
        proof {
            if pos < out1.len() {
                lemma_str_le_total(spec_display_name(out1[pos as int]), spec_display_name(x));
                assert(spec_str_le(spec_display_name(x), spec_display_name(out1[pos as int])));
            }
        }
        out.insert(pos, x);
        proof {
            assert forall|p: int, q: int| 0 <= p < q < out@.len() implies spec_str_le(
                spec_display_name(out@[p]),
                spec_display_name(out@[q]),
            ) by {
                if q < pos {
                } else if q == pos {
                    assert(out@[p] == out1[p]);
                    assert(out@[q] == x);
                } else if p == pos {
                    assert(out@[p] == x);
                    assert(out@[q] == out1[q - 1]);
                    if q - 1 > pos {
                        lemma_str_le_trans(
                            spec_display_name(x),
                            spec_display_name(out1[pos as int]),
                            spec_display_name(out1[q - 1]),
                        );
                    }
                } else if p < pos {
                    assert(out@[p] == out1[p]);
                    assert(out@[q] == out1[q - 1]);
                } else {
                    assert(out@[p] == out1[p - 1]);
                    assert(out@[q] == out1[q - 1]);
                }
            }
            assert(input@.to_multiset() =~= in0.to_multiset().remove(in0[0]));
            assert(out@.to_multiset() =~= out1.to_multiset().insert(x));
            assert(out@.to_multiset().add(input@.to_multiset()) =~= orig.to_multiset());
        }
    }
    proof {
        assert(input@.to_multiset() =~= Multiset::<AutoMoveRule>::empty());
        assert(out@.to_multiset().add(Multiset::<AutoMoveRule>::empty()) =~= out@.to_multiset());
        assert(out@.len() == out@.to_multiset().len());
        assert(orig.len() == orig.to_multiset().len());
    }
    out
}

/// Sets up an [`AutoMove`] from config. Every configured rule yields one
/// auto-move rule whose matcher follows [`spec_compile`]; source and
/// destination paths get their environment references expanded, a
/// relative rename-script path is resolved under the configuration
/// file's directory, and the built rules are sorted ascending by display
/// name. A failed expansion or a rejected pattern fails the whole
/// construction before anything runs; with no rules configured (or when
/// every pattern compiles and every expansion succeeds) construction
/// succeeds.
#[verifier::loop_isolation(false)]
pub fn from_config(config: &Config, config_dir: &str, parent: Option<String>) -> (r: Result<
    AutoMove,
    ConfigError,
>)
    ensures
        r matches Ok(am) ==> {
            &&& am.parent == parent
            &&& am.rules@.len() == config.automove.rules@.len()
            &&& spec_rules_sorted(am.rules@)
            &&& exists|built: Seq<AutoMoveRule>|
                {
                    &&& #[trigger] built.to_multiset() == am.rules@.to_multiset()
                    &&& built.len() == config.automove.rules@.len()
                    &&& forall|i: int|
                        0 <= i < built.len() ==> spec_rule_ok(
                            #[trigger] built[i],
                            config.automove.rules@[i],
                        )
                }
        },
        config.automove.rules@.len() == 0 ==> r is Ok,
        config.automove.rules@.len() > 0 && !crate::rules::spec_compile_ok(
            config.automove.rules@[0].match_rules@,
        ) ==> r == Err::<AutoMove, ConfigError>(ConfigError::InvalidPattern),
        r matches Err(e) ==> (e is InvalidPattern || e is ExpansionFailed),
        r == Err::<AutoMove, ConfigError>(ConfigError::InvalidPattern) ==> exists|t: int|
            0 <= t < config.automove.rules@.len() && !crate::rules::spec_compile_ok(
                (#[trigger] config.automove.rules@[t]).match_rules@,
            ),
{
    let mut rules: Vec<AutoMoveRule> = Vec::new();
    let mut i: usize = 0;
    while i < config.automove.rules.len()
        invariant
            0 <= i <= config.automove.rules@.len(),
            rules@.len() == i,
            forall|t: int|
                0 <= t < i ==> spec_rule_ok(#[trigger] rules@[t], config.automove.rules@[t]),
            forall|t: int|
                0 <= t < i ==> crate::rules::spec_compile_ok(
                    (#[trigger] config.automove.rules@[t]).match_rules@,
                ),
        decreases config.automove.rules@.len() - i,
    {
        let config_rule = &config.automove.rules[i];
        let match_rules = match compile_config_rules(&config_rule.match_rules) {
            Ok(m) => m,
            Err(_) => {
                proof {
                    assert(!crate::rules::spec_compile_ok(
                        config.automove.rules@[i as int].match_rules@,
                    ));
                }
                return Err(ConfigError::InvalidPattern);
            },
        };
        let directory = match crate::config::expand_env(config_rule.parent.as_str()) {
            Ok(p) => p,
            Err(_) => {
                return Err(ConfigError::ExpansionFailed);
            },
        };
        let to = match crate::config::expand_env(config_rule.to.as_str()) {
            Ok(p) => p,
            Err(_) => {
                return Err(ConfigError::ExpansionFailed);
            },
        };
        let to_script = match &config_rule.to_script {
            Some(path) => {
                let expanded = match crate::config::expand_env(path.as_str()) {
                    Ok(p) => p,
                    Err(_) => {
                        return Err(ConfigError::ExpansionFailed);
                    },
                };
                if is_absolute_path(expanded.as_str()) {
                    Some(expanded)
                } else {
                    Some(join_path(config_dir, expanded.as_str()))
                }
            },
            None => None,
        };
        let custom_name = match &config_rule.name {
            Some(name) => Some(name.clone()),
            None => None,
        };
        rules.push(AutoMoveRule { custom_name, directory, match_rules, to, to_script });
        i += 1;
    }
    let ghost built = rules@;
    let rules = sort_rules(rules);
    proof {
        assert(built.to_multiset() == rules@.to_multiset());
        assert(exists|b: Seq<AutoMoveRule>|
            {
                &&& #[trigger] b.to_multiset() == rules@.to_multiset()
                &&& b.len() == config.automove.rules@.len()
                &&& forall|t: int|
                    0 <= t < b.len() ==> spec_rule_ok(
                        #[trigger] b[t],
                        config.automove.rules@[t],
                    )
            });
    }
    Ok(AutoMove { parent, rules })
}

} // verus!
