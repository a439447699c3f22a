//! The rule-matching engine: a composable boolean predicate tree evaluated
//! per filesystem entry.
//!
//! A [`FileMatchRule`] is built once from configuration by
//! [`compile_config_rules`] and then evaluated against directory entries
//! with [`FileMatchRule::matches_dir_entry`]. Filename patterns are
//! compiled into one [`regex::RegexSet`] alternation at configuration-load
//! time; evaluation never recompiles patterns.
//!
//! The mathematical meaning of a rule is its [`RuleView`], and evaluation
//! is specified by [`spec_matches`]: children of a conjunction or
//! disjunction are consulted left to right, the first failing (or first
//! matching) child decides, and an entry whose metadata is needed but
//! unavailable yields no verdict (`None`).

use vstd::prelude::*;

use crate::config::MatchRule;
use crate::fsmodel::{EntryKind, FsEntry};

verus! {

/// A type of file that a rule may require.
#[derive(Clone, Copy, PartialEq, Eq, Structural, Debug)]
pub enum FileType {
    /// A simple file.
    File,
    /// A directory.
    Directory,
}

/// Whether an entry of resolved kind `kind` has the required type `t`.
pub open spec fn spec_kind_matches(t: FileType, kind: EntryKind) -> bool {
    match t {
        FileType::File => kind is File,
        FileType::Directory => kind is Directory,
    }
}

/// Evaluating a rule against an entry whose metadata cannot be read
/// produces this error instead of a verdict.
#[derive(Clone, Copy, PartialEq, Eq, Structural, Debug)]
pub enum MatchError {
    /// The entry's resolved metadata was unavailable.
    MetadataUnavailable,
}

/// The verdict of an evaluation, with `None` for an evaluation that
/// needed unavailable metadata.
pub open spec fn outcome(r: Result<bool, MatchError>) -> Option<bool> {
    match r {
        Ok(b) => Some(b),
        Err(_) => None,
    }
}

// ------------------------------------------------------------------
// Trusted view of the regex crate.
// ------------------------------------------------------------------
#[verifier::external_type_specification]
#[verifier::external_body]
pub struct ExRegexSet(regex::RegexSet);

#[verifier::external_type_specification]
#[verifier::external_body]
pub struct ExRegexError(regex::Error);

/// The pattern texts a compiled [`regex::RegexSet`] was built from.
pub uninterp spec fn set_patterns(s: regex::RegexSet) -> Seq<Seq<char>>;

/// Whether the regex engine accepts every pattern text of the list.
pub uninterp spec fn regex_build_ok(patterns: Seq<Seq<char>>) -> bool;

/// Whether at least one pattern of the list matches (somewhere in) the text.
pub uninterp spec fn regex_set_matches(patterns: Seq<Seq<char>>, text: Seq<char>) -> bool;

/// The text with every regular-expression meta character escaped.
pub uninterp spec fn escaped(text: Seq<char>) -> Seq<char>;

/// Relies on regex::RegexSetBuilder::build, with the builder's default
/// settings made explicit (unicode on, case-sensitive, single-line):
/// compilation succeeds exactly when every pattern text is a valid regular
/// expression, which is a property of the texts alone, and the compiled
/// set holds exactly those pattern texts.
#[verifier::external_body]
fn build_regex_set(patterns: &Vec<String>) -> (r: Result<regex::RegexSet, regex::Error>)
    ensures
        r is Ok <==> regex_build_ok(patterns.deep_view()),
        r matches Ok(s) ==> set_patterns(s) == patterns.deep_view(),
{
    regex::RegexSetBuilder::new(patterns).unicode(true).case_insensitive(false).multi_line(
        false,
    ).build()
}

/// Relies on regex::RegexSet::is_match: true exactly when one of the set's
/// patterns matches somewhere in the haystack, a function of the pattern
/// texts and the haystack alone.
pub assume_specification[ regex::RegexSet::is_match ](set: &regex::RegexSet, haystack: &str) -> (r:
    bool)
    ensures
        r == regex_set_matches(set_patterns(*set), haystack@),
;

/// Relies on regex::escape: escapes every regular-expression meta
/// character in the text, a function of the text alone.
pub assume_specification[ regex::escape ](pattern: &str) -> (r: String)
    ensures
        r@ == escaped(pattern@),
;

// ------------------------------------------------------------------
// The rule tree and its meaning.
// ------------------------------------------------------------------
/// A rule checking whether a file matches configured criteria.
#[derive(Debug)]
pub enum FileMatchRule {
    /// No file is valid.
    MatchNone,
    /// All the nested rules must match for the file to be valid.
    MergeAnd(Vec<FileMatchRule>),
    /// Any of the nested rules needs to match for the file to be valid.
    ///
    /// An empty disjunction matches every file: an absent allow-list is
    /// represented as `MergeOr` of nothing and means "unrestricted".
    MergeOr(Vec<FileMatchRule>),
    /// The file needs to be of the given resolved type to be valid.
    Type(FileType),
    /// The file's name needs to match the given pattern set to be valid.
    Name(regex::RegexSet),
}

/// The mathematical shape of a rule: the same tree, with the compiled
/// pattern set replaced by the pattern texts it was built from.
pub enum RuleView {
    MatchNone,
    MergeAnd(Seq<RuleView>),
    MergeOr(Seq<RuleView>),
    Type(FileType),
    Name(Seq<Seq<char>>),
}

/// The view of a rule tree (see [`RuleView`]).
pub open spec fn rule_view(r: FileMatchRule) -> RuleView
    decreases r, 1int, 0int,
{
    match r {
        FileMatchRule::MatchNone => RuleView::MatchNone,
        FileMatchRule::MergeAnd(cs) => RuleView::MergeAnd(rule_views(cs@)),
        FileMatchRule::MergeOr(cs) => RuleView::MergeOr(rule_views(cs@)),
        FileMatchRule::Type(t) => RuleView::Type(t),
        FileMatchRule::Name(s) => RuleView::Name(set_patterns(s)),
    }
}

/// The views of a list of rule trees, in order.
pub open spec fn rule_views(cs: Seq<FileMatchRule>) -> Seq<RuleView>
    decreases cs, 0int, 0int,
{
    if cs.len() == 0 {
        Seq::empty()
    } else {
        rule_views(cs.subrange(0, cs.len() - 1)).push(rule_view(cs[cs.len() - 1]))
    }
}

pub proof fn lemma_rule_views_len(cs: Seq<FileMatchRule>)
    ensures
        rule_views(cs).len() == cs.len(),
    decreases cs.len(),
{
    if cs.len() > 0 {
        lemma_rule_views_len(cs.subrange(0, cs.len() - 1));
    }
}

pub proof fn lemma_rule_views_index(cs: Seq<FileMatchRule>, i: int)
    requires
        0 <= i < cs.len(),
    ensures
        rule_views(cs).len() == cs.len(),
        rule_views(cs)[i] == rule_view(cs[i]),
    decreases cs.len(),
{
    lemma_rule_views_len(cs);
    let pre = cs.subrange(0, cs.len() - 1);
    lemma_rule_views_len(pre);
    if i < cs.len() - 1 {
        lemma_rule_views_index(pre, i);
        assert(pre[i] == cs[i]);
    }
}

/// The verdict of a rule on an entry with filename `name` and resolved
/// kind `kind` (`kind` is `None` when the metadata could not be read):
/// `Some(true)` for a match, `Some(false)` for a mismatch, `None` when
/// the evaluation needed the unavailable metadata.
pub open spec fn spec_matches(r: RuleView, name: Seq<char>, kind: Option<EntryKind>) -> Option<
    bool,
>
    decreases r, 1int, 0int,
{
    match r {
        RuleView::MatchNone => Some(false),
        RuleView::MergeAnd(cs) => spec_matches_and(cs, 0, name, kind),
        RuleView::MergeOr(cs) => if cs.len() == 0 {
            Some(true)
        } else {
            spec_matches_or(cs, 0, name, kind)
        },
        RuleView::Type(t) => match kind {
            Some(k) => Some(spec_kind_matches(t, k)),
            None => None,
        },
        RuleView::Name(pats) => Some(regex_set_matches(pats, name)),
    }
}

/// Conjunction of the children from index `i` on, left to right: the
/// first child that fails to match, or fails to evaluate, decides.
pub open spec fn spec_matches_and(
    cs: Seq<RuleView>,
    i: int,
    name: Seq<char>,
    kind: Option<EntryKind>,
) -> Option<bool>
    decreases cs, 0int, cs.len() - i,
{
    if i < 0 || i >= cs.len() {
        Some(true)
    } else {
        match spec_matches(cs[i], name, kind) {
            None => None,
            Some(false) => Some(false),
            Some(true) => spec_matches_and(cs, i + 1, name, kind),
        }
    }
}

/// Disjunction of the children from index `i` on, left to right: the
/// first child that matches, or fails to evaluate, decides.
pub open spec fn spec_matches_or(
    cs: Seq<RuleView>,
    i: int,
    name: Seq<char>,
    kind: Option<EntryKind>,
) -> Option<bool>
    decreases cs, 0int, cs.len() - i,
{
    if i < 0 || i >= cs.len() {
        Some(false)
    } else {
        match spec_matches(cs[i], name, kind) {
            None => None,
            Some(true) => Some(true),
            Some(false) => spec_matches_or(cs, i + 1, name, kind),
        }
    }
}

impl FileMatchRule {
    /// Checks if a directory entry matches this rule. The result follows
    /// [`spec_matches`] on the entry's filename and resolved kind; the
    /// error reports that the evaluation needed metadata that could not
    /// be read.
    #[verifier::loop_isolation(false)]
    pub fn matches_dir_entry(&self, entry: &FsEntry) -> (r: Result<bool, MatchError>)
        ensures
            outcome(r) == spec_matches(rule_view(*self), entry.name@, entry.kind),
        decreases *self,
    {
        match self {
            FileMatchRule::MatchNone => Ok(false),
            FileMatchRule::MergeAnd(merge) => {
                let ghost cs = rule_views(merge@);
                proof {
                    lemma_rule_views_len(merge@);
                }
                let mut i: usize = 0;
                while i < merge.len()
                    invariant
                        0 <= i <= merge.len(),
                        cs == rule_views(merge@),
                        cs.len() == merge@.len(),
                        spec_matches_and(cs, 0, entry.name@, entry.kind) == spec_matches_and(
                            cs,
                            i as int,
                            entry.name@,
                            entry.kind,
                        ),
                    decreases merge@.len() - i,
                {
                    proof {
                        lemma_rule_views_index(merge@, i as int);
                        assert(decreases_to!(*self => merge[i as int]));
                    }
                    match merge[i].matches_dir_entry(entry) {
                        Err(e) => {
                            return Err(e);
                        },
                        Ok(false) => {
                            return Ok(false);
                        },
                        Ok(true) => {},
                    }
                    i += 1;
                }
                Ok(true)
            },
            FileMatchRule::MergeOr(merge) => {
                let ghost cs = rule_views(merge@);
                proof {
                    lemma_rule_views_len(merge@);
                }
                if merge.len() == 0 {
                    return Ok(true);
                }
                let mut i: usize = 0;
                while i < merge.len()
                    invariant
                        0 <= i <= merge.len(),
                        merge@.len() > 0,
                        cs == rule_views(merge@),
                        cs.len() == merge@.len(),
                        spec_matches_or(cs, 0, entry.name@, entry.kind) == spec_matches_or(
                            cs,
                            i as int,
                            entry.name@,
                            entry.kind,
                        ),
                    decreases merge@.len() - i,
                {
                    proof {
                        lemma_rule_views_index(merge@, i as int);
                        assert(decreases_to!(*self => merge[i as int]));
                    }
                    match merge[i].matches_dir_entry(entry) {
                        Err(e) => {
                            return Err(e);
                        },
                        Ok(true) => {
                            return Ok(true);
                        },
                        Ok(false) => {},
                    }
                    i += 1;
                }
                Ok(false)
            },
            FileMatchRule::Type(file_type) => {
                match entry.kind {
                    Some(k) => Ok(kind_matches(*file_type, k)),
                    None => Err(MatchError::MetadataUnavailable),
                }
            },
            FileMatchRule::Name(pattern) => Ok(pattern.is_match(entry.name.as_str())),
        }
    }
}

/// Whether an entry of resolved kind `kind` has the required type `t`
/// (the executable form of [`spec_kind_matches`]).
pub fn kind_matches(t: FileType, kind: EntryKind) -> (r: bool)
    ensures
        r == spec_kind_matches(t, kind),
{
    match t {
        FileType::File => matches!(kind, EntryKind::File),
        FileType::Directory => matches!(kind, EntryKind::Directory),
    }
}

// ------------------------------------------------------------------
// Laws of evaluation.
// ------------------------------------------------------------------
/// Law: the empty conjunction matches every entry (vacuous conjunction).
pub proof fn lemma_empty_and_matches(name: Seq<char>, kind: Option<EntryKind>)
    ensures
        spec_matches(RuleView::MergeAnd(Seq::empty()), name, kind) == Some(true),
{
}

/// Law: a two-child disjunction agrees with the boolean `or` of its
/// children, consulted left to right with short-circuit: a matching left
/// child decides without the right child being consulted, a cleanly
/// mismatching left child hands the decision to the right child, and a
/// left child that cannot evaluate makes the disjunction fail to evaluate.
pub proof fn lemma_or_pair(a: RuleView, b: RuleView, name: Seq<char>, kind: Option<EntryKind>)
    ensures
        spec_matches(a, name, kind) == Some(true) ==> spec_matches(
            RuleView::MergeOr(seq![a, b]),
            name,
            kind,
        ) == Some(true),
        spec_matches(a, name, kind) == Some(false) ==> spec_matches(
            RuleView::MergeOr(seq![a, b]),
            name,
            kind,
        ) == spec_matches(b, name, kind),
        spec_matches(a, name, kind) is None ==> spec_matches(
            RuleView::MergeOr(seq![a, b]),
            name,
            kind,
        ) is None,
        spec_matches(a, name, kind) is Some && spec_matches(b, name, kind) is Some
            ==> spec_matches(RuleView::MergeOr(seq![a, b]), name, kind) == Some(
            spec_matches(a, name, kind) == Some(true) || spec_matches(b, name, kind) == Some(true),
        ),
{
    let cs = seq![a, b];
    assert(cs.len() == 2);
    assert(cs[0] == a);
    assert(cs[1] == b);
    assert(spec_matches(RuleView::MergeOr(cs), name, kind) == spec_matches_or(cs, 0, name, kind));
    if spec_matches(a, name, kind) == Some(false) {
        assert(spec_matches_or(cs, 0, name, kind) == spec_matches_or(cs, 1, name, kind));
        match spec_matches(b, name, kind) {
            Some(true) => {},
            Some(false) => {
                assert(spec_matches_or(cs, 1, name, kind) == spec_matches_or(cs, 2, name, kind));
            },
            None => {},
        }
    }
}


// ------------------------------------------------------------------
// Compiling configuration rules into one pattern set.
// ------------------------------------------------------------------
/// Compiling a list of configuration match rules can fail only on an
/// invalid raw pattern.
#[derive(Clone, Copy, PartialEq, Eq, Structural, Debug)]
pub enum RuleError {
    /// The regex engine rejected one of the pattern texts.
    InvalidPattern,
}

/// The escaped name literals of the rules from index `i` on, in order.
pub open spec fn name_pats_from(rules: Seq<MatchRule>, i: int) -> Seq<Seq<char>>
    decreases rules.len() - i,
{
    if i < 0 || i >= rules.len() {
        Seq::empty()
    } else {
        let rest = name_pats_from(rules, i + 1);
        match rules[i] {
            MatchRule::Name { name } => seq![escaped(name@)] + rest,
            _ => rest,
        }
    }
}

/// The escaped extension literals of the rules from index `i` on, in order.
pub open spec fn ext_pats_from(rules: Seq<MatchRule>, i: int) -> Seq<Seq<char>>
    decreases rules.len() - i,
{
    if i < 0 || i >= rules.len() {
        Seq::empty()
    } else {
        let rest = ext_pats_from(rules, i + 1);
        match rules[i] {
            MatchRule::Extension { ext } => seq![escaped(ext@)] + rest,
            _ => rest,
        }
    }
}

/// The raw pattern texts of the rules from index `i` on, in order,
/// taken verbatim (raw patterns are never escaped).
pub open spec fn raw_pats_from(rules: Seq<MatchRule>, i: int) -> Seq<Seq<char>>
    decreases rules.len() - i,
{
    if i < 0 || i >= rules.len() {
        Seq::empty()
    } else {
        let rest = raw_pats_from(rules, i + 1);
        match rules[i] {
            MatchRule::Pattern { pattern } => seq![pattern@] + rest,
            _ => rest,
        }
    }
}

/// The parts joined with `|` between them.
pub open spec fn spec_join_alt(ps: Seq<Seq<char>>) -> Seq<char>
    decreases ps.len(),
{
    if ps.len() == 0 {
        Seq::empty()
    } else if ps.len() == 1 {
        ps[0]
    } else {
        spec_join_alt(ps.subrange(0, ps.len() - 1)) + seq!['|'] + ps[ps.len() - 1]
    }
}

/// The anchored alternation of the name literals: `^(n1|n2|...)$`.
pub open spec fn spec_name_pattern(names: Seq<Seq<char>>) -> Seq<char> {
    "^("@ + spec_join_alt(names) + ")$"@
}

/// The anchored alternation of the extension literals: `\.(e1|e2|...)$`.
pub open spec fn spec_ext_pattern(exts: Seq<Seq<char>>) -> Seq<char> {
    "\\.("@ + spec_join_alt(exts) + ")$"@
}

/// The pattern texts compiled from a rule list: one anchored alternation
/// for the name literals (when any), one for the extension literals
/// (when any), then the raw patterns verbatim.
pub open spec fn spec_patterns(rules: Seq<MatchRule>) -> Seq<Seq<char>> {
    let names = name_pats_from(rules, 0);
    let exts = ext_pats_from(rules, 0);
    let raws = raw_pats_from(rules, 0);
    (if names.len() > 0 {
        seq![spec_name_pattern(names)]
    } else {
        Seq::empty()
    }) + (if exts.len() > 0 {
        seq![spec_ext_pattern(exts)]
    } else {
        Seq::empty()
    }) + raws
}

/// Whether compiling a rule list succeeds: nothing is built when there
/// are no pattern texts, and otherwise the regex engine must accept them.
pub open spec fn spec_compile_ok(rules: Seq<MatchRule>) -> bool {
    spec_patterns(rules).len() == 0 || regex_build_ok(spec_patterns(rules))
}

/// The matcher a rule list compiles to: an empty list allows nothing,
/// and a non-empty list becomes one pattern-set rule over
/// [`spec_patterns`].
pub open spec fn spec_compile(rules: Seq<MatchRule>) -> RuleView {
    if rules.len() == 0 {
        RuleView::MatchNone
    } else if spec_patterns(rules).len() == 0 {
        RuleView::MatchNone
    } else {
        RuleView::Name(spec_patterns(rules))
    }
}

/// Joins the parts with `|` between them.
#[verifier::loop_isolation(false)]
fn join_alternation(parts: &Vec<String>) -> (r: String)
    ensures
        r@ == spec_join_alt(parts.deep_view()),
{
    let ghost ps = parts.deep_view();
    let mut out = String::new();
    let mut i: usize = 0;
    while i < parts.len()
        invariant
            0 <= i <= parts.len(),
            ps.len() == parts@.len(),
            out@ == spec_join_alt(ps.subrange(0, i as int)),
        decreases parts@.len() - i,
    {
        if i > 0 {
            out.append("|");
            proof {
                reveal_strlit("|");
                assert(out@ =~= spec_join_alt(ps.subrange(0, i as int)) + seq!['|']);
            }
        }
        out.append(parts[i].as_str());
        proof {
            let pre0 = ps.subrange(0, i as int);
            let pre1 = ps.subrange(0, i as int + 1);
            assert(pre1.subrange(0, pre1.len() - 1) =~= pre0);
            assert(pre1[pre1.len() - 1] == ps[i as int]);
            assert(ps[i as int] == parts@[i as int]@);
            if i == 0 {
                assert(out@ =~= spec_join_alt(pre1));
            } else {
                assert(out@ =~= spec_join_alt(pre0) + seq!['|'] + ps[i as int]);
            }
        }
        i += 1;
    }
    proof {
        assert(ps.subrange(0, parts@.len() as int) =~= ps);
    }
    out
}

/// Builds the pattern texts of [`spec_patterns`] for a rule list.
#[verifier::loop_isolation(false)]
fn pattern_texts(rules: &Vec<MatchRule>) -> (r: Vec<String>)
    ensures
        r.deep_view() == spec_patterns(rules@),
{
    let mut names: Vec<String> = Vec::new();
    let mut extensions: Vec<String> = Vec::new();
    let mut raw_patterns: Vec<String> = Vec::new();
    let mut i: usize = 0;
    while i < rules.len()
        invariant
            0 <= i <= rules.len(),
            name_pats_from(rules@, 0) =~= names.deep_view() + name_pats_from(rules@, i as int),
            ext_pats_from(rules@, 0) =~= extensions.deep_view() + ext_pats_from(
                rules@,
                i as int,
            ),
            raw_pats_from(rules@, 0) =~= raw_patterns.deep_view() + raw_pats_from(
                rules@,
                i as int,
            ),
        decreases rules@.len() - i,
    {
        let ghost ndv = names.deep_view();
        let ghost edv = extensions.deep_view();
        let ghost rdv = raw_patterns.deep_view();
        match &rules[i] {
            MatchRule::Name { name } => {
                let e = regex::escape(name.as_str());
                names.push(e);
                proof {
                    assert(names.deep_view() =~= ndv.push(escaped(name@)));
                    assert(ndv.push(escaped(name@)) + name_pats_from(rules@, i as int + 1) =~= ndv
                        + name_pats_from(rules@, i as int));
                }
            },
            MatchRule::Extension { ext } => {
                let e = regex::escape(ext.as_str());
                extensions.push(e);
                proof {
                    assert(extensions.deep_view() =~= edv.push(escaped(ext@)));
                    assert(edv.push(escaped(ext@)) + ext_pats_from(rules@, i as int + 1) =~= edv
                        + ext_pats_from(rules@, i as int));
                }
            },
            MatchRule::Pattern { pattern } => {
                let p = pattern.clone();
                raw_patterns.push(p);
                proof {
                    assert(raw_patterns.deep_view() =~= rdv.push(pattern@));
                    assert(rdv.push(pattern@) + raw_pats_from(rules@, i as int + 1) =~= rdv
                        + raw_pats_from(rules@, i as int));
                }
            },
        }
        i += 1;
    }
    proof {
        assert(names.deep_view() + name_pats_from(rules@, rules@.len() as int) =~= names.deep_view());
        assert(extensions.deep_view() + ext_pats_from(rules@, rules@.len() as int)
            =~= extensions.deep_view());
        assert(raw_patterns.deep_view() + raw_pats_from(rules@, rules@.len() as int)
            =~= raw_patterns.deep_view());
    }
    let mut patterns: Vec<String> = Vec::new();
    if names.len() > 0 {
        let mut p = String::from_str("^(");
        p.append(join_alternation(&names).as_str());
        p.append(")$");
        patterns.push(p);
    }
    if extensions.len() > 0 {
        let mut p = String::from_str("\\.(");
        p.append(join_alternation(&extensions).as_str());
        p.append(")$");
        patterns.push(p);
    }
    let mut j: usize = 0;
    let ghost head = patterns.deep_view();
    proof {
        assert(head =~= (if name_pats_from(rules@, 0).len() > 0 {
            seq![spec_name_pattern(name_pats_from(rules@, 0))]
        } else {
            Seq::<Seq<char>>::empty()
        }) + (if ext_pats_from(rules@, 0).len() > 0 {
            seq![spec_ext_pattern(ext_pats_from(rules@, 0))]
        } else {
            Seq::<Seq<char>>::empty()
        }));
    }
    while j < raw_patterns.len()
        invariant
            0 <= j <= raw_patterns.len(),
            patterns.deep_view() =~= head + raw_patterns.deep_view().subrange(0, j as int),
        decreases raw_patterns@.len() - j,
    {
        let ghost pdv = patterns.deep_view();
        let p = raw_patterns[j].clone();
        patterns.push(p);
        proof {
            assert(patterns.deep_view() =~= pdv.push(raw_patterns@[j as int]@));
            assert(raw_patterns.deep_view().subrange(0, j as int + 1) =~= raw_patterns.deep_view()
                .subrange(0, j as int).push(raw_patterns@[j as int]@));
        }
        j += 1;
    }
    proof {
        assert(raw_patterns.deep_view().subrange(0, raw_patterns@.len() as int)
            =~= raw_patterns.deep_view());
        assert(patterns.deep_view() =~= spec_patterns(rules@));
    }
    patterns
}

/// Compiles a list of configuration match rules into a [`FileMatchRule`]
/// for efficient checks: an empty list allows nothing; a non-empty list
/// becomes one pattern-set rule whose texts follow [`spec_patterns`].
/// Compilation succeeds exactly when the regex engine accepts those
/// texts (literals are escaped, so only a raw pattern can be rejected).
pub fn compile_config_rules(rules: &Vec<MatchRule>) -> (r: Result<FileMatchRule, RuleError>)
    ensures
        r matches Ok(m) ==> rule_view(m) == spec_compile(rules@),
        r is Ok <==> spec_compile_ok(rules@),
        r matches Err(e) ==> e is InvalidPattern,
{
    if rules.len() == 0 {
        return Ok(FileMatchRule::MatchNone);
    }
    let patterns = pattern_texts(rules);
    if patterns.len() == 0 {
        return Ok(FileMatchRule::MatchNone);
    }
    match build_regex_set(&patterns) {
        Ok(set) => Ok(FileMatchRule::Name(set)),
        Err(_) => Err(RuleError::InvalidPattern),
    }
}

/// Law: compiling the same list of match rules twice yields matchers with
/// identical matching behavior on every filename and entry kind; the
/// compiled shape is a function of the rule list alone.
pub proof fn lemma_compile_deterministic(rules: Seq<MatchRule>, a: RuleView, b: RuleView)
    requires
        a == spec_compile(rules),
        b == spec_compile(rules),
    ensures
        forall|name: Seq<char>, kind: Option<EntryKind>|
            spec_matches(a, name, kind) == #[trigger] spec_matches(b, name, kind),
{
}

} // verus!
