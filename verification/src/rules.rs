//! Indexer rules: what a location wants indexed and what it wants left out.
//!
//! A rule is stored as a kind and encoded parameters. Before a walk the rules
//! of a location are compiled once into a rule set, which then answers for
//! every path.

use crate::codec::{
    decode_error_text, decode_names, decode_text, decoded_names, decoded_text, encode_error_text,
    encode_names, encode_text, fits_names, fits_text, msgpack_names, msgpack_text,
};
use crate::error::IndexerError;
use crate::glob::{
    add_glob, build_glob_set, glob_error_text, glob_matches, glob_parses, glob_set_builds,
    glob_set_is_match, glob_set_patterns, new_glob_set_builder,
};
use crate::location::IndexerRuleData;
use globset::GlobSet;
use vstd::prelude::*;
use vstd::string::*;

verus! {

/// What a rule does.
#[derive(Debug, Clone, Copy, PartialEq, Eq, Structural)]
pub enum RuleKind {
    /// A file passes if the glob matches its path.
    AcceptFilesByGlob,
    /// A path passes if the glob does not match it.
    RejectFilesByGlob,
    /// A directory passes if it holds a directory with one of the names.
    AcceptIfChildrenDirectoriesArePresent,
    /// A directory passes if it holds no directory with one of the names.
    RejectIfChildrenDirectoriesArePresent,
}

/// The kind that is stored as `value`, if there is one.
pub open spec fn kind_of_int(value: int) -> Option<RuleKind> {
    if value == 0 {
        Some(RuleKind::AcceptFilesByGlob)
    } else if value == 1 {
        Some(RuleKind::RejectFilesByGlob)
    } else if value == 2 {
        Some(RuleKind::AcceptIfChildrenDirectoriesArePresent)
    } else if value == 3 {
        Some(RuleKind::RejectIfChildrenDirectoriesArePresent)
    } else {
        None
    }
}

/// The integer as which a kind is stored.
pub open spec fn int_of_kind(kind: RuleKind) -> int {
    match kind {
        RuleKind::AcceptFilesByGlob => 0,
        RuleKind::RejectFilesByGlob => 1,
        RuleKind::AcceptIfChildrenDirectoriesArePresent => 2,
        RuleKind::RejectIfChildrenDirectoriesArePresent => 3,
    }
}

/// Every kind is read back from the integer it is stored as.
pub proof fn lemma_kind_round_trip(kind: RuleKind)
    ensures
        kind_of_int(int_of_kind(kind)) == Some(kind),
{
}

impl RuleKind {
    /// Reads a stored kind. An integer that stands for no kind is an error
    /// that names the integer.
    pub fn from_int(value: i32) -> (r: Result<RuleKind, IndexerError>)
        ensures
            match kind_of_int(value as int) {
                Some(kind) => r == Ok::<RuleKind, IndexerError>(kind),
                None => r == Err::<RuleKind, IndexerError>(IndexerError::InvalidRuleKindInt(value)),
            },
    {
        if value == 0 {
            Ok(RuleKind::AcceptFilesByGlob)
        } else if value == 1 {
            Ok(RuleKind::RejectFilesByGlob)
        } else if value == 2 {
            Ok(RuleKind::AcceptIfChildrenDirectoriesArePresent)
        } else if value == 3 {
            Ok(RuleKind::RejectIfChildrenDirectoriesArePresent)
        } else {
            Err(IndexerError::InvalidRuleKindInt(value))
        }
    }

    /// The integer as which this kind is stored.
    pub fn int_value(self) -> (r: i32)
        ensures
            r == int_of_kind(self),
    {
        match self {
            RuleKind::AcceptFilesByGlob => 0,
            RuleKind::RejectFilesByGlob => 1,
            RuleKind::AcceptIfChildrenDirectoriesArePresent => 2,
            RuleKind::RejectIfChildrenDirectoriesArePresent => 3,
        }
    }
}

/// The parameters of a rule, by kind: a glob pattern, or names of child
/// directories.
#[derive(Debug)]
pub enum ParametersPerKind {
    AcceptFilesByGlob(String),
    RejectFilesByGlob(String),
    AcceptIfChildrenDirectoriesArePresent(Vec<String>),
    RejectIfChildrenDirectoriesArePresent(Vec<String>),
}

/// Parameters as plain values.
pub enum ParametersView {
    AcceptFilesByGlob(Seq<char>),
    RejectFilesByGlob(Seq<char>),
    AcceptIfChildrenDirectoriesArePresent(Seq<Seq<char>>),
    RejectIfChildrenDirectoriesArePresent(Seq<Seq<char>>),
}

impl View for ParametersPerKind {
    type V = ParametersView;

    open spec fn view(&self) -> ParametersView {
        match self {
            ParametersPerKind::AcceptFilesByGlob(p) => ParametersView::AcceptFilesByGlob(p@),
            ParametersPerKind::RejectFilesByGlob(p) => ParametersView::RejectFilesByGlob(p@),
            ParametersPerKind::AcceptIfChildrenDirectoriesArePresent(names) =>
                ParametersView::AcceptIfChildrenDirectoriesArePresent(names.deep_view()),
            ParametersPerKind::RejectIfChildrenDirectoriesArePresent(names) =>
                ParametersView::RejectIfChildrenDirectoriesArePresent(names.deep_view()),
        }
    }
}

/// The kind of given parameters.
pub open spec fn kind_of_parameters(parameters: ParametersView) -> RuleKind {
    match parameters {
        ParametersView::AcceptFilesByGlob(_) => RuleKind::AcceptFilesByGlob,
        ParametersView::RejectFilesByGlob(_) => RuleKind::RejectFilesByGlob,
        ParametersView::AcceptIfChildrenDirectoriesArePresent(_) =>
            RuleKind::AcceptIfChildrenDirectoriesArePresent,
        ParametersView::RejectIfChildrenDirectoriesArePresent(_) =>
            RuleKind::RejectIfChildrenDirectoriesArePresent,
    }
}

/// Parameters of the glob kind `kind` with the pattern `pattern`.
pub open spec fn glob_parameters(kind: RuleKind, pattern: Seq<char>) -> ParametersView {
    if kind == RuleKind::AcceptFilesByGlob {
        ParametersView::AcceptFilesByGlob(pattern)
    } else {
        ParametersView::RejectFilesByGlob(pattern)
    }
}

/// Parameters of the children kind `kind` with the names `names`.
pub open spec fn children_parameters(kind: RuleKind, names: Seq<Seq<char>>) -> ParametersView {
    if kind == RuleKind::AcceptIfChildrenDirectoriesArePresent {
        ParametersView::AcceptIfChildrenDirectoriesArePresent(names)
    } else {
        ParametersView::RejectIfChildrenDirectoriesArePresent(names)
    }
}

/// The stored form of parameters.
pub open spec fn stored_form(parameters: ParametersView) -> Seq<u8> {
    match parameters {
        ParametersView::AcceptFilesByGlob(p) => msgpack_text(p),
        ParametersView::RejectFilesByGlob(p) => msgpack_text(p),
        ParametersView::AcceptIfChildrenDirectoriesArePresent(n) => msgpack_names(n),
        ParametersView::RejectIfChildrenDirectoriesArePresent(n) => msgpack_names(n),
    }
}

/// Whether parameters can be stored: every length fits its header.
pub open spec fn storable(parameters: ParametersView) -> bool {
    match parameters {
        ParametersView::AcceptFilesByGlob(p) => fits_text(p),
        ParametersView::RejectFilesByGlob(p) => fits_text(p),
        ParametersView::AcceptIfChildrenDirectoriesArePresent(n) => fits_names(n),
        ParametersView::RejectIfChildrenDirectoriesArePresent(n) => fits_names(n),
    }
}

/// Whether rules of this kind take a glob pattern.
pub open spec fn takes_glob(kind: RuleKind) -> bool {
    kind == RuleKind::AcceptFilesByGlob || kind == RuleKind::RejectFilesByGlob
}

/// A rule, ready to be compiled.
#[derive(Debug)]
pub struct IndexerRule {
    /// The id under which the rule is stored, once it is.
    pub id: Option<i32>,
    pub kind: RuleKind,
    pub name: String,
    pub parameters: ParametersPerKind,
}

impl IndexerRule {
    /// Whether the parameters are of the rule's kind.
    pub open spec fn wf(&self) -> bool {
        kind_of_parameters(self.parameters@) == self.kind
    }

    /// Makes a glob rule: one that accepts files where `accept` is set, else
    /// one that rejects paths.
    pub fn new_files_by_glob(id: Option<i32>, name: String, accept: bool, pattern: String) -> (r:
        IndexerRule)
        ensures
            r.id == id,
            r.kind == if accept {
                RuleKind::AcceptFilesByGlob
            } else {
                RuleKind::RejectFilesByGlob
            },
            r.name == name,
            r.parameters@ == glob_parameters(r.kind, pattern@),
            r.wf(),
    {
        if accept {
            IndexerRule {
                id,
                kind: RuleKind::AcceptFilesByGlob,
                name,
                parameters: ParametersPerKind::AcceptFilesByGlob(pattern),
            }
        } else {
            IndexerRule {
                id,
                kind: RuleKind::RejectFilesByGlob,
                name,
                parameters: ParametersPerKind::RejectFilesByGlob(pattern),
            }
        }
    }

    /// Makes a rule on child directories: one that accepts a directory that
    /// holds one of them where `accept` is set, else one that rejects it.
    pub fn new_children_directories(
        id: Option<i32>,
        name: String,
        accept: bool,
        names: Vec<String>,
    ) -> (r: IndexerRule)
        ensures
            r.id == id,
            r.kind == if accept {
                RuleKind::AcceptIfChildrenDirectoriesArePresent
            } else {
                RuleKind::RejectIfChildrenDirectoriesArePresent
            },
            r.name == name,
            r.parameters@ == children_parameters(r.kind, names.deep_view()),
            r.wf(),
    {
        if accept {
            IndexerRule {
                id,
                kind: RuleKind::AcceptIfChildrenDirectoriesArePresent,
                name,
                parameters: ParametersPerKind::AcceptIfChildrenDirectoriesArePresent(names),
            }
        } else {
            IndexerRule {
                id,
                kind: RuleKind::RejectIfChildrenDirectoriesArePresent,
                name,
                parameters: ParametersPerKind::RejectIfChildrenDirectoriesArePresent(names),
            }
        }
    }

    /// Reads a stored rule. A kind that is not known and parameters that do
    /// not decode are errors: the rule is never passed over in silence.
    /// Parameters that were stored in their stored form are read back as
    /// they were.
    pub fn try_from(data: &IndexerRuleData) -> (r: Result<IndexerRule, IndexerError>)
        ensures
            forall|parameters: ParametersView|
                storable(parameters) && data.parameters@ == #[trigger] stored_form(parameters)
                    && data.kind == int_of_kind(kind_of_parameters(parameters)) ==> (r matches Ok(
                    rule,
                ) && rule.parameters@ == parameters),
            match kind_of_int(data.kind as int) {
                None => r == Err::<IndexerRule, IndexerError>(
                    IndexerError::InvalidRuleKindInt(data.kind),
                ),
                Some(kind) => {
                    let parameters = if takes_glob(kind) {
                        match decoded_text(data.parameters@) {
                            Some(pattern) => Some(glob_parameters(kind, pattern)),
                            None => None,
                        }
                    } else {
                        match decoded_names(data.parameters@) {
                            Some(names) => Some(children_parameters(kind, names)),
                            None => None,
                        }
                    };
                    match parameters {
                        Some(p) => r matches Ok(rule) && rule.wf() && rule.id == Some(data.id)
                            && rule.kind == kind && rule.name@ == data.name@ && rule.parameters@
                            == p,
                        None => r matches Err(e) && e is RuleParametersRMPDecode,
                    }
                },
            },
    {
        let kind = match RuleKind::from_int(data.kind) {
            Ok(kind) => kind,
            Err(e) => {
                return Err(e);
            },
        };
        let name = data.name.clone();
        let accept = match kind {
            RuleKind::AcceptFilesByGlob => true,
            RuleKind::AcceptIfChildrenDirectoriesArePresent => true,
            _ => false,
        };
        match kind {
            RuleKind::AcceptFilesByGlob | RuleKind::RejectFilesByGlob => {
                match decode_text(data.parameters.as_slice()) {
                    Ok(pattern) => Ok(
                        IndexerRule::new_files_by_glob(Some(data.id), name, accept, pattern),
                    ),
                    Err(e) => Err(IndexerError::RuleParametersRMPDecode(decode_error_text(&e))),
                }
            },
            RuleKind::AcceptIfChildrenDirectoriesArePresent
            | RuleKind::RejectIfChildrenDirectoriesArePresent => {
                match decode_names(data.parameters.as_slice()) {
                    Ok(names) => Ok(
                        IndexerRule::new_children_directories(Some(data.id), name, accept, names),
                    ),
                    Err(e) => Err(IndexerError::RuleParametersRMPDecode(decode_error_text(&e))),
                }
            },
        }
    }

    /// Encodes the parameters of this rule for storing.
    pub fn serialize_parameters(&self) -> (r: Result<Vec<u8>, IndexerError>)
        ensures
            match r {
                Ok(bytes) => bytes@ == stored_form(self.parameters@),
                Err(e) => e is RuleParametersRMPEncode,
            },
    {
        let encoded = match &self.parameters {
            ParametersPerKind::AcceptFilesByGlob(p) => encode_text(p.as_str()),
            ParametersPerKind::RejectFilesByGlob(p) => encode_text(p.as_str()),
            ParametersPerKind::AcceptIfChildrenDirectoriesArePresent(n) => encode_names(n),
            ParametersPerKind::RejectIfChildrenDirectoriesArePresent(n) => encode_names(n),
        };
        match encoded {
            Ok(bytes) => Ok(bytes),
            Err(e) => Err(IndexerError::RuleParametersRMPEncode(encode_error_text(&e))),
        }
    }
}

/// Whether a candidate is indexed.
#[derive(Debug, Clone, Copy, PartialEq, Eq, Structural)]
pub enum Decision {
    Include,
    Exclude,
}

/// Whether a directory is indexed and walked, or left out with everything
/// below it.
#[derive(Debug, Clone, Copy, PartialEq, Eq, Structural)]
pub enum DirectoryDecision {
    IncludeDescend,
    ExcludePrune,
}

/// The rules of a location, sorted by what they speak of.
pub struct RuleSetView {
    /// The patterns of the reject-by-glob rules.
    pub reject_globs: Seq<Seq<char>>,
    /// For every accept-by-glob rule, its patterns.
    pub accept_globs: Seq<Seq<Seq<char>>>,
    /// For every accept-if-children rule, its names.
    pub accept_children: Seq<Seq<Seq<char>>>,
    /// For every reject-if-children rule, its names.
    pub reject_children: Seq<Seq<Seq<char>>>,
}

/// Whether one of `patterns` matches `path`.
pub open spec fn any_glob_matches(patterns: Seq<Seq<char>>, path: Seq<char>) -> bool {
    exists|i: int| 0 <= i < patterns.len() && glob_matches(#[trigger] patterns[i], path)
}

/// Whether a reject-by-glob rule matches `path`.
pub open spec fn rejected_by_glob(rules: RuleSetView, path: Seq<char>) -> bool {
    any_glob_matches(rules.reject_globs, path)
}

/// Whether every accept-by-glob rule matches `path`.
pub open spec fn accepted_by_globs(rules: RuleSetView, path: Seq<char>) -> bool {
    forall|r: int|
        0 <= r < rules.accept_globs.len() ==> any_glob_matches(
            #[trigger] rules.accept_globs[r],
            path,
        )
}

/// Whether a file at `path` is indexed: no reject rule matches it and every
/// accept rule does.
pub open spec fn file_included(rules: RuleSetView, path: Seq<char>) -> bool {
    !rejected_by_glob(rules, path) && accepted_by_globs(rules, path)
}

/// Whether one of `names` is the name of a directory in `child_dirs`.
pub open spec fn names_present(names: Seq<Seq<char>>, child_dirs: Seq<Seq<char>>) -> bool {
    exists|i: int, j: int|
        0 <= i < names.len() && 0 <= j < child_dirs.len() && #[trigger] names[i]
            == #[trigger] child_dirs[j]
}

/// Whether a directory with the child directories `child_dirs` passes every
/// rule that looks at children: each accept rule finds one of its names,
/// and no reject rule does.
pub open spec fn children_pass(rules: RuleSetView, child_dirs: Seq<Seq<char>>) -> bool {
    &&& forall|r: int|
        0 <= r < rules.accept_children.len() ==> names_present(
            #[trigger] rules.accept_children[r],
            child_dirs,
        )
    &&& forall|r: int|
        0 <= r < rules.reject_children.len() ==> !names_present(
            #[trigger] rules.reject_children[r],
            child_dirs,
        )
}

/// Whether a directory at `path` with the child directories `child_dirs`
/// is indexed and walked.
pub open spec fn directory_descends(
    rules: RuleSetView,
    path: Seq<char>,
    child_dirs: Seq<Seq<char>>,
) -> bool {
    !rejected_by_glob(rules, path) && children_pass(rules, child_dirs)
}

/// The decision on a file, given what the globs found: it is indexed if no
/// reject rule matched and every accept rule did.
pub fn evaluate_matches(rejected: bool, accepted: bool) -> (r: Decision)
    ensures
        r == if !rejected && accepted {
            Decision::Include
        } else {
            Decision::Exclude
        },
{
    if !rejected && accepted {
        Decision::Include
    } else {
        Decision::Exclude
    }
}

/// The decision on a directory, given whether a reject glob matched it and
/// what the probe of its children found.
pub fn decide_directory_matches(rejected: bool, probe_result: bool) -> (r: DirectoryDecision)
    ensures
        r == if !rejected && probe_result {
            DirectoryDecision::IncludeDescend
        } else {
            DirectoryDecision::ExcludePrune
        },
{
    if !rejected && probe_result {
        DirectoryDecision::IncludeDescend
    } else {
        DirectoryDecision::ExcludePrune
    }
}

/// Tells whether one of `names` is in `child_dirs`.
pub fn any_name_present(names: &Vec<String>, child_dirs: &Vec<String>) -> (r: bool)
    ensures
        r == names_present(names.deep_view(), child_dirs.deep_view()),
{
    let ghost ns = names.deep_view();
    let ghost ds = child_dirs.deep_view();
    let mut i: usize = 0;
    while i < names.len()
        invariant
            i <= names.len(),
            ns == names.deep_view(),
            ds == child_dirs.deep_view(),
            forall|a: int, b: int|
                0 <= a < i && 0 <= b < ds.len() ==> #[trigger] ns[a] != #[trigger] ds[b],
        decreases names.len() - i,
    {
        let mut j: usize = 0;
        while j < child_dirs.len()
            invariant
                i < names.len(),
                j <= child_dirs.len(),
                ns == names.deep_view(),
                ds == child_dirs.deep_view(),
                forall|b: int| 0 <= b < j ==> ns[i as int] != #[trigger] ds[b],
            decreases child_dirs.len() - j,
        {
            assert(ns[i as int] == names@[i as int]@);
            assert(ds[j as int] == child_dirs@[j as int]@);
            if names[i] == child_dirs[j] {
                return true;
            }
            j = j + 1;
        }
        i = i + 1;
    }
    false
}

/// The patterns of the reject-by-glob rules among `rules`, in order.
pub open spec fn reject_patterns(rules: Seq<ParametersView>) -> Seq<Seq<char>>
    decreases rules.len(),
{
    if rules.len() == 0 {
        Seq::empty()
    } else {
        let before = reject_patterns(rules.drop_last());
        match rules.last() {
            ParametersView::RejectFilesByGlob(p) => before.push(p),
            _ => before,
        }
    }
}

/// For every accept-by-glob rule among `rules`, its pattern.
pub open spec fn accept_patterns(rules: Seq<ParametersView>) -> Seq<Seq<Seq<char>>>
    decreases rules.len(),
{
    if rules.len() == 0 {
        Seq::empty()
    } else {
        let before = accept_patterns(rules.drop_last());
        match rules.last() {
            ParametersView::AcceptFilesByGlob(p) => before.push(seq![p]),
            _ => before,
        }
    }
}

/// For every accept-if-children rule among `rules`, its names.
pub open spec fn accept_children_of(rules: Seq<ParametersView>) -> Seq<Seq<Seq<char>>>
    decreases rules.len(),
{
    if rules.len() == 0 {
        Seq::empty()
    } else {
        let before = accept_children_of(rules.drop_last());
        match rules.last() {
            ParametersView::AcceptIfChildrenDirectoriesArePresent(n) => before.push(n),
            _ => before,
        }
    }
}

/// For every reject-if-children rule among `rules`, its names.
pub open spec fn reject_children_of(rules: Seq<ParametersView>) -> Seq<Seq<Seq<char>>>
    decreases rules.len(),
{
    if rules.len() == 0 {
        Seq::empty()
    } else {
        let before = reject_children_of(rules.drop_last());
        match rules.last() {
            ParametersView::RejectIfChildrenDirectoriesArePresent(n) => before.push(n),
            _ => before,
        }
    }
}

/// The parameters of `rules`, in order.
pub open spec fn rules_parameters(rules: Seq<IndexerRule>) -> Seq<ParametersView> {
    Seq::new(rules.len(), |i: int| rules[i].parameters@)
}

/// The rule set that rules with these parameters compile to.
pub open spec fn rule_set_of(rules: Seq<ParametersView>) -> RuleSetView {
    RuleSetView {
        reject_globs: reject_patterns(rules),
        accept_globs: accept_patterns(rules),
        accept_children: accept_children_of(rules),
        reject_children: reject_children_of(rules),
    }
}

/// Whether `rules` compile: every pattern parses, the reject patterns build
/// as one set, and each accept pattern builds as a set of its own.
pub open spec fn rules_compile(rules: Seq<ParametersView>) -> bool {
    &&& forall|i: int|
        0 <= i < reject_patterns(rules).len() ==> glob_parses(#[trigger] reject_patterns(rules)[i])
    &&& glob_set_builds(reject_patterns(rules))
    &&& forall|i: int|
        0 <= i < accept_patterns(rules).len() ==> glob_parses(
            (#[trigger] accept_patterns(rules)[i])[0],
        ) && glob_set_builds(accept_patterns(rules)[i])
}

/// The parameters that a stored rule decodes to, if its kind is known and
/// its parameters decode.
pub open spec fn stored_parameters(data: IndexerRuleData) -> Option<ParametersView> {
    match kind_of_int(data.kind as int) {
        None => None,
        Some(kind) => if takes_glob(kind) {
            match decoded_text(data.parameters@) {
                Some(pattern) => Some(glob_parameters(kind, pattern)),
                None => None,
            }
        } else {
            match decoded_names(data.parameters@) {
                Some(names) => Some(children_parameters(kind, names)),
                None => None,
            }
        },
    }
}

/// Whether every stored rule can be read.
pub open spec fn all_readable(datas: Seq<IndexerRuleData>) -> bool {
    forall|i: int| 0 <= i < datas.len() ==> stored_parameters(#[trigger] datas[i]) is Some
}

/// The parameters of stored rules that can all be read.
pub open spec fn all_stored(datas: Seq<IndexerRuleData>) -> Seq<ParametersView> {
    Seq::new(datas.len(), |i: int| stored_parameters(datas[i])->0)
}

/// Whether `e` is the error of the stored rule `data` that cannot be read:
/// the one that names the kind if the kind is not known, else a decoding
/// error.
pub open spec fn unreadable_error(data: IndexerRuleData, e: IndexerError) -> bool {
    match kind_of_int(data.kind as int) {
        None => e == IndexerError::InvalidRuleKindInt(data.kind),
        Some(_) => e is RuleParametersRMPDecode,
    }
}

/// Whether `e` is the error with which loading these stored rules fails:
/// that of the first rule that cannot be read, or, if all can be read, the
/// error of patterns that do not compile.
pub open spec fn load_error(datas: Seq<IndexerRuleData>, e: IndexerError) -> bool {
    if all_readable(datas) {
        e is GlobBuilderError
    } else {
        exists|i: int|
            0 <= i < datas.len() && stored_parameters(#[trigger] datas[i]) is None
                && all_readable(datas.take(i)) && unreadable_error(datas[i], e)
    }
}

/// The rules of a location, compiled for one walk. Patterns are compiled
/// when the set is made and never again.
pub struct RuleSet {
    reject: GlobSet,
    accept: Vec<GlobSet>,
    accept_children: Vec<Vec<String>>,
    reject_children: Vec<Vec<String>>,
}

impl View for RuleSet {
    type V = RuleSetView;

    closed spec fn view(&self) -> RuleSetView {
        RuleSetView {
            reject_globs: glob_set_patterns(self.reject),
            accept_globs: Seq::new(
                self.accept@.len(),
                |i: int| glob_set_patterns(self.accept@[i]),
            ),
            accept_children: self.accept_children.deep_view(),
            reject_children: self.reject_children.deep_view(),
        }
    }
}

fn glob_failure(error: globset::Error) -> (r: IndexerError)
    ensures
        r is GlobBuilderError,
{
    IndexerError::GlobBuilderError(glob_error_text(&error))
}

fn clone_names(names: &Vec<String>) -> (r: Vec<String>)
    ensures
        r.deep_view() == names.deep_view(),
{
    let mut out: Vec<String> = Vec::new();
    let mut i: usize = 0;
    while i < names.len()
        invariant
            i <= names.len(),
            out.deep_view() =~= names.deep_view().take(i as int),
        decreases names.len() - i,
    {
        let ghost before = out.deep_view();
        out.push(names[i].clone());
        assert(names.deep_view()[i as int] == names@[i as int]@);
        assert(out.deep_view() =~= before.push(names@[i as int]@));
        i = i + 1;
    }
    assert(names.deep_view().take(names.len() as int) =~= names.deep_view());
    out
}

impl RuleSet {
    /// Compiles the rules of a location. A pattern that does not parse, or
    /// patterns that do not build, are an error.
    pub fn compile(rules: &Vec<IndexerRule>) -> (r: Result<RuleSet, IndexerError>)
        ensures
            match r {
                Ok(set) => rules_compile(rules_parameters(rules@)) && set@ == rule_set_of(
                    rules_parameters(rules@),
                ),
                Err(e) => !rules_compile(rules_parameters(rules@)) && e is GlobBuilderError,
            },
    {
        let ghost params = rules_parameters(rules@);
        let mut reject_builder = new_glob_set_builder();
        let mut accept: Vec<GlobSet> = Vec::new();
        let mut accept_children: Vec<Vec<String>> = Vec::new();
        let mut reject_children: Vec<Vec<String>> = Vec::new();
        let mut i: usize = 0;
        while i < rules.len()
            invariant
                i <= rules.len(),
                params == rules_parameters(rules@),
                crate::glob::builder_patterns(reject_builder) == reject_patterns(
                    params.take(i as int),
                ),
                forall|k: int|
                    0 <= k < reject_patterns(params.take(i as int)).len() ==> glob_parses(
                        #[trigger] reject_patterns(params.take(i as int))[k],
                    ),
                accept@.len() == accept_patterns(params.take(i as int)).len(),
                forall|k: int|
                    0 <= k < accept@.len() ==> glob_set_patterns(#[trigger] accept@[k])
                        == accept_patterns(params.take(i as int))[k] && glob_parses(
                        accept_patterns(params.take(i as int))[k][0],
                    ) && glob_set_builds(accept_patterns(params.take(i as int))[k]),
                accept_children.deep_view() =~= accept_children_of(params.take(i as int)),
                reject_children.deep_view() =~= reject_children_of(params.take(i as int)),
            decreases rules.len() - i,
        {
            let ghost done = params.take(i as int);
            let ghost next = params.take(i + 1);
            assert(next.drop_last() =~= done);
            assert(next.last() == rules@[i as int].parameters@);
            match &rules[i].parameters {
                ParametersPerKind::RejectFilesByGlob(p) => {
                    match add_glob(&mut reject_builder, p.as_str()) {
                        Ok(()) => {},
                        Err(e) => {
                            proof {
                                lemma_patterns_prefix(params, i + 1);
                                let k = reject_patterns(next).len() - 1;
                                assert(reject_patterns(next)[k] == p@);
                                assert(reject_patterns(params)[k] == p@);
                            }
                            return Err(glob_failure(e));
                        },
                    }
                },
                ParametersPerKind::AcceptFilesByGlob(p) => {
                    let mut builder = new_glob_set_builder();
                    let ghost before = accept@;
                    let added = add_glob(&mut builder, p.as_str());
                    assert(Seq::<Seq<char>>::empty().push(p@) =~= seq![p@]);
                    let built = match added {
                        Ok(()) => build_glob_set(&builder),
                        Err(e) => Err(e),
                    };
                    match built {
                        Ok(set) => {
                            accept.push(set);
                            assert forall|k: int| 0 <= k < accept@.len() implies glob_set_patterns(
                                #[trigger] accept@[k],
                            ) == accept_patterns(next)[k] && glob_parses(
                                accept_patterns(next)[k][0],
                            ) && glob_set_builds(accept_patterns(next)[k]) by {
                                if k < before.len() {
                                    assert(accept@[k] == before[k]);
                                }
                            }
                        },
                        Err(e) => {
                            proof {
                                lemma_patterns_prefix(params, i + 1);
                                let k = accept_patterns(next).len() - 1;
                                assert(accept_patterns(next)[k] == seq![p@]);
                                assert(accept_patterns(params)[k] == seq![p@]);
                            }
                            return Err(glob_failure(e));
                        },
                    }
                },
                ParametersPerKind::AcceptIfChildrenDirectoriesArePresent(names) => {
                    let ghost before = accept_children.deep_view();
                    let copy = clone_names(names);
                    accept_children.push(copy);
                    assert(accept_children.deep_view() =~= before.push(names.deep_view()));
                },
                ParametersPerKind::RejectIfChildrenDirectoriesArePresent(names) => {
                    let ghost before = reject_children.deep_view();
                    let copy = clone_names(names);
                    reject_children.push(copy);
                    assert(reject_children.deep_view() =~= before.push(names.deep_view()));
                },
            }
            i = i + 1;
        }
        assert(params.take(rules.len() as int) =~= params);
        match build_glob_set(&reject_builder) {
            Ok(reject) => {
                let set = RuleSet { reject, accept, accept_children, reject_children };
                assert(set@.accept_globs =~= accept_patterns(params));
                Ok(set)
            },
            Err(e) => Err(glob_failure(e)),
        }
    }

    /// Whether a reject-by-glob rule matches the path.
    pub fn is_rejected(&self, path: &str) -> (r: bool)
        ensures
            r == rejected_by_glob(self@, path@),
    {
        glob_set_is_match(&self.reject, path)
    }

    /// Whether every accept-by-glob rule matches the path.
    pub fn is_accepted(&self, path: &str) -> (r: bool)
        ensures
            r == accepted_by_globs(self@, path@),
    {
        let mut i: usize = 0;
        while i < self.accept.len()
            invariant
                i <= self.accept.len(),
                forall|k: int|
                    0 <= k < i ==> any_glob_matches(#[trigger] self@.accept_globs[k], path@),
            decreases self.accept.len() - i,
        {
            assert(self@.accept_globs[i as int] == glob_set_patterns(self.accept@[i as int]));
            if !glob_set_is_match(&self.accept[i], path) {
                return false;
            }
            i = i + 1;
        }
        true
    }

    /// The decision on a file at `path`.
    pub fn evaluate(&self, path: &str) -> (r: Decision)
        ensures
            r == if file_included(self@, path@) {
                Decision::Include
            } else {
                Decision::Exclude
            },
    {
        let rejected = self.is_rejected(path);
        let accepted = self.is_accepted(path);
        evaluate_matches(rejected, accepted)
    }

    /// Looks one level down: whether a directory with these child
    /// directories passes every rule that looks at children. One probe
    /// serves the accept rules and the reject rules alike.
    pub fn probe_children(&self, child_dirs: &Vec<String>) -> (r: bool)
        ensures
            r == children_pass(self@, child_dirs.deep_view()),
    {
        let ghost dirs = child_dirs.deep_view();
        let mut i: usize = 0;
        while i < self.accept_children.len()
            invariant
                i <= self.accept_children.len(),
                dirs == child_dirs.deep_view(),
                forall|k: int|
                    0 <= k < i ==> names_present(#[trigger] self@.accept_children[k], dirs),
            decreases self.accept_children.len() - i,
        {
            assert(self@.accept_children[i as int] == self.accept_children@[i as int].deep_view());
            if !any_name_present(&self.accept_children[i], child_dirs) {
                return false;
            }
            i = i + 1;
        }
        let mut j: usize = 0;
        while j < self.reject_children.len()
            invariant
                j <= self.reject_children.len(),
                dirs == child_dirs.deep_view(),
                forall|k: int|
                    0 <= k < self@.accept_children.len() ==> names_present(
                        #[trigger] self@.accept_children[k],
                        dirs,
                    ),
                forall|k: int|
                    0 <= k < j ==> !names_present(#[trigger] self@.reject_children[k], dirs),
            decreases self.reject_children.len() - j,
        {
            assert(self@.reject_children[j as int] == self.reject_children@[j as int].deep_view());
            if any_name_present(&self.reject_children[j], child_dirs) {
                return false;
            }
            j = j + 1;
        }
        true
    }

    /// The decision on a directory at `path`, given what the probe of its
    /// children found.
    pub fn decide_directory(&self, path: &str, probe_result: bool) -> (r: DirectoryDecision)
        ensures
            r == if !rejected_by_glob(self@, path@) && probe_result {
                DirectoryDecision::IncludeDescend
            } else {
                DirectoryDecision::ExcludePrune
            },
    {
        let rejected = self.is_rejected(path);
        decide_directory_matches(rejected, probe_result)
    }
}

/// Reads and compiles the stored rules of a location. One rule that cannot
/// be read, or one pattern that does not compile, fails the whole set: no
/// rule is passed over.
pub fn load_rules(datas: &Vec<IndexerRuleData>) -> (r: Result<RuleSet, IndexerError>)
    ensures
        match r {
            Ok(set) => all_readable(datas@) && rules_compile(all_stored(datas@)) && set@
                == rule_set_of(all_stored(datas@)),
            Err(e) => !(all_readable(datas@) && rules_compile(all_stored(datas@))) && load_error(
                datas@,
                e,
            ),
        },
{
    let mut rules: Vec<IndexerRule> = Vec::new();
    let mut i: usize = 0;
    while i < datas.len()
        invariant
            i <= datas.len(),
            all_readable(datas@.take(i as int)),
            rules_parameters(rules@) =~= all_stored(datas@.take(i as int)),
        decreases datas.len() - i,
    {
        let ghost before = rules_parameters(rules@);
        let ghost had = rules@;
        assert(had.len() == before.len());
        assert(datas@.take(i as int).len() == i);
        match IndexerRule::try_from(&datas[i]) {
            Ok(rule) => {
                rules.push(rule);
                proof {
                    let next = datas@.take(i + 1);
                    assert(rules@ == had.push(rule));
                    assert(rules@.len() == i + 1);
                    assert(next[i as int] == datas@[i as int]);
                    assert forall|k: int| 0 <= k < next.len() implies stored_parameters(
                        #[trigger] next[k],
                    ) is Some by {
                        if k < i {
                            assert(next[k] == datas@.take(i as int)[k]);
                        }
                    }
                    assert forall|k: int| 0 <= k < next.len() implies rules_parameters(rules@)[k]
                        == all_stored(next)[k] by {
                        if k < i {
                            assert(rules@[k] == had[k]);
                            assert(before[k] == had[k].parameters@);
                            assert(next[k] == datas@.take(i as int)[k]);
                            assert(before[k] == all_stored(datas@.take(i as int))[k]);
                        }
                    }
                }
            },
            Err(e) => {
                proof {
                    assert(stored_parameters(datas@[i as int]) is None);
                    assert(unreadable_error(datas@[i as int], e));
                }
                return Err(e);
            },
        }
        i = i + 1;
    }
    assert(datas@.take(datas.len() as int) =~= datas@);
    RuleSet::compile(&rules)
}

/// The patterns of the first rules are the first patterns of all rules.
proof fn lemma_patterns_prefix(rules: Seq<ParametersView>, n: int)
    requires
        0 <= n <= rules.len(),
    ensures
        reject_patterns(rules.take(n)).len() <= reject_patterns(rules).len(),
        reject_patterns(rules).take(reject_patterns(rules.take(n)).len() as int)
            == reject_patterns(rules.take(n)),
        accept_patterns(rules.take(n)).len() <= accept_patterns(rules).len(),
        accept_patterns(rules).take(accept_patterns(rules.take(n)).len() as int)
            == accept_patterns(rules.take(n)),
    decreases rules.len() - n,
{
    if n == rules.len() {
        assert(rules.take(n) =~= rules);
        assert(reject_patterns(rules).take(reject_patterns(rules).len() as int)
            =~= reject_patterns(rules));
        assert(accept_patterns(rules).take(accept_patterns(rules).len() as int)
            =~= accept_patterns(rules));
    } else {
        lemma_patterns_prefix(rules, n + 1);
        assert(rules.take(n + 1).drop_last() =~= rules.take(n));
        let short = reject_patterns(rules.take(n));
        let long = reject_patterns(rules.take(n + 1));
        assert(reject_patterns(rules).take(short.len() as int) =~= short) by {
            assert(long.take(short.len() as int) =~= short);
            assert(reject_patterns(rules).take(long.len() as int) == long);
        }
        let short_a = accept_patterns(rules.take(n));
        let long_a = accept_patterns(rules.take(n + 1));
        assert(accept_patterns(rules).take(short_a.len() as int) =~= short_a) by {
            assert(long_a.take(short_a.len() as int) =~= short_a);
            assert(accept_patterns(rules).take(long_a.len() as int) == long_a);
        }
    }
}

} // verus!
