//! Glob matching, done by the `globset` crate. Nothing in this file is
//! proved: each item states what the rest of the library takes `globset` to
//! do.

use globset::{Glob, GlobSet, GlobSetBuilder};
use vstd::prelude::*;

verus! {

/// A compiled set of glob patterns.
#[verifier::external_type_specification]
#[verifier::external_body]
pub struct ExGlobSet(globset::GlobSet);

/// A set of glob patterns that is still being gathered.
#[verifier::external_type_specification]
#[verifier::external_body]
pub struct ExGlobSetBuilder(globset::GlobSetBuilder);

/// The error of a pattern that does not parse or a set that does not
/// compile.
#[verifier::external_type_specification]
#[verifier::external_body]
pub struct ExGlobError(globset::Error);

/// Whether `Glob::new` accepts the pattern.
pub uninterp spec fn glob_parses(pattern: Seq<char>) -> bool;

/// Whether the glob `pattern` matches `path`, as `GlobSet::is_match` finds
/// for a set that was built from patterns with default options. Pattern and
/// path are read as `globset` reads them on the platform at hand: where the
/// backslash is a separator, it is one here.
pub uninterp spec fn glob_matches(pattern: Seq<char>, path: Seq<char>) -> bool;

/// The patterns that were added to a builder, in order.
pub uninterp spec fn builder_patterns(builder: GlobSetBuilder) -> Seq<Seq<char>>;

/// The patterns that a compiled set was built from, in order. The set does
/// not keep them as text; the name stands for what `GlobSetBuilder::build`
/// was given when it made the set.
pub uninterp spec fn glob_set_patterns(set: GlobSet) -> Seq<Seq<char>>;

/// Whether `GlobSetBuilder::build` succeeds on these patterns.
pub uninterp spec fn glob_set_builds(patterns: Seq<Seq<char>>) -> bool;

/// `GlobSetBuilder::new`: a builder without patterns.
#[verifier::external_body]
pub(crate) fn new_glob_set_builder() -> (r: GlobSetBuilder)
    ensures
        builder_patterns(r) == Seq::<Seq<char>>::empty(),
{
    GlobSetBuilder::new()
}

/// `Glob::new` followed by `GlobSetBuilder::add`: the pattern is parsed with
/// default options and, if it parses, added at the end of the builder. If it
/// does not parse the builder is left as it was.
#[verifier::external_body]
pub(crate) fn add_glob(builder: &mut GlobSetBuilder, pattern: &str) -> (r: Result<
    (),
    globset::Error,
>)
    ensures
        r is Ok <==> glob_parses(pattern@),
        r is Ok ==> builder_patterns(*final(builder)) == builder_patterns(*old(builder)).push(
            pattern@,
        ),
        r is Err ==> builder_patterns(*final(builder)) == builder_patterns(*old(builder)),
{
    match Glob::new(pattern) {
        Ok(glob) => {
            builder.add(glob);
            Ok(())
        },
        Err(e) => Err(e),
    }
}

/// `GlobSetBuilder::build`: compiles the patterns added so far into one set.
#[verifier::external_body]
pub(crate) fn build_glob_set(builder: &GlobSetBuilder) -> (r: Result<GlobSet, globset::Error>)
    ensures
        r is Ok <==> glob_set_builds(builder_patterns(*builder)),
        r matches Ok(set) ==> glob_set_patterns(set) == builder_patterns(*builder),
{
    builder.build()
}

/// `GlobSet::is_match`: whether any pattern of the set matches the path. A
/// set without patterns matches nothing.
#[verifier::external_body]
pub(crate) fn glob_set_is_match(set: &GlobSet, path: &str) -> (r: bool)
    ensures
        r == (exists|i: int|
            0 <= i < glob_set_patterns(*set).len() && glob_matches(
                #[trigger] glob_set_patterns(*set)[i],
                path@,
            )),
{
    set.is_match(path)
}

/// The message of a `globset` error, as its `Display` writes it.
#[verifier::external_body]
pub(crate) fn glob_error_text(error: &globset::Error) -> String {
    error.to_string()
}

} // verus!
