//! The calls into `globset` that path rules are built and matched with.
//!
//! A `GlobSetBuilder` and a `GlobSet` are collections of glob patterns; the
//! names below say which patterns they hold. Every glob of this library is
//! built with `literal_separator(true)` and otherwise default options, so a
//! pattern text determines the glob.
use vstd::prelude::*;

verus! {

#[verifier::external_type_specification]
#[verifier::external_body]
pub struct ExGlobSet(globset::GlobSet);

#[verifier::external_type_specification]
#[verifier::external_body]
pub struct ExGlobSetBuilder(globset::GlobSetBuilder);

#[verifier::external_type_specification]
#[verifier::external_body]
pub struct ExGlobError(globset::Error);

/// The patterns a `GlobSetBuilder` holds, in the order they were added.
pub uninterp spec fn builder_patterns(builder: globset::GlobSetBuilder) -> Seq<Seq<char>>;

/// The patterns a `GlobSet` was built from, in order.
pub uninterp spec fn set_patterns(set: globset::GlobSet) -> Seq<Seq<char>>;

/// Whether `GlobBuilder::new(pattern).literal_separator(true).build()`
/// succeeds (for the target the library is compiled for, whose default for
/// backslash escapes `globset` takes).
pub uninterp spec fn glob_parses(pattern: Seq<char>) -> bool;

/// Whether `GlobSetBuilder::build` succeeds on a builder holding these
/// patterns.
pub uninterp spec fn glob_set_builds(patterns: Seq<Seq<char>>) -> bool;

/// Whether the glob built from `pattern` (with a literal separator) matches
/// `path`, for the target the library is compiled for.
pub uninterp spec fn glob_matches(pattern: Seq<char>, path: Seq<char>) -> bool;

/// The glob an `Error` was raised for (what its `glob` method returns).
pub uninterp spec fn glob_error_pattern(error: globset::Error) -> Option<Seq<char>>;

/// `GlobSetBuilder::new`.
///
/// Claimed: the new builder holds no pattern.
#[verifier::external_body]
pub(crate) fn new_glob_set_builder() -> (builder: globset::GlobSetBuilder)
    ensures
        builder_patterns(builder) == Seq::<Seq<char>>::empty(),
{
    globset::GlobSetBuilder::new()
}

/// `GlobBuilder::new(pattern).literal_separator(true).build()` followed, on
/// success, by `GlobSetBuilder::add` of the glob.
///
/// Claimed: the build succeeds exactly when [`glob_parses`] holds of the
/// pattern; then the pattern is appended to the builder, else the builder is
/// unchanged and the parse error, which names the pattern, is returned.
#[verifier::external_body]
pub(crate) fn add_glob(builder: &mut globset::GlobSetBuilder, pattern: &str) -> (added: Result<(), globset::Error>)
    ensures
        added is Ok <==> glob_parses(pattern@),
        added is Ok ==> builder_patterns(*final(builder)) == builder_patterns(*old(builder)).push(pattern@),
        added is Err ==> builder_patterns(*final(builder)) == builder_patterns(*old(builder)),
        added matches Err(e) ==> glob_error_pattern(e) == Some(pattern@),
{
    let glob = globset::GlobBuilder::new(pattern).literal_separator(true).build()?;
    builder.add(glob);
    Ok(())
}

/// `GlobSetBuilder::build`.
///
/// Claimed: the build succeeds exactly when [`glob_set_builds`] holds of the
/// builder's patterns, and the set then holds those patterns.
#[verifier::external_body]
pub(crate) fn build_glob_set(builder: &globset::GlobSetBuilder) -> (set: Result<globset::GlobSet, globset::Error>)
    ensures
        set is Ok <==> glob_set_builds(builder_patterns(*builder)),
        set matches Ok(s) ==> set_patterns(s) == builder_patterns(*builder),
{
    builder.build()
}

/// `GlobSet::is_match`.
///
/// Claimed (its documentation: "Returns true if any glob in this set matches
/// the path given"): the result is whether some pattern of the set matches.
#[verifier::external_body]
pub(crate) fn glob_set_is_match(set: &globset::GlobSet, path: &str) -> (matched: bool)
    ensures
        matched == (exists|i: int|
            0 <= i < set_patterns(*set).len() && #[trigger] glob_matches(set_patterns(*set)[i], path@)),
{
    set.is_match(path)
}

} // verus!
