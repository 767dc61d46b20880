//! The glob matcher: compiles a pattern and tests paths against it.
//!
//! Pattern compilation and matching are done by the `globset` crate; this
//! module states what those calls return and maps the crate's error into an
//! error type of this library.

use vstd::prelude::*;

verus! {

#[verifier::external_type_specification]
#[verifier::external_body]
pub struct ExGlobSet(globset::GlobSet);

#[verifier::external_type_specification]
#[verifier::external_body]
pub struct ExGlobsetError(globset::Error);

/// Whether the glob engine accepts a pattern: its parse and the build of its
/// matcher both succeed. For a given compile target, acceptance depends on
/// the pattern text alone.
pub uninterp spec fn glob_ok(pattern: Seq<char>) -> bool;

/// The pattern text a compiled `globset::GlobSet` holds.
pub uninterp spec fn globset_pattern(s: globset::GlobSet) -> Seq<char>;

/// The diagnostic text the glob engine gives for a pattern it refuses. For a
/// given compile target, it depends on the pattern text alone.
pub uninterp spec fn glob_error_diagnostic(pattern: Seq<char>) -> Seq<char>;

/// The text a `globset::Error` renders to.
pub uninterp spec fn globset_error_text(e: globset::Error) -> Seq<char>;

/// Whether a pattern matches a path. For a given compile target, the outcome
/// depends on the pattern and path texts alone (on targets whose path
/// separator is not `/`, the engine first normalizes separators in the
/// path).
pub uninterp spec fn glob_matches(pattern: Seq<char>, path: Seq<char>) -> bool;

/// Relies on globset::Glob::new followed by globset::GlobSetBuilder::build:
/// parses the pattern and builds its matcher, succeeding exactly on the
/// patterns the engine accepts; both steps report a refusal as an error
/// value carrying the engine's diagnostic. The result holds that pattern.
#[verifier::external_body]
fn glob_build(pattern: &str) -> (r: Result<globset::GlobSet, globset::Error>)
    ensures
        r is Ok <==> glob_ok(pattern@),
        r matches Ok(s) ==> globset_pattern(s) == pattern@,
        r matches Err(e) ==> globset_error_text(e) == glob_error_diagnostic(pattern@),
{
    let glob = globset::Glob::new(pattern)?;
    let mut builder = globset::GlobSetBuilder::new();
    builder.add(glob);
    builder.build()
}

/// Relies on globset::GlobSet::is_match: a boolean test of the path against
/// the set's pattern, depending on the two texts alone for a given compile
/// target.
#[verifier::external_body]
fn glob_is_match(s: &globset::GlobSet, path: &str) -> (r: bool)
    ensures
        r == glob_matches(globset_pattern(*s), path@),
{
    s.is_match(path)
}

/// Relies on the Display impl of globset::Error: renders the engine's
/// diagnostic as text.
#[verifier::external_body]
fn glob_error_render(e: &globset::Error) -> (r: String)
    ensures
        r@ == globset_error_text(*e),
{
    format!("{}", e)
}

/// A glob pattern the engine refused, with its diagnostic text.
#[derive(Debug)]
pub struct GlobError {
    pub message: String,
}

impl GlobError {
    /// The diagnostic text carried by this error.
    pub fn message_string(&self) -> (r: String)
        ensures
            r@ == self.message@,
    {
        self.message.clone()
    }
}

/// A compiled matcher, remembering (in ghost form) the pattern it tests for.
pub struct PatternMatcher {
    set: globset::GlobSet,
    pattern: Ghost<Seq<char>>,
}

impl PatternMatcher {
    /// The pattern this matcher was compiled from.
    pub closed spec fn pattern(self) -> Seq<char> {
        self.pattern@
    }

    /// Whether the matcher agrees with `glob_matches` on its own pattern.
    pub closed spec fn wf(self) -> bool {
        globset_pattern(self.set) == self.pattern@
    }

    /// Compiles a pattern, succeeding exactly on the patterns the glob
    /// engine accepts; a refusal carries the engine's diagnostic text.
    pub fn compile(pattern: &str) -> (r: Result<PatternMatcher, GlobError>)
        ensures
            r is Ok <==> glob_ok(pattern@),
            r matches Ok(m) ==> m.wf() && m.pattern() == pattern@,
            r matches Err(e) ==> e.message@ == glob_error_diagnostic(pattern@),
    {
        match glob_build(pattern) {
            Ok(set) => Ok(PatternMatcher { set, pattern: Ghost(pattern@) }),
            Err(e) => Err(GlobError { message: glob_error_render(&e) }),
        }
    }

    /// Tests one path against the compiled pattern.
    pub fn is_match(&self, path: &str) -> (r: bool)
        requires
            self.wf(),
        ensures
            r == glob_matches(self.pattern(), path@),
    {
        glob_is_match(&self.set, path)
    }
}

} // verus!
