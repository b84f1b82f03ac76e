//! Glob patterns, compiled with globset and matched against file names.

use globset::{Glob, GlobSet, GlobSetBuilder};
use vstd::prelude::*;

verus! {

#[verifier::external_type_specification]
#[verifier::external_body]
pub struct ExGlobSet(GlobSet);

#[verifier::external_type_specification]
#[verifier::external_body]
pub struct ExGlobError(globset::Error);

/// The longest pattern, in characters, that is handed to globset. Longer
/// patterns are refused, which keeps globset's recursion over nested
/// alternates shallow and its literal automata far from their size limits.
pub const MAX_PATTERN_LEN: usize = 4096;

/// Whether globset parses `pattern` and builds a matcher for it under its
/// default options.
pub uninterp spec fn glob_accepts(pattern: Seq<char>) -> bool;

/// Whether the glob `pattern` matches the file name `name`.
pub uninterp spec fn glob_matches(pattern: Seq<char>, name: Seq<char>) -> bool;

/// Whether `pattern` compiles: it is short enough and globset accepts it.
pub open spec fn pattern_compiles(pattern: Seq<char>) -> bool {
    pattern.len() <= MAX_PATTERN_LEN && glob_accepts(pattern)
}

/// Relies on `globset::Glob::new`, `GlobSetBuilder::add` and
/// `GlobSetBuilder::build`: a syntax error, an over-deep nesting or an
/// oversized regex comes back as an error, never a panic, and whether it does
/// depends on the text alone.
#[verifier::external_body]
fn compile_glob(pattern: &str) -> (r: Result<GlobSet, globset::Error>)
    requires
        pattern@.len() <= MAX_PATTERN_LEN,
    ensures
        r is Ok <==> glob_accepts(pattern@),
{
    Glob::new(pattern).and_then(|glob| GlobSetBuilder::new().add(glob).build())
}

/// Relies on the `Display` impl of `globset::Error` for a readable reason.
#[verifier::external_body]
fn glob_error_text(e: &globset::Error) -> (r: String) {
    e.to_string()
}

/// A compiled glob together with the pattern text it was compiled from. The two
/// fields are only ever set together, by `compile`.
pub struct PatternMatcher {
    pattern: String,
    matcher: GlobSet,
}

/// Why a pattern could not be compiled.
pub struct InvalidPattern {
    pub pattern: String,
    pub reason: String,
}

/// Relies on `globset::GlobSet::is_match`, on a set that
/// `PatternMatcher::compile` built from the one glob `m.pattern`.
#[verifier::external_body]
fn matcher_accepts(m: &PatternMatcher, name: &str) -> (r: bool)
    ensures
        r == glob_matches(m@, name@),
{
    m.matcher.is_match(name)
}

impl View for PatternMatcher {
    type V = Seq<char>;

    closed spec fn view(&self) -> Seq<char> {
        self.pattern@
    }
}

impl PatternMatcher {
    /// Compiles `pattern`; fails exactly when it is too long or globset
    /// rejects it.
    pub fn compile(pattern: &str) -> (r: Result<PatternMatcher, InvalidPattern>)
        ensures
            r is Ok <==> pattern_compiles(pattern@),
            r matches Ok(m) ==> m@ == pattern@,
            r matches Err(e) ==> e.pattern@ == pattern@,
    {
        if pattern.unicode_len() > MAX_PATTERN_LEN {
            return Err(
                InvalidPattern {
                    pattern: pattern.to_string(),
                    reason: "pattern is longer than 4096 characters".to_string(),
                },
            );
        }
        match compile_glob(pattern) {
            Ok(matcher) => Ok(PatternMatcher { pattern: pattern.to_string(), matcher }),
            Err(e) => Err(InvalidPattern { pattern: pattern.to_string(), reason: glob_error_text(&e) }),
        }
    }

    /// The pattern text this matcher was compiled from.
    pub fn pattern(&self) -> (r: &str)
        ensures
            r@ == self@,
    {
        self.pattern.as_str()
    }

    /// Tests a file's base name against the pattern; no side effects.
    pub fn is_match(&self, name: &str) -> (r: bool)
        ensures
            r == glob_matches(self@, name@),
    {
        matcher_accepts(self, name)
    }
}

} // verus!
