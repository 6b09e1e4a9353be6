//! Pattern matching, built on the `regex` crate.
//!
//! A pattern either compiles into a matcher or is rejected; a compiled
//! matcher tests whether the pattern is found anywhere within a line. Both
//! outcomes depend on the pattern and line text alone, so the contracts name
//! them with uninterpreted functions.

use vstd::prelude::*;

verus! {

/// Whether `regex::Regex::new` accepts this pattern text.
pub uninterp spec fn regex_ok(pat: Seq<char>) -> bool;

/// Whether the pattern is found anywhere within the haystack, as
/// `regex::Regex::is_match` decides it.
pub uninterp spec fn regex_match(pat: Seq<char>, hay: Seq<char>) -> bool;

#[verifier::external_type_specification]
#[verifier::external_body]
pub struct ExRegex(regex::Regex);

/// A compiled matcher, carrying the pattern text it was compiled from.
pub struct Matcher {
    re: regex::Regex,
    pattern: String,
}

impl Matcher {
    /// The pattern text this matcher was compiled from.
    pub closed spec fn pat(self) -> Seq<char> {
        self.pattern@
    }

    /// Relies on `regex::Regex::new`: compilation succeeds or fails on the
    /// pattern text alone; on failure the error's text is returned.
    #[verifier::external_body]
    pub fn compile(pat: &str) -> (r: Result<Matcher, String>)
        ensures
            r is Ok <==> regex_ok(pat@),
            r is Ok ==> r.unwrap().pat() == pat@,
    {
        match regex::Regex::new(pat) {
            Ok(re) => Ok(Matcher { re, pattern: pat.to_owned() }),
            Err(e) => Err(e.to_string()),
        }
    }

    /// Relies on `regex::Regex::is_match`: whether the pattern matches
    /// somewhere in the line, a function of pattern and line text alone.
    #[verifier::external_body]
    pub fn is_match(&self, line: &str) -> (r: bool)
        ensures
            r == regex_match(self.pat(), line@),
    {
        self.re.is_match(line)
    }
}

} // verus!
