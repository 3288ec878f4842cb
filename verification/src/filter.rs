//! The file-name filter of a build.
//!
//! A filter is a regular expression; a file whose name the expression
//! matches is left out of the build. Whether a pattern is a regular
//! expression, and what it matches, is decided by the `regex` crate. Both
//! answers have a name here, and the contracts of the two functions that ask
//! `regex` are taken on trust.

use vstd::prelude::*;

verus! {

/// Whether `Regex::new` accepts a pattern.
pub uninterp spec fn regex_compiles(pattern: Seq<char>) -> bool;

/// Whether the expression that `Regex::new` makes of a pattern matches
/// somewhere in a text, as `Regex::is_match` tells.
pub uninterp spec fn regex_is_match(pattern: Seq<char>, text: Seq<char>) -> bool;

/// `Regex::new`: whether the pattern is accepted.
#[verifier::external_body]
fn regex_accepts(pattern: &str) -> (accepted: bool)
    ensures
        accepted == regex_compiles(pattern@),
{
    regex::Regex::new(pattern).is_ok()
}

/// `Regex::is_match`, on the expression that `Regex::new` makes of the
/// pattern.
#[verifier::external_body]
fn regex_matches(pattern: &str, text: &str) -> (found: bool)
    requires
        regex_compiles(pattern@),
    ensures
        found == regex_is_match(pattern@, text@),
{
    match regex::Regex::new(pattern) {
        Ok(expression) => expression.is_match(text),
        Err(_) => false,
    }
}

/// A pattern that is known to be a regular expression.
#[derive(Debug)]
pub struct PathFilter {
    pattern: String,
}

impl PathFilter {
    #[verifier::type_invariant]
    spec fn well_formed(self) -> bool {
        regex_compiles(self.pattern@)
    }

    /// The pattern of the filter.
    pub closed spec fn pattern(&self) -> Seq<char> {
        self.pattern@
    }

    /// Whether the filter matches somewhere in a text.
    pub open spec fn matches(&self, text: Seq<char>) -> bool {
        regex_is_match(self.pattern(), text)
    }

    /// The filter for a pattern, or nothing where the pattern is no regular
    /// expression.
    pub fn new(pattern: String) -> (filter: Option<PathFilter>)
        ensures
            filter is Some <==> regex_compiles(pattern@),
            filter matches Some(f) ==> f.pattern() == pattern@,
    {
        if regex_accepts(pattern.as_str()) {
            Some(PathFilter { pattern })
        } else {
            None
        }
    }

    /// The pattern of the filter.
    pub fn as_str(&self) -> (pattern: &str)
        ensures
            pattern@ == self.pattern(),
    {
        self.pattern.as_str()
    }

    /// Whether the filter matches somewhere in a text.
    pub fn is_match(&self, text: &str) -> (found: bool)
        ensures
            found == self.matches(text@),
    {
        proof {
            use_type_invariant(self);
        }
        regex_matches(self.pattern.as_str(), text)
    }
}

impl Clone for PathFilter {
    fn clone(&self) -> (copy: Self)
        ensures
            copy.pattern() == self.pattern(),
    {
        proof {
            use_type_invariant(self);
        }
        PathFilter { pattern: self.pattern.clone() }
    }
}

} // verus!
