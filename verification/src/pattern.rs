//! Patterns: regular expressions of the `regex` crate. All that this library
//! reads of a pattern is the text that it was compiled from; the compiled
//! form is carried for those who match with it.

use crate::parser::same_text;
use vstd::prelude::*;

verus! {

/// A compiled regular expression.
#[verifier::external_type_specification]
#[verifier::external_body]
pub struct ExRegex(regex::Regex);

/// Why a text did not compile to a regular expression.
#[verifier::external_type_specification]
#[verifier::external_body]
pub struct ExRegexError(regex::Error);

/// Whether a text compiles to a regular expression, as `Regex::new` of the
/// `regex` crate decides it: the text follows the crate's syntax, and the
/// program that it compiles to is within the crate's limit of size, as the
/// crate at hand counts it.
pub uninterp spec fn compiles(text: Seq<char>) -> bool;

/// The text that a regular expression was compiled from, as `Regex::as_str`
/// of the `regex` crate gives it.
pub uninterp spec fn source_of(compiled: regex::Regex) -> Seq<char>;

/// `Regex::new` compiles a text, or says why it cannot: it gives a regular
/// expression for exactly the texts that compile, and that regular
/// expression keeps the text as its source.
pub assume_specification[ regex::Regex::new ](re: &str) -> (r: Result<regex::Regex, regex::Error>)
    ensures
        r is Ok == compiles(re@),
        r matches Ok(compiled) ==> source_of(compiled) == re@,
;

/// `Regex::as_str` is the text that a regular expression was compiled from.
pub assume_specification<'a>[ regex::Regex::as_str ](compiled: &'a regex::Regex) -> (s: &'a str)
    ensures
        s@ == source_of(*compiled),
;

/// A copy of a compiled regular expression, as its `Clone` makes it, was
/// compiled from the same text.
pub assume_specification[ <regex::Regex as Clone>::clone ](compiled: &regex::Regex) -> (r:
    regex::Regex)
    ensures
        source_of(r) == source_of(*compiled),
;

/// A pattern: a compiled regular expression, seen as its source text.
#[derive(Debug)]
pub struct Pattern {
    compiled: regex::Regex,
}

impl View for Pattern {
    type V = Seq<char>;

    open spec fn view(&self) -> Seq<char> {
        source_of(self.compiled_form())
    }
}

impl Clone for Pattern {
    fn clone(&self) -> (r: Pattern)
        ensures
            r@ == self@,
    {
        Pattern { compiled: self.compiled.clone() }
    }
}

impl Pattern {
    /// The compiled regular expression that the pattern carries.
    pub closed spec fn compiled_form(&self) -> regex::Regex {
        self.compiled
    }

    /// Compiles `source`: the pattern of that text where the text compiles,
    /// and `None` where it does not.
    pub fn new(source: &str) -> (r: Option<Pattern>)
        ensures
            r is Some == compiles(source@),
            r matches Some(pattern) ==> pattern@ == source@,
    {
        match regex::Regex::new(source) {
            Ok(compiled) => Some(Pattern { compiled }),
            Err(_) => None,
        }
    }

    /// The pattern of a regular expression that was compiled elsewhere.
    pub fn from_regex(compiled: regex::Regex) -> (r: Pattern)
        ensures
            r.compiled_form() == compiled,
            r@ == source_of(compiled),
    {
        Pattern { compiled }
    }

    /// The source text.
    pub fn as_str(&self) -> (s: &str)
        ensures
            s@ == self@,
    {
        self.compiled.as_str()
    }

    /// Whether two patterns have the same source text.
    pub fn same_source(&self, other: &Pattern) -> (same: bool)
        ensures
            same == (self@ == other@),
    {
        same_text(self.as_str(), other.as_str())
    }

    /// The compiled regular expression.
    pub fn as_regex(&self) -> (r: &regex::Regex)
        ensures
            *r == self.compiled_form(),
    {
        &self.compiled
    }
}

} // verus!
