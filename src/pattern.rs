//! Regular-expression name filters.
use vstd::prelude::*;

verus! {

#[verifier::external_type_specification]
#[verifier::external_body]
pub struct ExRegex(regex::Regex);

/// Whether the regex library accepts `pattern` as a regular expression.
pub uninterp spec fn regex_valid(pattern: Seq<char>) -> bool;

/// Whether `pattern` matches somewhere in `text` (an unanchored search).
pub uninterp spec fn regex_match(pattern: Seq<char>, text: Seq<char>) -> bool;

/// Relies on `regex::Regex::new`: it succeeds exactly on the patterns it
/// accepts, which depends on the pattern alone.
#[verifier::external_body]
fn compile_regex(source: &str) -> (r: Option<regex::Regex>)
    ensures
        r is Some <==> regex_valid(source@),
{
    regex::Regex::new(source).ok()
}

/// A compiled regular expression with the text it was compiled from.
#[derive(Debug)]
pub struct Pattern {
    source: String,
    compiled: regex::Regex,
}

impl Pattern {
    /// The text of the expression.
    pub closed spec fn source_spec(&self) -> Seq<char> {
        self.source@
    }

    /// Compiles `source`; `None` when it is not a valid expression.
    pub fn new(source: &str) -> (r: Option<Pattern>)
        ensures
            r is Some <==> regex_valid(source@),
            r is Some ==> r->0.source_spec() == source@,
    {
        match compile_regex(source) {
            Some(compiled) => Some(Pattern { source: source.to_owned(), compiled }),
            None => None,
        }
    }

    /// The text of the expression.
    pub fn source(&self) -> (r: &str)
        ensures
            r@ == self.source_spec(),
    {
        self.source.as_str()
    }

    /// Relies on `regex::Regex::is_match`, on the expression compiled from
    /// `source` by `new`: whether it matches somewhere in `text`.
    #[verifier::external_body]
    fn regex_is_match(&self, text: &str) -> (r: bool)
        ensures
            r == regex_match(self.source_spec(), text@),
    {
        self.compiled.is_match(text)
    }

    /// Whether the expression matches somewhere in `text`.
    pub fn is_match(&self, text: &str) -> (r: bool)
        ensures
            r == regex_match(self.source_spec(), text@),
    {
        self.regex_is_match(text)
    }
}

/// How a name or a text is matched.
#[derive(Debug)]
pub enum TextFilter {
    /// A regular expression found anywhere in the text.
    Regex(Pattern),
    /// The text is exactly this.
    Exact(String),
}

impl TextFilter {
    /// Whether the filter accepts `text`.
    pub open spec fn accepts_spec(&self, text: Seq<char>) -> bool {
        match self {
            TextFilter::Regex(p) => regex_match(p.source_spec(), text),
            TextFilter::Exact(s) => s@ == text,
        }
    }

    /// Whether the filter accepts `text`.
    pub fn accepts(&self, text: &str) -> (r: bool)
        ensures
            r == self.accepts_spec(text@),
    {
        match self {
            TextFilter::Regex(p) => p.is_match(text),
            TextFilter::Exact(s) => crate::numeric::text_eq(s.as_str(), text),
        }
    }
}

} // verus!
