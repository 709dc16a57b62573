//! Compiled match patterns.
//!
//! A [`Pattern`] keeps the text it was compiled from beside the compiled
//! regex, and its view is that text. What the regex engine answers is not
//! proved here: it is named by [`regex_compiles`] and [`regex_is_match`], and
//! the rest of the library is verified against those two names.

use regex::Regex;
use vstd::prelude::*;

verus! {

/// `regex::Regex`, a compiled regular expression. Nothing inside it is
/// visible to the proofs.
#[verifier::external_type_specification]
#[verifier::external_body]
pub struct ExRegex(regex::Regex);

/// `regex::Error`, the reason for which a pattern was refused. Nothing inside
/// it is visible to the proofs.
#[verifier::external_type_specification]
#[verifier::external_body]
pub struct ExRegexError(regex::Error);

/// Whether `regex::Regex::new` accepts `pattern`.
pub uninterp spec fn regex_compiles(pattern: Seq<char>) -> bool;

/// Whether the regex compiled from `pattern` finds a match somewhere in `text`:
/// the answer of `regex::Regex::is_match`.
pub uninterp spec fn regex_is_match(pattern: Seq<char>, text: Seq<char>) -> bool;

/// A compiled regex together with its source text.
///
/// The only way to make one is [`Pattern::compile`], so the compiled half
/// always comes from the text half.
pub struct Pattern {
    source: String,
    regex: Regex,
}

impl View for Pattern {
    type V = Seq<char>;

    closed spec fn view(&self) -> Seq<char> {
        self.source@
    }
}

impl Pattern {
    /// Calls `regex::Regex::new` on `source`. Trusted: the call succeeds
    /// exactly when [`regex_compiles`] holds of the text, and the pattern
    /// handed back carries that text as its view. The engine's default size
    /// limit is part of what `regex_compiles` names.
    #[verifier::external_body]
    pub(crate) fn compile(source: &str) -> (r: Result<Pattern, regex::Error>)
        ensures
            r is Ok <==> regex_compiles(source@),
            r matches Ok(p) ==> p@ == source@,
    {
        match Regex::new(source) {
            Ok(regex) => Ok(Pattern { source: source.to_owned(), regex }),
            Err(e) => Err(e),
        }
    }

    /// Calls `regex::Regex::is_match` on `text`. Trusted: the answer is the
    /// one that [`regex_is_match`] names for this pattern's text and `text`.
    #[verifier::external_body]
    pub(crate) fn is_match(&self, text: &str) -> (b: bool)
        ensures
            b == regex_is_match(self@, text@),
    {
        self.regex.is_match(text)
    }

    /// The text this pattern was compiled from.
    pub fn source(&self) -> (s: &str)
        ensures
            s@ == self@,
    {
        self.source.as_str()
    }
}

/// Renders a compile error of the regex engine through its `Display` impl.
/// Nothing is claimed of the text.
#[verifier::external_body]
pub(crate) fn regex_error_text(e: &regex::Error) -> String {
    format!("{}", e)
}

} // verus!
