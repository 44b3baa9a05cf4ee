// Search patterns: the regular expressions that filter the visibility list.
// Compiling and matching are the work of the regex crate; this file states
// what the rest of the library relies on.

use regex::Regex;
use vstd::prelude::*;
use vstd::string::*;

verus! {

/// A compiled pattern of the regex crate. Nothing of its inside is known
/// here.
#[verifier::external_type_specification]
#[verifier::external_body]
pub struct ExRegex(regex::Regex);

/// The error of the regex crate for a pattern that does not compile.
#[verifier::external_type_specification]
#[verifier::external_body]
pub struct ExRegexError(regex::Error);

/// The texts that a compiled pattern holds: those in which `Regex::is_match`
/// finds a match.
pub uninterp spec fn matched_texts(pattern: Regex) -> Set<Seq<char>>;

/// Calls `Regex::is_match`, which says whether the pattern has a match
/// anywhere in the text. Trusted: that the answer is a matter of the
/// pattern and the text alone, so that `matched_texts` can name it.
#[verifier::external_body]
pub(crate) fn is_match(pattern: &Regex, text: &str) -> (found: bool)
    ensures
        found == matched_texts(*pattern).contains(text@),
{
    pattern.is_match(text)
}

/// The text that a compiled pattern was compiled from: what `Regex::as_str`
/// returns.
pub uninterp spec fn pattern_text(pattern: Regex) -> Seq<char>;

/// Whether a pattern text compiles: whether `Regex::new` returns `Ok` for
/// it. `Regex::new` builds with the fixed limits of the default builder,
/// so that the answer is a matter of the text alone.
pub uninterp spec fn compiles(text: Seq<char>) -> bool;

/// Calls `Regex::new`, which compiles the pattern or says why it cannot.
/// Trusted: that whether it succeeds is a matter of the text alone, so
/// that `compiles` can name it, and that a compiled pattern keeps the text
/// it was compiled from. Nothing is claimed of which texts compile, nor of
/// the error.
#[verifier::external_body]
pub(crate) fn compile(pattern: &str) -> (compiled: Result<Regex, regex::Error>)
    ensures
        compiled is Ok <==> compiles(pattern@),
        compiled matches Ok(made) ==> pattern_text(made) == pattern@,
{
    Regex::new(pattern)
}

/// Why a pattern did not compile.
#[derive(Clone, Debug, PartialEq, Eq)]
pub enum PatternError {
    /// The pattern is not well formed; the message says where.
    Syntax(String),
    /// The compiled pattern would be larger than the limit given.
    CompiledTooBig(usize),
    /// Any other failure.
    Other,
}

/// Tells the variants of `regex::Error` apart. Nothing is claimed of the
/// outcome.
#[verifier::external_body]
pub(crate) fn classify(error: regex::Error) -> (kind: PatternError) {
    match error {
        regex::Error::Syntax(message) => PatternError::Syntax(message),
        regex::Error::CompiledTooBig(limit) => PatternError::CompiledTooBig(limit),
        _ => PatternError::Other,
    }
}

/// The message shown for a pattern that did not compile.
pub open spec fn error_text(error: PatternError) -> Seq<char> {
    match error {
        PatternError::Syntax(message) => message@,
        PatternError::CompiledTooBig(_) => "compiled too big"@,
        PatternError::Other => "Some error"@,
    }
}

impl PatternError {
    /// The message shown for this error.
    pub fn message(self) -> (text: String)
        ensures
            text@ == error_text(self),
    {
        match self {
            PatternError::Syntax(message) => message,
            PatternError::CompiledTooBig(_) => String::from_str("compiled too big"),
            PatternError::Other => String::from_str("Some error"),
        }
    }
}

/// Whether `outcome` can be the outcome of compiling `text`: it is a
/// pattern exactly where the text compiles, and the pattern is one of that
/// text.
pub open spec fn compiled_from(outcome: Result<Regex, PatternError>, text: Seq<char>) -> bool {
    &&& outcome is Ok <==> compiles(text)
    &&& outcome matches Ok(pattern) ==> pattern_text(pattern) == text
}

/// Whether a filter lets a name pass: a pattern lets pass the names in
/// which it finds a match, and without a pattern every name passes.
pub open spec fn passes(filter: Option<Regex>, name: Seq<char>) -> bool {
    match filter {
        Some(pattern) => matched_texts(pattern).contains(name),
        None => true,
    }
}

/// Whether `filter` lets `name` pass.
pub fn filter_passes(filter: &Option<Regex>, name: &str) -> (pass: bool)
    ensures
        pass == passes(*filter, name@),
{
    match filter {
        Some(pattern) => is_match(pattern, name),
        None => true,
    }
}

} // verus!
