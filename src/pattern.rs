//! Compiled regular expressions, used by the post-pass substitutions of the
//! type-syntax stripper.

use regex::Regex;
use vstd::prelude::*;

verus! {

#[verifier::external_type_specification]
#[verifier::external_body]
pub struct ExRegex(Regex);

#[verifier::external_type_specification]
#[verifier::external_body]
pub struct ExRegexError(regex::Error);

/// Whether `Regex::new` accepts a pattern: its syntax is valid and the
/// compiled program fits the default size limit.
pub uninterp spec fn regex_accepts(pattern: Seq<char>) -> bool;

/// What `Regex::replace_all` returns for a pattern, a haystack and a
/// replacement string.
pub uninterp spec fn regex_replace_all(
    pattern: Seq<char>,
    haystack: Seq<char>,
    rep: Seq<char>,
) -> Seq<char>;

/// A regular expression together with the pattern it was compiled from.
/// Only `compile` builds one, so `re` is always the compiled `source`.
pub struct CompiledPattern {
    source: String,
    re: Regex,
}

impl CompiledPattern {
    pub closed spec fn source(&self) -> Seq<char> {
        self.source@
    }
}

/// Relies on `regex::Regex::new`: compiles `source`, and fails exactly on a
/// pattern that it does not accept.
#[verifier::external_body]
pub fn compile(source: &str) -> (r: Result<CompiledPattern, regex::Error>)
    ensures
        r is Ok <==> regex_accepts(source@),
        r is Ok ==> r->Ok_0.source() == source@,
{
    match Regex::new(source) {
        Ok(re) => Ok(CompiledPattern { source: source.to_string(), re }),
        Err(e) => Err(e),
    }
}

/// Relies on `regex::Regex::replace_all`: every non-overlapping match in
/// `haystack` replaced by `rep`.
#[verifier::external_body]
pub fn replace_matches(p: &CompiledPattern, haystack: &str, rep: &str) -> (r: String)
    ensures
        r@ == regex_replace_all(p.source(), haystack@, rep@),
{
    p.re.replace_all(haystack, rep).into_owned()
}

/// The result of substituting with a pattern that may have failed to compile;
/// a pattern that is absent leaves the text as it is.
pub open spec fn apply_pattern(p: Option<Seq<char>>, text: Seq<char>, rep: Seq<char>) -> Seq<char> {
    match p {
        Some(src) => regex_replace_all(src, text, rep),
        None => text,
    }
}

pub open spec fn pattern_view(p: Option<CompiledPattern>) -> Option<Seq<char>> {
    match p {
        Some(c) => Some(c.source()),
        None => None,
    }
}

} // verus!
