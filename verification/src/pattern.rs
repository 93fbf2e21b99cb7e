//! A compiled search pattern. The matching engine itself is the `regex`
//! crate; whether a given line matches a given pattern text is named by
//! the uninterpreted function `regex_match` and never restated, so every
//! verified consequence is relative to that name alone.

use vstd::prelude::*;

verus! {

/// Declares `regex::Regex` so compiled patterns can live in our types;
/// the value stays opaque here.
#[verifier::external_type_specification]
#[verifier::external_body]
pub struct ExRegex(regex::Regex);

/// Whether the regular expression written as `pattern` matches anywhere
/// in `line`. The `regex` crate's answer depends on these two texts alone.
pub uninterp spec fn regex_match(pattern: Seq<char>, line: Seq<char>) -> bool;

/// A compiled regular expression together with the text it was compiled
/// from. The two fields are coupled: every constructor compiles `regex`
/// from `source`, and the contract of [`Pattern::is_match`] rests on that.
pub struct Pattern {
    regex: regex::Regex,
    source: String,
}

impl Pattern {
    /// The pattern text this value was compiled from.
    pub closed spec fn text(&self) -> Seq<char> {
        self.source@
    }

    /// Relies on `regex::Regex::new`: compiling the pattern text, which
    /// fails exactly on an invalid or oversized pattern. Whether a text is
    /// accepted is the engine's decision, so success is not promised here.
    #[verifier::external_body]
    pub fn compile(source: &str) -> (r: Option<Pattern>)
        ensures
            r is Some ==> r->Some_0.text() == source@,
    {
        match regex::Regex::new(source) {
            Ok(regex) => Some(Pattern { regex, source: source.to_owned() }),
            Err(_) => None,
        }
    }

    /// Relies on `regex::Regex::is_match`: true iff there is a match for
    /// the compiled pattern anywhere in `line`; a pure function of the
    /// pattern text and the line.
    #[verifier::external_body]
    pub fn is_match(&self, line: &str) -> (r: bool)
        ensures
            r == regex_match(self.text(), line@),
    {
        self.regex.is_match(line)
    }

    /// The pattern text, as a borrowed string.
    pub fn source(&self) -> (r: &String)
        ensures
            r@ == self.text(),
    {
        &self.source
    }
}

} // verus!
