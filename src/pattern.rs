use vstd::prelude::*;

verus! {

#[verifier::external_type_specification]
#[verifier::external_body]
pub struct ExRegex(regex::Regex);

#[verifier::external_type_specification]
#[verifier::external_body]
pub struct ExRegexError(regex::Error);

/// Whether `regex::Regex::new` accepts `pattern` (with its default limits).
pub uninterp spec fn regex_compiles(pattern: Seq<char>) -> bool;

/// Whether the regex compiled from `pattern` matches somewhere in `text`.
pub uninterp spec fn regex_is_match(pattern: Seq<char>, text: Seq<char>) -> bool;

/// A name filter: its source text and the regex compiled from that text.
///
/// Only `compile` builds one, so `re` is always the regex of `source`.
#[derive(Debug)]
pub struct NamePattern {
    source: String,
    re: regex::Regex,
}

impl View for NamePattern {
    type V = Seq<char>;

    closed spec fn view(&self) -> Seq<char> {
        self.source@
    }
}

impl NamePattern {
    /// The text the pattern was compiled from.
    pub fn source(&self) -> (r: &str)
        ensures
            r@ == self@,
    {
        self.source.as_str()
    }
}

/// Relies on regex::Regex::new: it fails exactly on the patterns that do not
/// compile, and that depends on the pattern alone.
#[verifier::external_body]
pub(crate) fn compile(s: &str) -> (r: Result<NamePattern, regex::Error>)
    ensures
        r is Ok <==> regex_compiles(s@),
        r matches Ok(p) ==> p@ == s@,
{
    match regex::Regex::new(s) {
        Ok(re) => Ok(NamePattern { source: s.to_string(), re }),
        Err(e) => Err(e),
    }
}

/// Relies on regex::Regex::is_match: true when the pattern matches anywhere
/// in `text`, not only the whole of it.
#[verifier::external_body]
pub(crate) fn is_match(p: &NamePattern, text: &str) -> (r: bool)
    ensures
        r == regex_is_match(p@, text@),
{
    p.re.is_match(text)
}

} // verus!
