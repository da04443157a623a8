//! Regular expressions, through the `regex` crate.
use vstd::prelude::*;

verus! {

#[verifier::external_type_specification]
#[verifier::external_body]
pub struct ExRegex(regex::Regex);

/// Whether `regex::Regex::new` accepts the pattern.
pub uninterp spec fn regex_compiles(pattern: Seq<char>) -> bool;

/// What `regex::Regex::captures` finds of the pattern in the haystack: `None`
/// where nothing matches, else each capture group, the whole match first,
/// with `None` for a group that took no part in the match.
pub uninterp spec fn regex_captures(pattern: Seq<char>, haystack: Seq<char>) -> Option<
    Seq<Option<Seq<char>>>,
>;

/// A compiled regular expression together with the text it was compiled from.
pub struct Pattern {
    re: regex::Regex,
    source: String,
}

impl View for Pattern {
    type V = Seq<char>;

    /// The pattern text.
    closed spec fn view(&self) -> Seq<char> {
        self.source@
    }
}

/// `regex::Regex::new`. Whether it succeeds is a matter of the pattern text
/// alone (its syntax and the crate's fixed size limits); this contract names
/// that outcome and does not state which patterns it accepts.
#[verifier::external_body]
pub(crate) fn compile(pattern: &str) -> (res: Option<Pattern>)
    ensures
        res is Some <==> regex_compiles(pattern@),
        res matches Some(p) ==> p@ == pattern@,
{
    match regex::Regex::new(pattern) {
        Ok(re) => Some(Pattern { re, source: pattern.to_string() }),
        Err(_) => None,
    }
}

/// `regex::Regex::captures`, with each group's text copied out. The result is
/// a function of the pattern and the haystack; this contract names it and
/// does not state the matching rules.
#[verifier::external_body]
pub(crate) fn captures(p: &Pattern, haystack: &str) -> (res: Option<Vec<Option<String>>>)
    ensures
        res.deep_view() == regex_captures(p@, haystack@),
{
    match p.re.captures(haystack) {
        None => None,
        Some(caps) => {
            let mut groups = Vec::new();
            for m in caps.iter() {
                groups.push(m.map(|m| m.as_str().to_string()));
            }
            Some(groups)
        },
    }
}

} // verus!
