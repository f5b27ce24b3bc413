//! Regular expressions of scripts.
use vstd::prelude::*;

verus! {

/// Why the regex crate refuses a pattern, if it does.
pub uninterp spec fn regex_fault(pattern: Seq<char>) -> Option<Seq<char>>;

/// Whether the regex crate finds a pattern in a text.
pub uninterp spec fn regex_found(pattern: Seq<char>, text: Seq<char>) -> bool;

/// `regex::Regex::new`: whether a pattern compiles is a function of the pattern
/// alone. [`regex_fault`] names the text of the error, or none where it
/// compiles. The crate refuses a pattern that compiles to more than a limit,
/// which it counts in bytes: for a pattern close to the limit, the name stands
/// for the answer on machines with one width of pointers. Stated of it besides:
/// `^\s`, a white character at the start, compiles.
#[verifier::external_body]
pub(crate) fn pattern_fault(pattern: &str) -> (r: Option<String>)
    ensures
        match r {
            Some(e) => regex_fault(pattern@) == Some(e@),
            None => regex_fault(pattern@) is None,
        },
        pattern@ == "^\\s"@ ==> r is None,
{
    regex::Regex::new(pattern).err().map(|e| e.to_string())
}

/// `regex::Regex::is_match` of a pattern that compiles: whether there is a
/// match anywhere in the text is a function of pattern and text, which
/// [`regex_found`] names.
#[verifier::external_body]
pub(crate) fn pattern_found(pattern: &str, text: &str) -> (r: bool)
    requires
        regex_fault(pattern@) is None,
    ensures
        r == regex_found(pattern@, text@),
{
    regex::Regex::new(pattern).map_or(false, |re| re.is_match(text))
}

/// A pattern that compiles.
#[derive(Debug)]
pub struct Pattern {
    source: String,
}

impl Pattern {
    /// The text of the pattern.
    pub closed spec fn source_v(&self) -> Seq<char> {
        self.source@
    }

    #[verifier::type_invariant]
    spec fn compiles(&self) -> bool {
        regex_fault(self.source@) is None
    }

    /// The pattern of a text, or why it is none.
    pub fn new(source: &str) -> (r: Result<Pattern, String>)
        ensures
            match (r, regex_fault(source@)) {
                (Ok(p), None) => p.source_v() == source@,
                (Err(e), Some(m)) => e@ == m,
                _ => false,
            },
            source@ == "^\\s"@ ==> r is Ok,
    {
        match pattern_fault(source) {
            Some(e) => Err(e),
            None => Ok(Pattern { source: source.to_owned() }),
        }
    }

    /// Whether the pattern matches anywhere in a text.
    pub fn is_match(&self, text: &str) -> (r: bool)
        ensures
            r == regex_found(self.source_v(), text@),
    {
        proof {
            use_type_invariant(self);
        }
        pattern_found(&self.source, text)
    }
}

} // verus!
