//! Regular expressions, through the `regex` crate.

use vstd::prelude::*;

verus! {

/// The message `regex` gives when `pattern` does not compile; `None` when it
/// compiles.
pub uninterp spec fn regex_error(pattern: Seq<char>) -> Option<Seq<char>>;

/// Whether `pattern`, compiled by `regex`, matches somewhere in `text`.
pub uninterp spec fn regex_finds(pattern: Seq<char>, text: Seq<char>) -> bool;

/// Compiles `pattern` and reports why it does not compile, if it does not.
///
/// Trusted: `regex::Regex::new`, whose outcome, and error message, depend on
/// the pattern alone; the contract names them.
#[verifier::external_body]
fn why_not_compiling(pattern: &str) -> (res: Option<String>)
    ensures
        match res {
            Some(e) => regex_error(pattern@) == Some(e@),
            None => regex_error(pattern@) is None,
        },
{
    match regex::Regex::new(pattern) {
        Ok(_) => None,
        Err(e) => Some(e.to_string()),
    }
}

/// Whether compiled `pattern` matches somewhere in `text`.
///
/// Trusted: `regex::Regex::is_match` on the regex that `regex::Regex::new`
/// compiles from `pattern`, which compiles by the requirement. The answer
/// depends on the pattern and the text alone; the contract names it.
#[verifier::external_body]
fn finds(pattern: &str, text: &str) -> (res: bool)
    requires
        regex_error(pattern@) is None,
    ensures
        res == regex_finds(pattern@, text@),
{
    match regex::Regex::new(pattern) {
        Ok(re) => re.is_match(text),
        Err(_) => false,
    }
}

/// A regular expression that compiles.
pub struct Pattern {
    source: String,
}

impl View for Pattern {
    type V = Seq<char>;

    closed spec fn view(&self) -> Seq<char> {
        self.source@
    }
}

impl Pattern {
    #[verifier::type_invariant]
    spec fn compiles(self) -> bool {
        regex_error(self.source@) is None
    }

    /// Compiles `source`, or says why it does not compile.
    pub fn new(source: &str) -> (res: Result<Pattern, String>)
        ensures
            match res {
                Ok(p) => regex_error(source@) is None && p@ == source@,
                Err(e) => regex_error(source@) == Some(e@),
            },
    {
        match why_not_compiling(source) {
            Some(e) => Err(e),
            None => Ok(Pattern { source: String::from_str(source) }),
        }
    }

    /// Whether the pattern matches somewhere in `text`.
    pub fn is_match(&self, text: &str) -> (res: bool)
        ensures
            res == regex_finds(self@, text@),
    {
        proof {
            use_type_invariant(self);
        }
        finds(self.source.as_str(), text)
    }

    /// The pattern's text.
    pub fn as_str(&self) -> (res: &str)
        ensures
            res@ == self@,
    {
        self.source.as_str()
    }
}

} // verus!
