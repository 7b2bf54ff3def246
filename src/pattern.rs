//! Text patterns, compiled with the regex crate.
use vstd::prelude::*;

verus! {

#[verifier::external_type_specification]
#[verifier::external_body]
pub struct ExRegex(regex::Regex);

#[verifier::external_type_specification]
#[verifier::external_body]
pub struct ExRegexError(regex::Error);

/// Whether the regex crate accepts `pattern`.
pub uninterp spec fn regex_compiles(pattern: Seq<char>) -> bool;

/// Whether `pattern` matches somewhere in `text`.
pub uninterp spec fn regex_is_match(pattern: Seq<char>, text: Seq<char>) -> bool;

/// The texts of capture groups 1 and 2 of the leftmost match of `pattern` in
/// `text`; `None` where there is no match, or one of the two groups takes no
/// part in it.
pub uninterp spec fn regex_two_groups(pattern: Seq<char>, text: Seq<char>) -> Option<(Seq<char>, Seq<char>)>;

/// The pattern text is not a valid regular expression.
#[derive(Debug, Clone, Copy, PartialEq, Eq, Structural)]
pub struct PatternError;

/// A compiled pattern together with its text. The regex is always the
/// compilation of `pattern`: `Matcher::new` is the only way to build one.
pub struct Matcher {
    pattern: String,
    re: regex::Regex,
}

/// Relies on `regex::Regex::new`: it compiles the pattern, or reports an
/// error for one that is invalid or too large.
#[verifier::external_body]
fn compile(pattern: &str) -> (r: Result<regex::Regex, regex::Error>)
    ensures
        r is Ok <==> regex_compiles(pattern@),
{
    regex::Regex::new(pattern)
}

/// Relies on `regex::Regex::is_match`: whether the regex, compiled from
/// `m.pattern`, matches anywhere in `text`.
#[verifier::external_body]
fn regex_match(m: &Matcher, text: &str) -> (r: bool)
    ensures
        r == regex_is_match(m.pattern@, text@),
{
    m.re.is_match(text)
}

/// Relies on `regex::Regex::captures` and `Captures::get`: groups 1 and 2
/// of the leftmost match of the regex, compiled from `m.pattern`.
#[verifier::external_body]
fn regex_groups(m: &Matcher, text: &str) -> (r: Option<(String, String)>)
    ensures
        r is None <==> regex_two_groups(m.pattern@, text@) is None,
        r matches Some(p) ==> regex_two_groups(m.pattern@, text@) == Some((p.0@, p.1@)),
{
    let caps = m.re.captures(text)?;
    Some((caps.get(1)?.as_str().to_string(), caps.get(2)?.as_str().to_string()))
}

impl Matcher {
    /// The text the matcher was compiled from.
    pub closed spec fn pattern_spec(&self) -> Seq<char> {
        self.pattern@
    }

    /// Compiles `pattern`.
    pub fn new(pattern: &str) -> (r: Result<Matcher, PatternError>)
        ensures
            r is Ok <==> regex_compiles(pattern@),
            r matches Ok(m) ==> m.pattern_spec() == pattern@,
    {
        match compile(pattern) {
            Ok(re) => Ok(Matcher { pattern: String::from_str(pattern), re }),
            Err(_) => Err(PatternError),
        }
    }

    /// The text the matcher was compiled from.
    pub fn pattern(&self) -> (r: &str)
        ensures
            r@ == self.pattern_spec(),
    {
        self.pattern.as_str()
    }

    /// Whether the pattern matches somewhere in `text`.
    pub fn is_match(&self, text: &str) -> (r: bool)
        ensures
            r == regex_is_match(self.pattern_spec(), text@),
    {
        regex_match(self, text)
    }

    /// Groups 1 and 2 of the leftmost match in `text`.
    pub fn two_groups(&self, text: &str) -> (r: Option<(String, String)>)
        ensures
            r is None <==> regex_two_groups(self.pattern_spec(), text@) is None,
            r matches Some(p) ==> regex_two_groups(self.pattern_spec(), text@) == Some((p.0@, p.1@)),
    {
        regex_groups(self, text)
    }
}

} // verus!
