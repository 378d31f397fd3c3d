//! Regular expressions from the `regex` crate, held together with the
//! pattern they were compiled from so that contracts can speak of it.
use vstd::prelude::*;
use crate::log_entry::opt_view;

verus! {

#[verifier::external_type_specification]
#[verifier::external_body]
pub struct ExRegex(regex::Regex);

/// `Clone` for `regex::Regex`: a clone of a compiled regex. Nothing is
/// claimed of the result (the type is opaque here).
pub assume_specification[ <regex::Regex as Clone>::clone ](re: &regex::Regex) -> regex::Regex;

/// Whether `regex::Regex::new` accepts `pattern`.
pub uninterp spec fn regex_compiles(pattern: Seq<char>) -> bool;

/// The text of the error `regex::Regex::new` reports for `pattern`.
pub uninterp spec fn regex_error_text(pattern: Seq<char>) -> Seq<char>;

/// Whether the regex compiled from `pattern` matches somewhere in `text`.
pub uninterp spec fn regex_is_match(pattern: Seq<char>, text: Seq<char>) -> bool;

/// A regex character that `regex::escape` prefixes with a backslash.
pub open spec fn is_meta_char(c: char) -> bool {
    c == '\\' || c == '.' || c == '+' || c == '*' || c == '?' || c == '(' || c == ')' || c == '|'
        || c == '[' || c == ']' || c == '{' || c == '}' || c == '^' || c == '$' || c == '#'
        || c == '&' || c == '-' || c == '~'
}

/// `regex::escape`: every meta character gets a backslash in front.
pub open spec fn escaped(s: Seq<char>) -> Seq<char>
    decreases s.len(),
{
    if s.len() == 0 {
        s
    } else if is_meta_char(s.last()) {
        escaped(s.drop_last()).push('\\').push(s.last())
    } else {
        escaped(s.drop_last()).push(s.last())
    }
}

/// A compiled regular expression together with its source pattern.
#[derive(Debug, Clone)]
pub struct CompiledRegex {
    re: regex::Regex,
    source: String,
}

impl CompiledRegex {
    /// The pattern this regex was compiled from.
    pub closed spec fn pattern(&self) -> Seq<char> {
        self.source@
    }

    /// A copy of this regex, compiled from the same pattern.
    pub fn duplicate(&self) -> (r: CompiledRegex)
        ensures
            r.pattern() == self.pattern(),
    {
        CompiledRegex { re: self.re.clone(), source: self.source.clone() }
    }

    pub fn as_str(&self) -> (s: &str)
        ensures
            s@ == self.pattern(),
    {
        self.source.as_str()
    }
}

/// Calls `regex::Regex::new`. Claims: it succeeds exactly when the pattern
/// compiles, the result keeps its source pattern, and a failure carries the
/// error's `Display` text. Which patterns compile, and the error texts, are
/// not stated: they are named by `regex_compiles` and `regex_error_text`.
#[verifier::external_body]
pub(crate) fn compile_regex(pattern: &str) -> (r: Result<CompiledRegex, String>)
    ensures
        r is Ok <==> regex_compiles(pattern@),
        r matches Ok(c) ==> c.pattern() == pattern@,
        r matches Err(e) ==> e@ == regex_error_text(pattern@),
{
    match regex::Regex::new(pattern) {
        Ok(re) => Ok(CompiledRegex { re, source: pattern.to_string() }),
        Err(e) => Err(e.to_string()),
    }
}

/// Calls `regex::Regex::is_match` on the compiled regex. Claims only that
/// the answer is a function of the source pattern and the text (named by
/// `regex_is_match`); regex semantics are not stated.
#[verifier::external_body]
pub(crate) fn regex_matches(re: &CompiledRegex, text: &str) -> (b: bool)
    ensures
        b == regex_is_match(re.pattern(), text@),
{
    re.re.is_match(text)
}

/// Calls `regex::escape`, whose source (regex-syntax `escape_into`) pushes a
/// backslash before each meta character and copies every character.
#[verifier::external_body]
pub(crate) fn escape_regex(text: &str) -> (r: String)
    ensures
        r@ == escaped(text@),
{
    regex::escape(text)
}

/// The named groups of the first match of `pattern` in `text`, in the order
/// of `names` (a group that took no part reads as `None`), or `None` when
/// the pattern does not match.
pub uninterp spec fn regex_named_captures(pattern: Seq<char>, text: Seq<char>, names: Seq<Seq<char>>) -> Option<
    Seq<Option<Seq<char>>>,
>;

pub open spec fn str_views(v: Seq<&str>) -> Seq<Seq<char>> {
    v.map_values(|s: &str| s@)
}

pub open spec fn group_views(v: Seq<Option<String>>) -> Seq<Option<Seq<char>>> {
    v.map_values(|g: Option<String>| opt_view(g))
}

/// Calls `regex::Regex::captures` on the compiled regex and reads each named
/// group's text (`Captures::name`). Claims: one entry per requested name,
/// and the result is a function of the source pattern, the text and the
/// names (named by `regex_named_captures`); regex semantics are not stated.
#[verifier::external_body]
pub(crate) fn regex_captures(re: &CompiledRegex, text: &str, names: &[&str]) -> (r: Option<Vec<Option<String>>>)
    ensures
        match r {
            Some(v) => v@.len() == names@.len() && regex_named_captures(re.pattern(), text@, str_views(names@))
                == Some(group_views(v@)),
            None => regex_named_captures(re.pattern(), text@, str_views(names@)) is None,
        },
{
    let caps = re.re.captures(text)?;
    let mut groups = Vec::new();
    for name in names {
        groups.push(caps.name(name).map(|m| m.as_str().to_string()));
    }
    Some(groups)
}

} // verus!
