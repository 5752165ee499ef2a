//! Calls into the `regex` crate.
//!
//! Discovery patterns written by users and the word-boundary patterns built
//! from symbol names are compiled and run by `regex`.  What a regex does is
//! named as a function of the pattern it was compiled from; nothing here
//! restates its matching rules.
use vstd::prelude::*;

verus! {

#[verifier::external_type_specification]
#[verifier::external_body]
pub struct ExRegex(regex::Regex);

#[verifier::external_type_specification]
#[verifier::external_body]
pub struct ExRegexError(regex::Error);

/// Whether `regex::Regex::new` accepts `pattern`: it is well formed and
/// within the default size limits.  This depends on the pattern alone.
pub uninterp spec fn regex_compiles(pattern: Seq<char>) -> bool;

/// Whether the regex that `regex::Regex::new` builds from `pattern` matches
/// somewhere in `text`.  This depends on the two alone.
pub uninterp spec fn regex_matches(pattern: Seq<char>, text: Seq<char>) -> bool;

/// A compiled regex together with the pattern it was compiled from.  Only
/// `compile_regex` makes one, so the two always belong together.
pub struct CompiledRegex {
    re: regex::Regex,
    pattern: String,
}

impl View for CompiledRegex {
    type V = Seq<char>;

    /// The pattern the regex was compiled from.
    closed spec fn view(&self) -> Seq<char> {
        self.pattern@
    }
}

/// `regex::Regex::new`.  Claimed: it succeeds exactly on the patterns that
/// `regex_compiles` names; the compiled value is kept with a copy of its
/// pattern.
#[verifier::external_body]
pub(crate) fn compile_regex(pattern: &str) -> (r: Result<CompiledRegex, regex::Error>)
    ensures
        r is Ok <==> regex_compiles(pattern@),
        r matches Ok(c) ==> c@ == pattern@,
{
    match regex::Regex::new(pattern) {
        Ok(re) => Ok(CompiledRegex { re, pattern: pattern.to_string() }),
        Err(e) => Err(e),
    }
}

/// `regex::Regex::is_match`.  Claimed: the result depends on the pattern the
/// regex was compiled from and on `text` alone, named `regex_matches`.
#[verifier::external_body]
pub(crate) fn regex_is_match(re: &CompiledRegex, text: &str) -> (r: bool)
    ensures
        r == regex_matches(re@, text@),
{
    re.re.is_match(text)
}

/// The first-group texts of the successive matches that the regex built
/// from `pattern` finds in `text` (`None` for a match in which the group
/// took no part).  This depends on the two alone.
pub uninterp spec fn regex_first_group_texts(pattern: Seq<char>, text: Seq<char>) -> Seq<Option<Seq<char>>>;

/// The number of groups of the regex built from `pattern`, the implicit
/// whole match included.  This depends on the pattern alone.
pub uninterp spec fn regex_group_total(pattern: Seq<char>) -> nat;

/// The texts of optional strings.
pub open spec fn opt_views(v: Seq<Option<String>>) -> Seq<Option<Seq<char>>> {
    v.map_values(|o: Option<String>| match o {
        Some(s) => Some(s@),
        None => None,
    })
}

/// `regex::Regex::captures_iter`, each match mapped to the text of its first
/// group (`None` where the group took no part).  Claimed: the result depends
/// on the pattern the regex was compiled from and on `text` alone, named
/// `regex_first_group_texts`.
#[verifier::external_body]
pub(crate) fn regex_first_groups(re: &CompiledRegex, text: &str) -> (r: Vec<Option<String>>)
    ensures
        opt_views(r@) == regex_first_group_texts(re@, text@),
{
    re.re.captures_iter(text).map(|c| c.get(1).map(|m| m.as_str().to_string())).collect()
}

/// `regex::Regex::captures_len`.  Claimed: the result depends on the pattern
/// the regex was compiled from alone, named `regex_group_total`.
#[verifier::external_body]
pub(crate) fn regex_group_count(re: &CompiledRegex) -> (r: usize)
    ensures
        r == regex_group_total(re@),
{
    re.re.captures_len()
}

/// The characters that `regex::escape` puts a backslash before
/// (`regex_syntax::is_meta_character`).
pub open spec fn is_meta_char(c: char) -> bool {
    c == '\\' || c == '.' || c == '+' || c == '*' || c == '?' || c == '(' || c == ')' || c == '|'
        || c == '[' || c == ']' || c == '{' || c == '}' || c == '^' || c == '$' || c == '#' || c
        == '&' || c == '-' || c == '~'
}

/// `s` with a backslash before each meta character.
pub open spec fn regex_escaped(s: Seq<char>) -> Seq<char>
    decreases s.len(),
{
    if s.len() == 0 {
        seq![]
    } else {
        let r = regex_escaped(s.drop_last());
        if is_meta_char(s.last()) {
            r.push('\\').push(s.last())
        } else {
            r.push(s.last())
        }
    }
}

/// `regex::escape`.  Claimed: each character is copied, with a backslash
/// before it when it is one of the meta characters, as its source does.
#[verifier::external_body]
pub(crate) fn regex_escape(s: &str) -> (r: String)
    ensures
        r@ == regex_escaped(s@),
{
    regex::escape(s)
}

} // verus!
