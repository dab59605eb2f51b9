//! The calls into the `regex` and `fancy_regex` crates, each behind a
//! small trusted wrapper whose result is named by a spec function of its
//! arguments.  Matching is deterministic: the same pattern, options and
//! text give the same answer.

use vstd::prelude::*;

verus! {

/// Whether `regex::RegexBuilder::build` accepts `pattern` under the options
/// multi_line, case_insensitive, unicode, octal and dot_matches_new_line
/// (in that order).
pub uninterp spec fn regex_compiles(
    pattern: Seq<char>,
    multi_line: bool,
    case_insensitive: bool,
    unicode: bool,
    octal: bool,
    dot_all: bool,
) -> bool;

/// What `regex::Regex::is_match` answers for the compiled pattern on `text`.
pub uninterp spec fn regex_is_match_of(
    pattern: Seq<char>,
    multi_line: bool,
    case_insensitive: bool,
    unicode: bool,
    octal: bool,
    dot_all: bool,
    text: Seq<char>,
) -> bool;

/// The texts of the successive non-overlapping matches that
/// `regex::Regex::find_iter` yields on `text`.
pub uninterp spec fn regex_find_all_of(
    pattern: Seq<char>,
    multi_line: bool,
    case_insensitive: bool,
    unicode: bool,
    octal: bool,
    dot_all: bool,
    text: Seq<char>,
) -> Seq<Seq<char>>;

/// What `regex::Regex::replacen(text, limit, replacement)` returns.
pub uninterp spec fn regex_replacen_of(
    pattern: Seq<char>,
    multi_line: bool,
    case_insensitive: bool,
    unicode: bool,
    octal: bool,
    dot_all: bool,
    text: Seq<char>,
    limit: nat,
    replacement: Seq<char>,
) -> Seq<char>;

/// Builds a regex with `regex::RegexBuilder` and the given options, then
/// asks `Regex::is_match` on `text`.  `None` exactly when the build fails.
#[verifier::external_body]
pub(crate) fn regex_is_match(
    pattern: &str,
    multi_line: bool,
    case_insensitive: bool,
    unicode: bool,
    octal: bool,
    dot_all: bool,
    text: &str,
) -> (r: Option<bool>)
    ensures
        r is Some <==> regex_compiles(pattern@, multi_line, case_insensitive, unicode, octal, dot_all),
        r matches Some(b) ==> b == regex_is_match_of(pattern@, multi_line, case_insensitive, unicode, octal, dot_all, text@),
{
    match regex::RegexBuilder::new(pattern).multi_line(multi_line).case_insensitive(case_insensitive)
        .unicode(unicode).octal(octal).dot_matches_new_line(dot_all).build() {
        Ok(re) => Some(re.is_match(text)),
        Err(_) => None,
    }
}

/// Builds a regex as `regex_is_match` does, then collects the texts of the
/// matches of `Regex::find_iter` on `text`.  `None` exactly when the build fails.
#[verifier::external_body]
pub(crate) fn regex_find_all(
    pattern: &str,
    multi_line: bool,
    case_insensitive: bool,
    unicode: bool,
    octal: bool,
    dot_all: bool,
    text: &str,
) -> (r: Option<Vec<String>>)
    ensures
        r is Some <==> regex_compiles(pattern@, multi_line, case_insensitive, unicode, octal, dot_all),
        r matches Some(v) ==> v@.map_values(|s: String| s@) == regex_find_all_of(pattern@, multi_line, case_insensitive, unicode, octal, dot_all, text@),
{
    match regex::RegexBuilder::new(pattern).multi_line(multi_line).case_insensitive(case_insensitive)
        .unicode(unicode).octal(octal).dot_matches_new_line(dot_all).build() {
        Ok(re) => Some(re.find_iter(text).map(|m| m.as_str().to_owned()).collect()),
        Err(_) => None,
    }
}

/// Builds a regex as `regex_is_match` does, then returns
/// `Regex::replacen(text, limit, replacement)`.  `None` exactly when the build fails.
#[verifier::external_body]
pub(crate) fn regex_replacen(
    pattern: &str,
    multi_line: bool,
    case_insensitive: bool,
    unicode: bool,
    octal: bool,
    dot_all: bool,
    text: &str,
    limit: usize,
    replacement: &str,
) -> (r: Option<String>)
    ensures
        r is Some <==> regex_compiles(pattern@, multi_line, case_insensitive, unicode, octal, dot_all),
        r matches Some(s) ==> s@ == regex_replacen_of(pattern@, multi_line, case_insensitive, unicode, octal, dot_all, text@, limit as nat, replacement@),
{
    match regex::RegexBuilder::new(pattern).multi_line(multi_line).case_insensitive(case_insensitive)
        .unicode(unicode).octal(octal).dot_matches_new_line(dot_all).build() {
        Ok(re) => Some(re.replacen(text, limit, replacement).to_string()),
        Err(_) => None,
    }
}

/// Whether `fancy_regex::Regex::new` accepts `pattern`.
pub uninterp spec fn fancy_regex_compiles(pattern: Seq<char>) -> bool;

/// What `fancy_regex::Regex::is_match` returns on `text`: `None` when it
/// reports an error (such as its backtracking limit being exceeded).
pub uninterp spec fn fancy_regex_is_match_of(pattern: Seq<char>, text: Seq<char>) -> Option<bool>;

/// Compiles `pattern` with `fancy_regex::Regex::new` and asks `is_match` on
/// `text`.  The outer `None` exactly when the compilation fails; the inner
/// value is the match result, `None` when the matcher reports an error.
#[verifier::external_body]
pub(crate) fn fancy_regex_is_match(pattern: &str, text: &str) -> (r: Option<Option<bool>>)
    ensures
        r is Some <==> fancy_regex_compiles(pattern@),
        r matches Some(m) ==> m == fancy_regex_is_match_of(pattern@, text@),
{
    match fancy_regex::Regex::new(pattern) {
        Ok(re) => Some(re.is_match(text).ok()),
        Err(_) => None,
    }
}

} // verus!
