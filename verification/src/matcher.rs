//! Matching scan responses against patterns: regular expressions with the
//! matcher's options, or plain substrings.

use vstd::prelude::*;
use crate::regex_ext::{
    fancy_regex_compiles, fancy_regex_is_match, fancy_regex_is_match_of, regex_compiles,
    regex_find_all, regex_find_all_of, regex_is_match, regex_is_match_of, regex_replacen,
    regex_replacen_of,
};
use crate::text::{seq_contains, str_contains};

verus! {

/// Errors reported to the scripts.
#[derive(Debug, Clone, Copy, PartialEq, Eq, Structural)]
pub enum CliErrors {
    /// A pattern is not a valid regular expression.
    RegexPatternError,
    /// Matching a valid pattern failed.
    RegexError,
    /// A file could not be read.
    ReadingError,
}

/// Strings seen as character sequences.
pub open spec fn strings_view(v: Seq<String>) -> Seq<Seq<char>> {
    v.map_values(|s: String| s@)
}

/// The options with which patterns are compiled.  `ignore_whitespace` is
/// kept for scripts that set it; it is not passed to the regex builder.
#[derive(Clone, Copy, Debug)]
pub struct ResponseMatcher {
    pub multi_line: bool,
    pub case_insensitive: bool,
    pub ignore_whitespace: bool,
    pub unicode: bool,
    pub octal: bool,
    pub dot_matches_new_line: bool,
}

impl ResponseMatcher {
    /// The matcher that scripts start with: Unicode and octal escapes on,
    /// every other option off.
    pub fn for_scripts() -> (m: ResponseMatcher)
        ensures
            m == (ResponseMatcher {
                ignore_whitespace: false,
                case_insensitive: false,
                multi_line: false,
                octal: true,
                unicode: true,
                dot_matches_new_line: false,
            }),
    {
        ResponseMatcher {
            ignore_whitespace: false,
            case_insensitive: false,
            multi_line: false,
            octal: true,
            unicode: true,
            dot_matches_new_line: false,
        }
    }

    /// The pattern compiles under this matcher's options.
    pub open spec fn compiles(&self, pattern: Seq<char>) -> bool {
        regex_compiles(pattern, self.multi_line, self.case_insensitive, self.unicode, self.octal, self.dot_matches_new_line)
    }

    /// The compiled pattern matches somewhere in `text`.
    pub open spec fn matches(&self, pattern: Seq<char>, text: Seq<char>) -> bool {
        regex_is_match_of(pattern, self.multi_line, self.case_insensitive, self.unicode, self.octal, self.dot_matches_new_line, text)
    }

    /// `pattern` is found in `body`: as a regular expression or as a substring.
    pub open spec fn found(&self, body: Seq<char>, pattern: Seq<char>, regex: bool) -> bool {
        if regex { self.matches(pattern, body) } else { seq_contains(body, pattern) }
    }

    /// Every pattern compiles.
    pub open spec fn all_compile(&self, patterns: Seq<Seq<char>>) -> bool {
        forall|i: int| 0 <= i < patterns.len() ==> self.compiles(#[trigger] patterns[i])
    }

    /// The patterns found in `body`, in their order.
    pub open spec fn found_patterns(&self, body: Seq<char>, patterns: Seq<Seq<char>>, regex: bool) -> Seq<Seq<char>>
        decreases patterns.len(),
    {
        if patterns.len() == 0 {
            Seq::empty()
        } else {
            let r = self.found_patterns(body, patterns.drop_last(), regex);
            if self.found(body, patterns.last(), regex) { r.push(patterns.last()) } else { r }
        }
    }

    /// Whether `pattern` matches somewhere in `resp`.
    pub fn is_match(&self, pattern: String, resp: String) -> (r: Result<bool, CliErrors>)
        ensures
            self.compiles(pattern@) ==> r == Ok::<bool, CliErrors>(self.matches(pattern@, resp@)),
            !self.compiles(pattern@) ==> r == Err::<bool, CliErrors>(CliErrors::RegexPatternError),
    {
        match regex_is_match(pattern.as_str(), self.multi_line, self.case_insensitive, self.unicode, self.octal, self.dot_matches_new_line, resp.as_str()) {
            Some(b) => Ok(b),
            None => Err(CliErrors::RegexPatternError),
        }
    }

    /// The texts of all successive matches of `regex_pattern` in `response`.
    pub fn extract_data(&self, regex_pattern: &str, response: &str) -> (r: Result<Vec<String>, CliErrors>)
        ensures
            self.compiles(regex_pattern@) ==> (r matches Ok(v) && strings_view(v@) == regex_find_all_of(
                regex_pattern@, self.multi_line, self.case_insensitive, self.unicode, self.octal, self.dot_matches_new_line, response@)),
            !self.compiles(regex_pattern@) ==> r == Err::<Vec<String>, CliErrors>(CliErrors::RegexPatternError),
    {
        match regex_find_all(regex_pattern, self.multi_line, self.case_insensitive, self.unicode, self.octal, self.dot_matches_new_line, response) {
            Some(v) => Ok(v),
            None => Err(CliErrors::RegexPatternError),
        }
    }

    /// `response` with the first two matches of `regex_pattern` replaced by `replacement`.
    pub fn replace_txt(&self, regex_pattern: &str, replacement: &str, response: &str) -> (r: Result<String, CliErrors>)
        ensures
            self.compiles(regex_pattern@) ==> (r matches Ok(s) && s@ == regex_replacen_of(
                regex_pattern@, self.multi_line, self.case_insensitive, self.unicode, self.octal, self.dot_matches_new_line,
                response@, 2, replacement@)),
            !self.compiles(regex_pattern@) ==> r == Err::<String, CliErrors>(CliErrors::RegexPatternError),
    {
        match regex_replacen(regex_pattern, self.multi_line, self.case_insensitive, self.unicode, self.octal, self.dot_matches_new_line, response, 2, replacement) {
            Some(s) => Ok(s),
            None => Err(CliErrors::RegexPatternError),
        }
    }

    /// Whether every pattern of `text` is found in `body` (as regular
    /// expressions when `is_regex` is `Some(true)`, else as substrings).
    /// With regular expressions, an invalid pattern is an error.
    pub fn match_and_body(&self, body: &str, text: Vec<String>, is_regex: Option<bool>) -> (r: Result<bool, CliErrors>)
        ensures
            ({
                let regex = is_regex == Some(true);
                let ps = strings_view(text@);
                if regex && !self.all_compile(ps) {
                    r == Err::<bool, CliErrors>(CliErrors::RegexPatternError)
                } else {
                    r == Ok::<bool, CliErrors>(forall|i: int| 0 <= i < ps.len() ==> #[trigger] self.found(body@, ps[i], regex))
                }
            }),
    {
        let regex = match is_regex {
            Some(b) => b,
            None => false,
        };
        let ghost ps = strings_view(text@);
        let mut counter: usize = 0;
        let mut i: usize = 0;
        while i < text.len()
            invariant
                i <= text@.len(),
                ps == strings_view(text@),
                regex == (is_regex == Some(true)),
                counter <= i,
                regex ==> forall|j: int| 0 <= j < i ==> self.compiles(#[trigger] ps[j]),
                (counter == i) <==> (forall|j: int| 0 <= j < i ==> #[trigger] self.found(body@, ps[j], regex)),
            decreases text@.len() - i,
        {
            assert(ps[i as int] == text@[i as int]@);
            if regex {
                match regex_is_match(text[i].as_str(), self.multi_line, self.case_insensitive, self.unicode, self.octal, self.dot_matches_new_line, body) {
                    Some(b) => {
                        if b {
                            counter = counter + 1;
                        }
                    },
                    None => {
                        assert(!self.compiles(ps[i as int]));
                        return Err(CliErrors::RegexPatternError);
                    },
                }
            } else {
                if str_contains(body, text[i].as_str()) {
                    counter = counter + 1;
                }
            }
            proof {
                if counter == i + 1 {
                    assert forall|j: int| 0 <= j < i + 1 implies #[trigger] self.found(body@, ps[j], regex) by {
                        if j < i {
                            assert(counter - 1 == i);
                        }
                    }
                }
                if counter < i + 1 {
                    if forall|j: int| 0 <= j < i + 1 ==> #[trigger] self.found(body@, ps[j], regex) {
                        assert(self.found(body@, ps[i as int], regex));
                        assert(forall|j: int| 0 <= j < i ==> #[trigger] self.found(body@, ps[j], regex));
                    }
                }
            }
            i = i + 1;
        }
        Ok(counter == text.len())
    }

    /// The patterns of `text` found in `body`, in order (as regular
    /// expressions when `is_regex` is `Some(true)`, else as substrings).
    /// With regular expressions, an invalid pattern is an error.
    pub fn match_once_body(&self, body: String, text: Vec<String>, is_regex: Option<bool>) -> (r: Result<Vec<String>, CliErrors>)
        ensures
            ({
                let regex = is_regex == Some(true);
                let ps = strings_view(text@);
                if regex && !self.all_compile(ps) {
                    r == Err::<Vec<String>, CliErrors>(CliErrors::RegexPatternError)
                } else {
                    r matches Ok(v) && strings_view(v@) == self.found_patterns(body@, ps, regex)
                }
            }),
    {
        let regex = match is_regex {
            Some(b) => b,
            None => false,
        };
        let ghost ps = strings_view(text@);
        let mut matched: Vec<String> = Vec::new();
        let mut i: usize = 0;
        while i < text.len()
            invariant
                i <= text@.len(),
                ps == strings_view(text@),
                regex == (is_regex == Some(true)),
                regex ==> forall|j: int| 0 <= j < i ==> self.compiles(#[trigger] ps[j]),
                strings_view(matched@) == self.found_patterns(body@, ps.take(i as int), regex),
            decreases text@.len() - i,
        {
            assert(ps[i as int] == text@[i as int]@);
            proof {
                assert(ps.take(i + 1).drop_last() =~= ps.take(i as int));
                assert(ps.take(i + 1).last() == ps[i as int]);
            }
            let pattern = text[i].clone();
            let hit = if regex {
                match regex_is_match(pattern.as_str(), self.multi_line, self.case_insensitive, self.unicode, self.octal, self.dot_matches_new_line, body.as_str()) {
                    Some(b) => b,
                    None => {
                        assert(!self.compiles(ps[i as int]));
                        return Err(CliErrors::RegexPatternError);
                    },
                }
            } else {
                str_contains(body.as_str(), pattern.as_str())
            };
            if hit {
                let ghost before = strings_view(matched@);
                matched.push(pattern);
                proof {
                    assert(strings_view(matched@) =~= before.push(ps[i as int]));
                }
            }
            i = i + 1;
        }
        assert(ps.take(i as int) =~= ps);
        Ok(matched)
    }
}

/// The patterns found are some of the patterns, in order; they are all of
/// them exactly when every pattern is found.  So `match_and_body` answers
/// true exactly when `match_once_body` returns every pattern.
pub proof fn law_all_found_iff_all_returned(m: ResponseMatcher, body: Seq<char>, patterns: Seq<Seq<char>>, regex: bool)
    ensures
        m.found_patterns(body, patterns, regex).len() <= patterns.len(),
        (m.found_patterns(body, patterns, regex) == patterns) <==> (forall|i: int| 0 <= i < patterns.len() ==> #[trigger] m.found(body, patterns[i], regex)),
    decreases patterns.len(),
{
    if patterns.len() == 0 {
        assert(m.found_patterns(body, patterns, regex) =~= patterns);
    } else {
        let init = patterns.drop_last();
        law_all_found_iff_all_returned(m, body, init, regex);
        let r = m.found_patterns(body, init, regex);
        if forall|i: int| 0 <= i < patterns.len() ==> #[trigger] m.found(body, patterns[i], regex) {
            assert forall|i: int| 0 <= i < init.len() implies #[trigger] m.found(body, init[i], regex) by {
                assert(init[i] == patterns[i]);
            }
            assert(m.found(body, patterns[patterns.len() - 1], regex));
            assert(r.push(patterns.last()) =~= patterns);
        } else {
            let w = choose|i: int| 0 <= i < patterns.len() && !#[trigger] m.found(body, patterns[i], regex);
            if m.found_patterns(body, patterns, regex) == patterns {
                if w == patterns.len() - 1 {
                    assert(m.found_patterns(body, patterns, regex) == r);
                    assert(r.len() < patterns.len());
                } else {
                    assert(!m.found(body, init[w], regex));
                    if m.found(body, patterns.last(), regex) {
                        assert(r.push(patterns.last()) == patterns);
                        assert(r =~= init) by {
                            assert(r == r.push(patterns.last()).drop_last());
                        }
                    } else {
                        assert(r.len() < patterns.len());
                    }
                }
            }
        }
    }
}

/// Whether `pattern` (a `fancy_regex` expression, with look-around and back
/// references) matches somewhere in `resp`.  An invalid pattern and a
/// failing match are distinct errors.
pub fn is_match(pattern: String, resp: String) -> (r: Result<bool, CliErrors>)
    ensures
        !fancy_regex_compiles(pattern@) ==> r == Err::<bool, CliErrors>(CliErrors::RegexPatternError),
        fancy_regex_compiles(pattern@) ==> match fancy_regex_is_match_of(pattern@, resp@) {
            Some(b) => r == Ok::<bool, CliErrors>(b),
            None => r == Err::<bool, CliErrors>(CliErrors::RegexError),
        },
{
    match fancy_regex_is_match(pattern.as_str(), resp.as_str()) {
        None => Err(CliErrors::RegexPatternError),
        Some(None) => Err(CliErrors::RegexError),
        Some(Some(b)) => Ok(b),
    }
}

} // verus!
