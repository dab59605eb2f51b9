//! Command line options: the timeout and proxy validators and the
//! recognition of `--timeout`, `--proxy` and `--output` in an argument list.

use vstd::prelude::*;
use crate::regex_ext::{regex_compiles, regex_is_match, regex_is_match_of};
use crate::text::{
    seq_starts_with, spec_parse_u64, str_chars, string_from_chars, parse_u64, chars_equal, decimal,
};

verus! {

/// A `Result` of strings seen as character sequences.
pub open spec fn result_view(r: Result<String, String>) -> Result<Seq<char>, Seq<char>> {
    match r {
        Ok(s) => Ok(s@),
        Err(e) => Err(e@),
    }
}

pub open spec fn timeout_error_text() -> Seq<char> {
    "Invalid timeout value. Must be a positive integer."@
}

/// Parses the timeout option: a number of seconds in `u64` decimal notation.
pub fn parse_timeout(s: &str) -> (r: Result<u64, String>)
    ensures
        match spec_parse_u64(s@) {
            Some(n) => r == Ok::<u64, String>(n),
            None => r matches Err(e) && e@ == timeout_error_text(),
        },
{
    match parse_u64(s) {
        Some(n) => Ok(n),
        None => Err("Invalid timeout value. Must be a positive integer.".to_string()),
    }
}

/// The pattern that a proxy address must match.
pub open spec fn proxy_pattern() -> Seq<char> {
    "^(http|https)://"@
}

/// What matching the proxy pattern against `s` with the default regex
/// options gives: `None` when the pattern does not compile.
pub open spec fn proxy_match(s: Seq<char>) -> Option<bool> {
    if regex_compiles(proxy_pattern(), false, false, true, false, false) {
        Some(regex_is_match_of(proxy_pattern(), false, false, true, false, false, s))
    } else {
        None
    }
}

/// The outcome of validating proxy `s` once the pattern match is known.
pub open spec fn proxy_outcome(s: Seq<char>, matched: Option<bool>) -> Result<Seq<char>, Seq<char>> {
    match matched {
        None => Err("Regex compilation failed."@),
        Some(true) => Ok(s),
        Some(false) => Err("Invalid proxy URL. Must start with http:// or https://"@),
    }
}

/// Decides the proxy option from the result of matching it against the
/// scheme pattern.
pub fn proxy_from_match(s: &str, matched: Option<bool>) -> (r: Result<String, String>)
    ensures
        result_view(r) == proxy_outcome(s@, matched),
{
    match matched {
        None => Err("Regex compilation failed.".to_string()),
        Some(true) => Ok(s.to_string()),
        Some(false) => Err("Invalid proxy URL. Must start with http:// or https://".to_string()),
    }
}

/// Validates a proxy address: it must start with `http://` or `https://`,
/// as checked by the regex `^(http|https)://`.
pub fn parse_proxy(s: &str) -> (r: Result<String, String>)
    ensures
        result_view(r) == proxy_outcome(s@, proxy_match(s@)),
{
    let matched = regex_is_match("^(http|https)://", false, false, true, false, false, s);
    proxy_from_match(s, matched)
}

/// The options of the command line.
pub struct Cli {
    pub timeout: u64,
    pub proxy: Option<String>,
    pub output: String,
}

pub open spec fn timeout_zero_text() -> Seq<char> {
    "Timeout must be greater than zero."@
}

impl Cli {
    /// Refuses a zero timeout.
    pub fn validate(&self) -> (r: Result<(), String>)
        ensures
            self.timeout == 0 <==> r is Err,
            r matches Err(e) ==> e@ == timeout_zero_text(),
    {
        if self.timeout == 0 {
            return Err("Timeout must be greater than zero.".to_string());
        }
        Ok(())
    }
}

/// The raw values of the three options: timeout, proxy, output.
pub type RawOptions = (Option<Seq<char>>, Option<Seq<char>>, Option<Seq<char>>);

/// The option slot (0 timeout, 1 proxy, 2 output) named by a flag that takes
/// its value from the next argument.
pub open spec fn flag_slot(t: Seq<char>) -> Option<int> {
    if t == "--timeout"@ || t == "-t"@ {
        Some(0)
    } else if t == "--proxy"@ || t == "-p"@ {
        Some(1)
    } else if t == "--output"@ || t == "-o"@ {
        Some(2)
    } else {
        None
    }
}

/// The option slot and value of an argument of the form `--name=value`.
pub open spec fn assign_slot(t: Seq<char>) -> Option<(int, Seq<char>)> {
    if seq_starts_with(t, "--timeout="@) {
        Some((0, t.subrange("--timeout="@.len() as int, t.len() as int)))
    } else if seq_starts_with(t, "--proxy="@) {
        Some((1, t.subrange("--proxy="@.len() as int, t.len() as int)))
    } else if seq_starts_with(t, "--output="@) {
        Some((2, t.subrange("--output="@.len() as int, t.len() as int)))
    } else {
        short_assign_slot(t)
    }
}

/// The option slot and value of a short option with its value attached:
/// `-t=value` or `-tvalue` (likewise `-p`, `-o`), the value not empty.
pub open spec fn short_assign_slot(t: Seq<char>) -> Option<(int, Seq<char>)> {
    if t.len() > 2 && t[0] == '-' && (t[1] == 't' || t[1] == 'p' || t[1] == 'o') {
        let k: int = if t[1] == 't' { 0 } else if t[1] == 'p' { 1 } else { 2 };
        if t[2] == '=' {
            if t.len() > 3 { Some((k, t.subrange(3, t.len() as int))) } else { None }
        } else {
            Some((k, t.subrange(2, t.len() as int)))
        }
    } else {
        None
    }
}

pub open spec fn slot_of(st: RawOptions, k: int) -> Option<Seq<char>> {
    if k == 0 { st.0 } else if k == 1 { st.1 } else { st.2 }
}

pub open spec fn set_slot(st: RawOptions, k: int, v: Seq<char>) -> RawOptions {
    if k == 0 { (Some(v), st.1, st.2) } else if k == 1 { (st.0, Some(v), st.2) } else { (st.0, st.1, Some(v)) }
}

/// A separate option value may not look like a flag.
pub open spec fn looks_like_flag(t: Seq<char>) -> bool {
    t.len() > 0 && t[0] == '-'
}

/// Reads the arguments from position `i` on, filling the option slots.
/// Any argument that is not one of the options, a flag without a value
/// and an option given twice are refused.
pub open spec fn scan_options(args: Seq<Seq<char>>, i: int, st: RawOptions) -> Option<RawOptions>
    decreases args.len() - i,
{
    if i < 0 || i >= args.len() {
        Some(st)
    } else {
        let t = args[i];
        match flag_slot(t) {
            Some(k) => {
                if i + 1 < args.len() && !looks_like_flag(args[i + 1]) && slot_of(st, k) is None {
                    scan_options(args, i + 2, set_slot(st, k, args[i + 1]))
                } else {
                    None
                }
            },
            None => match assign_slot(t) {
                Some((k, v)) => {
                    if slot_of(st, k) is None {
                        scan_options(args, i + 1, set_slot(st, k, v))
                    } else {
                        None
                    }
                },
                None => None,
            },
        }
    }
}

pub open spec fn usage_error_text() -> Seq<char> {
    "Invalid arguments: expected --timeout <seconds>, --proxy <url> and --output <path>."@
}

pub open spec fn missing_output_text() -> Seq<char> {
    "The argument --output <path> is required."@
}

/// The options read from a full argument list (the first argument is the
/// program name): the timeout (default 30), the validated proxy and the
/// output path; or the message of the first error.
pub open spec fn spec_cli_parse(args: Seq<Seq<char>>) -> Result<(u64, Option<Seq<char>>, Seq<char>), Seq<char>> {
    match scan_options(args, 1, (None, None, None)) {
        None => Err(usage_error_text()),
        Some(st) => {
            let ts = match st.0 {
                Some(t) => t,
                None => "30"@,
            };
            match spec_parse_u64(ts) {
                None => Err(timeout_error_text()),
                Some(n) => {
                    let proxy: Result<Option<Seq<char>>, Seq<char>> = match st.1 {
                        None => Ok(None),
                        Some(p) => match proxy_outcome(p, proxy_match(p)) {
                            Ok(v) => Ok(Some(v)),
                            Err(e) => Err(e),
                        },
                    };
                    match proxy {
                        Err(e) => Err(e),
                        Ok(pv) => match st.2 {
                            None => Err(missing_output_text()),
                            Some(o) => Ok((n, pv, o)),
                        },
                    }
                },
            }
        },
    }
}

pub open spec fn args_view(args: Seq<&str>) -> Seq<Seq<char>> {
    args.map_values(|a: &str| a@)
}

pub open spec fn opt_view(o: Option<String>) -> Option<Seq<char>> {
    match o {
        Some(s) => Some(s@),
        None => None,
    }
}

/// The slot named by a flag argument.
fn exec_flag_slot(t: &Vec<char>) -> (r: Option<u8>)
    ensures
        match flag_slot(t@) {
            Some(k) => r == Some(k as u8),
            None => r is None,
        },
{
    if chars_equal(t, &str_chars("--timeout")) || chars_equal(t, &str_chars("-t")) {
        Some(0)
    } else if chars_equal(t, &str_chars("--proxy")) || chars_equal(t, &str_chars("-p")) {
        Some(1)
    } else if chars_equal(t, &str_chars("--output")) || chars_equal(t, &str_chars("-o")) {
        Some(2)
    } else {
        None
    }
}

/// The rest of `t` after `prefix`, when `t` starts with it.
fn strip_prefix_chars(t: &Vec<char>, prefix: &str) -> (r: Option<String>)
    ensures
        seq_starts_with(t@, prefix@) <==> r is Some,
        r matches Some(s) ==> s@ == t@.subrange(prefix@.len() as int, t@.len() as int),
{
    let p = str_chars(prefix);
    if p.len() > t.len() {
        return None;
    }
    let head = vstd::slice::slice_subrange(t.as_slice(), 0, p.len());
    let hv = vstd::slice::slice_to_vec(head);
    if !chars_equal(&hv, &p) {
        return None;
    }
    let rest = vstd::slice::slice_subrange(t.as_slice(), p.len(), t.len());
    Some(string_from_chars(rest))
}

fn exec_assign_slot(t: &Vec<char>) -> (r: Option<(u8, String)>)
    ensures
        match assign_slot(t@) {
            Some((k, v)) => r matches Some((k2, v2)) && k2 == k && v2@ == v,
            None => r is None,
        },
{
    if let Some(v) = strip_prefix_chars(t, "--timeout=") {
        return Some((0, v));
    }
    if let Some(v) = strip_prefix_chars(t, "--proxy=") {
        return Some((1, v));
    }
    if let Some(v) = strip_prefix_chars(t, "--output=") {
        return Some((2, v));
    }
    exec_short_assign_slot(t)
}

fn exec_short_assign_slot(t: &Vec<char>) -> (r: Option<(u8, String)>)
    ensures
        match short_assign_slot(t@) {
            Some((k, v)) => r matches Some((k2, v2)) && k2 == k && v2@ == v,
            None => r is None,
        },
{
    if t.len() > 2 && t[0] == '-' && (t[1] == 't' || t[1] == 'p' || t[1] == 'o') {
        let k: u8 = if t[1] == 't' { 0 } else if t[1] == 'p' { 1 } else { 2 };
        if t[2] == '=' {
            if t.len() > 3 {
                let rest = vstd::slice::slice_subrange(t.as_slice(), 3, t.len());
                Some((k, string_from_chars(rest)))
            } else {
                None
            }
        } else {
            let rest = vstd::slice::slice_subrange(t.as_slice(), 2, t.len());
            Some((k, string_from_chars(rest)))
        }
    } else {
        None
    }
}

impl Cli {
    /// Reads the options from an argument list whose first element is the
    /// program name.  Accepted forms: `--timeout <s>`, `-t <s>`,
    /// `--timeout=<s>`, `-t=<s>`, `-t<s>`, and likewise for `--proxy`/`-p`
    /// and `--output`/`-o`.
    pub fn from_iter_safe(args: &Vec<&str>) -> (r: Result<Cli, String>)
        ensures
            match spec_cli_parse(args_view(args@)) {
                Ok((t, p, o)) => r matches Ok(c) && c.timeout == t && opt_view(c.proxy) == p && c.output@ == o,
                Err(e) => r matches Err(m) && m@ == e,
            },
    {
        let ghost av = args_view(args@);
        let mut timeout: Option<String> = None;
        let mut proxy: Option<String> = None;
        let mut output: Option<String> = None;
        let mut i: usize = 1;
        let n = args.len();
        while i < n
            invariant
                n == args@.len(),
                av == args_view(args@),
                av.len() == n,
                1 <= i,
                scan_options(av, 1, (None, None, None)) == scan_options(av, i as int, (opt_view(timeout), opt_view(proxy), opt_view(output))),
            decreases n - i,
        {
            let t = str_chars(args[i]);
            assert(t@ == av[i as int]);
            let ghost st = (opt_view(timeout), opt_view(proxy), opt_view(output));
            match exec_flag_slot(&t) {
                Some(k) => {
                    if i + 1 >= n {
                        return Err("Invalid arguments: expected --timeout <seconds>, --proxy <url> and --output <path>.".to_string());
                    }
                    let next = str_chars(args[i + 1]);
                    assert(next@ == av[i + 1]);
                    if next.len() > 0 && next[0] == '-' {
                        return Err("Invalid arguments: expected --timeout <seconds>, --proxy <url> and --output <path>.".to_string());
                    }
                    let taken = if k == 0 { timeout.is_some() } else if k == 1 { proxy.is_some() } else { output.is_some() };
                    if taken {
                        return Err("Invalid arguments: expected --timeout <seconds>, --proxy <url> and --output <path>.".to_string());
                    }
                    let v = args[i + 1].to_string();
                    if k == 0 {
                        timeout = Some(v);
                    } else if k == 1 {
                        proxy = Some(v);
                    } else {
                        output = Some(v);
                    }
                    i = i + 2;
                },
                None => {
                    match exec_assign_slot(&t) {
                        Some((k, v)) => {
                            let taken = if k == 0 { timeout.is_some() } else if k == 1 { proxy.is_some() } else { output.is_some() };
                            if taken {
                                return Err("Invalid arguments: expected --timeout <seconds>, --proxy <url> and --output <path>.".to_string());
                            }
                            if k == 0 {
                                timeout = Some(v);
                            } else if k == 1 {
                                proxy = Some(v);
                            } else {
                                output = Some(v);
                            }
                            i = i + 1;
                        },
                        None => {
                            return Err("Invalid arguments: expected --timeout <seconds>, --proxy <url> and --output <path>.".to_string());
                        },
                    }
                },
            }
        }
        let timeout_text = match &timeout {
            Some(t) => t.clone(),
            None => "30".to_string(),
        };
        let t = match parse_timeout(timeout_text.as_str()) {
            Ok(t) => t,
            Err(e) => {
                return Err(e);
            },
        };
        let p = match &proxy {
            None => None,
            Some(ps) => match parse_proxy(ps.as_str()) {
                Ok(v) => Some(v),
                Err(e) => {
                    return Err(e);
                },
            },
        };
        match output {
            None => Err("The argument --output <path> is required.".to_string()),
            Some(o) => Ok(Cli { timeout: t, proxy: p, output: o }),
        }
    }
}

/// A timeout given in the long form with `=` is read as the number after
/// the `=`: for every `n`, the arguments `prog --timeout=<n> --output <o>`
/// (`o` not starting with `-`) give timeout `n`, no proxy and output `o`,
/// and so do `prog --timeout=<n> --output=<o>` for every `o`.
pub proof fn law_cli_timeout_long_assign(prog: Seq<char>, n: u64, o: Seq<char>)
    ensures
        !looks_like_flag(o) ==> spec_cli_parse(seq![prog, "--timeout="@ + decimal(n as nat), "--output"@, o])
            == Ok::<(u64, Option<Seq<char>>, Seq<char>), Seq<char>>((n, None, o)),
        spec_cli_parse(seq![prog, "--timeout="@ + decimal(n as nat), "--output="@ + o])
            == Ok::<(u64, Option<Seq<char>>, Seq<char>), Seq<char>>((n, None, o)),
{
    reveal_strlit("--timeout=");
    reveal_strlit("--timeout");
    reveal_strlit("-t");
    reveal_strlit("--proxy");
    reveal_strlit("-p");
    reveal_strlit("--output");
    reveal_strlit("-o");
    reveal_strlit("--output=");
    reveal_strlit("--proxy=");
    crate::text::lemma_decimal_digits(n as nat);
    crate::text::lemma_parse_decimal(n);
    let d = decimal(n as nat);
    let t = "--timeout="@ + d;
    assert(t.len() >= 11);
    assert(t.subrange(0, 10) =~= "--timeout="@);
    assert(t.subrange(10, t.len() as int) =~= d);
    assert(flag_slot(t) is None);
    assert(assign_slot(t) == Some((0int, d)));
    let a1 = seq![prog, t, "--output"@, o];
    let st1 = set_slot((None, None, None), 0, d);
    assert(scan_options(a1, 4, set_slot(st1, 2, o)) == Some(set_slot(st1, 2, o)));
    assert(flag_slot("--output"@) == Some(2int));
    if !looks_like_flag(o) {
        assert(scan_options(a1, 2, st1) == scan_options(a1, 4, set_slot(st1, 2, o)));
        assert(scan_options(a1, 1, (None, None, None)) == scan_options(a1, 2, st1));
    }
    let w = "--output="@ + o;
    assert(w.subrange(0, 9) =~= "--output="@);
    assert(w.subrange(9, w.len() as int) =~= o);
    assert(!seq_starts_with(w, "--timeout="@)) by {
        if seq_starts_with(w, "--timeout="@) {
            assert(w[2] == "--timeout="@[2]);
        }
    }
    assert(!seq_starts_with(w, "--proxy="@)) by {
        if seq_starts_with(w, "--proxy="@) {
            assert(w[2] == "--proxy="@[2]);
        }
    }
    assert(flag_slot(w) is None) by {
        if w == "--timeout"@ || w == "--proxy"@ {
            assert(w[2] == 'o');
        }
    }
    assert(assign_slot(w) == Some((2int, o)));
    let a2 = seq![prog, t, w];
    assert(scan_options(a2, 3, set_slot(st1, 2, o)) == Some(set_slot(st1, 2, o)));
    assert(scan_options(a2, 2, st1) == scan_options(a2, 3, set_slot(st1, 2, o)));
    assert(scan_options(a2, 1, (None, None, None)) == scan_options(a2, 2, st1));
}

} // verus!
