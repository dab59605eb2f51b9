//! Reading a block of `Name: value` header lines into name/value pairs, as
//! scripts do with `lotus.headers`: lines split as `str::lines` does, each
//! line split at its first colon, both sides trimmed of white space, a later
//! header replacing an earlier one of the same name.

use vstd::prelude::*;
use crate::text::{str_chars, string_from_chars};
use crate::url_message::{assoc_insert, pairs_view, assoc_insert_exec};

verus! {

/// The characters that `char::is_whitespace` accepts (Unicode White_Space).
pub open spec fn is_white_space(c: char) -> bool {
    ('\t' <= c && c <= '\r') || c == ' ' || c == '\u{85}' || c == '\u{a0}' || c == '\u{1680}'
        || ('\u{2000}' <= c && c <= '\u{200a}') || c == '\u{2028}' || c == '\u{2029}'
        || c == '\u{202f}' || c == '\u{205f}' || c == '\u{3000}'
}

fn white_space(c: char) -> (b: bool)
    ensures
        b == is_white_space(c),
{
    ('\t' <= c && c <= '\r') || c == ' ' || c == '\u{85}' || c == '\u{a0}' || c == '\u{1680}'
        || ('\u{2000}' <= c && c <= '\u{200a}') || c == '\u{2028}' || c == '\u{2029}'
        || c == '\u{202f}' || c == '\u{205f}' || c == '\u{3000}'
}

pub open spec fn trim_start(s: Seq<char>) -> Seq<char>
    decreases s.len(),
{
    if s.len() > 0 && is_white_space(s[0]) { trim_start(s.drop_first()) } else { s }
}

pub open spec fn trim_end(s: Seq<char>) -> Seq<char>
    decreases s.len(),
{
    if s.len() > 0 && is_white_space(s.last()) { trim_end(s.drop_last()) } else { s }
}

/// `s` without leading and trailing white space (`str::trim`).
pub open spec fn trim(s: Seq<char>) -> Seq<char> {
    trim_end(trim_start(s))
}

/// `s` without leading and trailing white space.
pub fn trim_chars(s: &Vec<char>) -> (r: Vec<char>)
    ensures
        r@ == trim(s@),
{
    let n = s.len();
    let mut a: usize = 0;
    assert(s@.subrange(0, n as int) =~= s@);
    while a < n && white_space(s[a])
        invariant
            a <= n,
            n == s@.len(),
            trim_start(s@) == trim_start(s@.subrange(a as int, n as int)),
        decreases n - a,
    {
        assert(s@.subrange(a as int, n as int).drop_first() =~= s@.subrange(a + 1, n as int));
        a = a + 1;
    }
    let ghost t = s@.subrange(a as int, n as int);
    assert(trim_start(s@) == t);
    let mut b: usize = n;
    while b > a && white_space(s[b - 1])
        invariant
            a <= b <= n,
            n == s@.len(),
            t == s@.subrange(a as int, n as int),
            trim_end(t) == trim_end(s@.subrange(a as int, b as int)),
        decreases b - a,
    {
        assert(s@.subrange(a as int, b as int).drop_last() =~= s@.subrange(a as int, b - 1));
        b = b - 1;
    }
    let part = vstd::slice::slice_subrange(s.as_slice(), a, b);
    vstd::slice::slice_to_vec(part)
}

/// The line without the `\r` of a `\r\n` ending.
pub open spec fn strip_cr(l: Seq<char>) -> Seq<char> {
    if l.len() > 0 && l.last() == '\r' { l.drop_last() } else { l }
}

/// The lines completed by the line feeds of `s`, and the text after the last one.
pub open spec fn lines_acc(s: Seq<char>) -> (Seq<Seq<char>>, Seq<char>)
    decreases s.len(),
{
    if s.len() == 0 {
        (Seq::empty(), Seq::empty())
    } else {
        let (done, cur) = lines_acc(s.drop_last());
        if s.last() == '\n' { (done.push(strip_cr(cur)), Seq::empty()) } else { (done, cur.push(s.last())) }
    }
}

/// The lines of `s` as `str::lines` yields them.
pub open spec fn lines_of(s: Seq<char>) -> Seq<Seq<char>> {
    let (done, cur) = lines_acc(s);
    if cur.len() > 0 { done.push(cur) } else { done }
}

pub open spec fn is_first_colon(l: Seq<char>, i: int) -> bool {
    0 <= i < l.len() && l[i] == ':' && forall|j: int| 0 <= j < i ==> #[trigger] l[j] != ':'
}

/// The parts of `l` before and after its first colon (`str::split_once(':')`).
pub open spec fn split_colon(l: Seq<char>) -> Option<(Seq<char>, Seq<char>)> {
    if exists|i: int| is_first_colon(l, i) {
        let i = choose|i: int| is_first_colon(l, i);
        Some((l.subrange(0, i), l.subrange(i + 1, l.len() as int)))
    } else {
        None
    }
}

/// The headers after reading one more line.
pub open spec fn header_step(acc: Seq<(Seq<char>, Seq<char>)>, line: Seq<char>) -> Seq<(Seq<char>, Seq<char>)> {
    match split_colon(line) {
        Some((n, v)) => assoc_insert(acc, trim(n), trim(v)),
        None => acc,
    }
}

pub open spec fn headers_from_lines(ls: Seq<Seq<char>>) -> Seq<(Seq<char>, Seq<char>)>
    decreases ls.len(),
{
    if ls.len() == 0 {
        Seq::empty()
    } else {
        header_step(headers_from_lines(ls.drop_last()), ls.last())
    }
}

/// The headers of a block of header lines.
pub open spec fn spec_parse_headers(text: Seq<char>) -> Seq<(Seq<char>, Seq<char>)> {
    headers_from_lines(lines_of(text))
}

fn first_colon(l: &Vec<char>) -> (r: Option<usize>)
    ensures
        match r {
            Some(i) => is_first_colon(l@, i as int),
            None => forall|i: int| !is_first_colon(l@, i),
        },
{
    let mut i: usize = 0;
    while i < l.len()
        invariant
            i <= l@.len(),
            forall|j: int| 0 <= j < i ==> #[trigger] l@[j] != ':',
        decreases l@.len() - i,
    {
        if l[i] == ':' {
            return Some(i);
        }
        i = i + 1;
    }
    assert forall|k: int| !is_first_colon(l@, k) by {
        if is_first_colon(l@, k) {
            assert(l@[k] != ':');
        }
    }
    None
}

proof fn lemma_first_colon_unique(l: Seq<char>, i: int)
    requires
        is_first_colon(l, i),
    ensures
        split_colon(l) == Some((l.subrange(0, i), l.subrange(i + 1, l.len() as int))),
{
    let c = choose|k: int| is_first_colon(l, k);
    assert(is_first_colon(l, c));
    if c < i {
        assert(l[c] != ':');
    } else if c > i {
        assert(l[i] != ':');
    }
}

/// Reads one header line into `acc`.
fn read_header_line(acc: &mut Vec<(String, String)>, line: &Vec<char>)
    ensures
        pairs_view(final(acc)@) == header_step(pairs_view(old(acc)@), line@),
{
    match first_colon(line) {
        None => {},
        Some(i) => {
            proof {
                lemma_first_colon_unique(line@, i as int);
            }
            let len = line.len();
            assert(i < len);
            let name = vstd::slice::slice_to_vec(vstd::slice::slice_subrange(line.as_slice(), 0, i));
            let value = vstd::slice::slice_to_vec(vstd::slice::slice_subrange(line.as_slice(), i + 1, len));
            let n = trim_chars(&name);
            let v = trim_chars(&value);
            assoc_insert_exec(acc, string_from_chars(n.as_slice()), string_from_chars(v.as_slice()));
        },
    }
}

/// The headers written in `text`, one `Name: value` per line; lines without
/// a colon are skipped.
pub fn parse_headers(text: &str) -> (r: Vec<(String, String)>)
    ensures
        pairs_view(r@) == spec_parse_headers(text@),
{
    let chars = str_chars(text);
    let mut acc: Vec<(String, String)> = Vec::new();
    let mut cur: Vec<char> = Vec::new();
    let mut i: usize = 0;
    while i < chars.len()
        invariant
            i <= chars@.len(),
            pairs_view(acc@) == headers_from_lines(lines_acc(chars@.take(i as int)).0),
            cur@ == lines_acc(chars@.take(i as int)).1,
        decreases chars@.len() - i,
    {
        proof {
            assert(chars@.take(i + 1).drop_last() =~= chars@.take(i as int));
            assert(chars@.take(i + 1).last() == chars@[i as int]);
        }
        let c = chars[i];
        if c == '\n' {
            let line = if cur.len() > 0 && cur[cur.len() - 1] == '\r' {
                vstd::slice::slice_to_vec(vstd::slice::slice_subrange(cur.as_slice(), 0, cur.len() - 1))
            } else {
                vstd::slice::slice_to_vec(cur.as_slice())
            };
            proof {
                let done = lines_acc(chars@.take(i as int)).0;
                assert(line@ == strip_cr(cur@)) by {
                    if cur@.len() > 0 && cur@.last() == '\r' {
                        assert(cur@.subrange(0, cur@.len() - 1) =~= cur@.drop_last());
                    }
                }
                assert(done.push(strip_cr(cur@)).drop_last() =~= done);
            }
            read_header_line(&mut acc, &line);
            cur = Vec::new();
        } else {
            cur.push(c);
        }
        i = i + 1;
    }
    assert(chars@.take(i as int) =~= chars@);
    if cur.len() > 0 {
        proof {
            let done = lines_acc(chars@).0;
            assert(done.push(cur@).drop_last() =~= done);
        }
        read_header_line(&mut acc, &cur);
    }
    acc
}

} // verus!
