//! The URL of a scanned message and the rewriting of its query string:
//! injecting a payload into every parameter, into one parameter, and
//! joining a path below the URL.  Parsing and serialising URLs is done by
//! the `url` crate behind the trusted wrappers at the top of this file.

use vstd::prelude::*;
use vstd::string::*;
use crate::text::{seq_ends_with, str_chars, string_from_chars, str_ends_with};

verus! {

/// Whether `url::Url::parse` accepts `text`.
pub uninterp spec fn url_parses(text: Seq<char>) -> bool;

/// The decoded pairs that `Url::query_pairs` yields for the parsed `text`, in order.
pub uninterp spec fn url_query_pairs_of(text: Seq<char>) -> Seq<(Seq<char>, Seq<char>)>;

/// The serialization of the parsed `text` after `Url::set_query(None)`.
pub uninterp spec fn url_without_query_of(text: Seq<char>) -> Seq<char>;

/// The serialization of the parsed `text` after `Url::set_query(None)` and
/// appending `pairs` in order with `Url::query_pairs_mut`.
pub uninterp spec fn url_with_query_pairs_of(text: Seq<char>, pairs: Seq<(Seq<char>, Seq<char>)>) -> Seq<char>;

/// What `Url::path` returns for the parsed `text`.
pub uninterp spec fn url_path_of(text: Seq<char>) -> Seq<char>;

/// The serialization of the parsed `text` after `Url::set_path(path)`.
pub uninterp spec fn url_with_path_of(text: Seq<char>, path: Seq<char>) -> Seq<char>;

/// The serialization of `Url::join(rel)` on the parsed `base`; `None` when
/// `base` does not parse or the join fails.
pub uninterp spec fn url_join_of(base: Seq<char>, rel: Seq<char>) -> Option<Seq<char>>;

/// The serialization of the parsed `text` (`Url::as_str`).
pub uninterp spec fn url_serialization_of(text: Seq<char>) -> Seq<char>;

/// What `Url::query` returns for the parsed `text`.
pub uninterp spec fn url_query_of(text: Seq<char>) -> Option<Seq<char>>;

/// Pairs of strings seen as pairs of character sequences.
pub open spec fn pairs_view(v: Seq<(String, String)>) -> Seq<(Seq<char>, Seq<char>)> {
    v.map_values(|p: (String, String)| (p.0@, p.1@))
}

pub open spec fn option_view(o: Option<String>) -> Option<Seq<char>> {
    match o {
        Some(s) => Some(s@),
        None => None,
    }
}

/// Parses `text` with `Url::parse` and collects `Url::query_pairs`.
#[verifier::external_body]
fn url_query_pairs(text: &str) -> (r: Option<Vec<(String, String)>>)
    ensures
        r is Some <==> url_parses(text@),
        r matches Some(v) ==> pairs_view(v@) == url_query_pairs_of(text@),
{
    match url::Url::parse(text) {
        Ok(u) => Some(u.query_pairs().map(|(k, v)| (k.into_owned(), v.into_owned())).collect()),
        Err(_) => None,
    }
}

/// Parses `text`, removes its query with `Url::set_query(None)` and serialises it.
#[verifier::external_body]
fn url_without_query(text: &str) -> (r: Option<String>)
    ensures
        r is Some <==> url_parses(text@),
        r matches Some(s) ==> s@ == url_without_query_of(text@),
{
    match url::Url::parse(text) {
        Ok(mut u) => {
            u.set_query(None);
            Some(u.as_str().to_string())
        },
        Err(_) => None,
    }
}

/// Parses `text`, removes its query, appends `pairs` in order through
/// `Url::query_pairs_mut` and serialises the result.
#[verifier::external_body]
fn url_with_query_pairs(text: &str, pairs: &Vec<(String, String)>) -> (r: Option<String>)
    ensures
        r is Some <==> url_parses(text@),
        r matches Some(s) ==> s@ == url_with_query_pairs_of(text@, pairs_view(pairs@)),
{
    match url::Url::parse(text) {
        Ok(mut u) => {
            u.set_query(None);
            u.query_pairs_mut().extend_pairs(pairs.iter());
            Some(u.as_str().to_string())
        },
        Err(_) => None,
    }
}

/// Parses `text` and returns `Url::path`.
#[verifier::external_body]
fn url_path(text: &str) -> (r: Option<String>)
    ensures
        r is Some <==> url_parses(text@),
        r matches Some(s) ==> s@ == url_path_of(text@),
{
    match url::Url::parse(text) {
        Ok(u) => Some(u.path().to_string()),
        Err(_) => None,
    }
}

/// Parses `text`, replaces its path with `Url::set_path` and serialises it.
#[verifier::external_body]
fn url_with_path(text: &str, path: &str) -> (r: Option<String>)
    ensures
        r is Some <==> url_parses(text@),
        r matches Some(s) ==> s@ == url_with_path_of(text@, path@),
{
    match url::Url::parse(text) {
        Ok(mut u) => {
            u.set_path(path);
            Some(u.as_str().to_string())
        },
        Err(_) => None,
    }
}

/// Parses `base` and resolves `rel` against it with `Url::join`.
#[verifier::external_body]
fn url_join(base: &str, rel: &str) -> (r: Option<String>)
    ensures
        option_view(r) == url_join_of(base@, rel@),
{
    match url::Url::parse(base) {
        Ok(u) => match u.join(rel) {
            Ok(j) => Some(j.as_str().to_string()),
            Err(_) => None,
        },
        Err(_) => None,
    }
}

/// Parses `text` and returns its serialization.
#[verifier::external_body]
fn url_serialization(text: &str) -> (r: Option<String>)
    ensures
        r is Some <==> url_parses(text@),
        r matches Some(s) ==> s@ == url_serialization_of(text@),
{
    match url::Url::parse(text) {
        Ok(u) => Some(u.as_str().to_string()),
        Err(_) => None,
    }
}

/// Parses `text` and returns `Url::query`; the outer `None` when it does not parse.
#[verifier::external_body]
fn url_query(text: &str) -> (r: Option<Option<String>>)
    ensures
        r is Some <==> url_parses(text@),
        r matches Some(q) ==> option_view(q) == url_query_of(text@),
{
    match url::Url::parse(text) {
        Ok(u) => Some(u.query().map(|q| q.to_string())),
        Err(_) => None,
    }
}

// ---------------------------------------------------------------------
// Query parameters as an association list: what inserting the query pairs
// one after the other into a map keeps (the last value of each name).

pub open spec fn has_key(m: Seq<(Seq<char>, Seq<char>)>, k: Seq<char>) -> bool {
    exists|i: int| 0 <= i < m.len() && #[trigger] m[i].0 == k
}

pub open spec fn is_first_key_index(m: Seq<(Seq<char>, Seq<char>)>, k: Seq<char>, i: int) -> bool {
    0 <= i < m.len() && m[i].0 == k && forall|j: int| 0 <= j < i ==> #[trigger] m[j].0 != k
}

/// The position of the first entry named `k` (meaningful when `has_key(m, k)`).
pub open spec fn first_key_index(m: Seq<(Seq<char>, Seq<char>)>, k: Seq<char>) -> int {
    choose|i: int| is_first_key_index(m, k, i)
}

/// Sets the value of `k`: in place when `k` is present, else as a new last entry.
pub open spec fn assoc_insert(m: Seq<(Seq<char>, Seq<char>)>, k: Seq<char>, v: Seq<char>) -> Seq<(Seq<char>, Seq<char>)> {
    if has_key(m, k) {
        m.update(first_key_index(m, k), (k, v))
    } else {
        m.push((k, v))
    }
}

/// The parameters after inserting every pair in order.
pub open spec fn assoc_from(pairs: Seq<(Seq<char>, Seq<char>)>) -> Seq<(Seq<char>, Seq<char>)>
    decreases pairs.len(),
{
    if pairs.len() == 0 {
        Seq::empty()
    } else {
        assoc_insert(assoc_from(pairs.drop_last()), pairs.last().0, pairs.last().1)
    }
}

/// The entries of `m` not named `k`, in order.
pub open spec fn without_key(m: Seq<(Seq<char>, Seq<char>)>, k: Seq<char>) -> Seq<(Seq<char>, Seq<char>)>
    decreases m.len(),
{
    if m.len() == 0 {
        m
    } else {
        let r = without_key(m.drop_last(), k);
        if m.last().0 == k { r } else { r.push(m.last()) }
    }
}

/// The text after the last line break (the whole text when there is none):
/// the last piece of `split('\n')`.
pub open spec fn last_line(s: Seq<char>) -> Seq<char>
    decreases s.len(),
{
    if s.len() == 0 {
        s
    } else if s.last() == '\n' {
        Seq::empty()
    } else {
        last_line(s.drop_last()).push(s.last())
    }
}

/// The URL with exactly the given query pairs (no query at all when empty).
pub open spec fn with_query(url: Seq<char>, pairs: Seq<(Seq<char>, Seq<char>)>) -> Seq<char> {
    if pairs.len() == 0 {
        url_without_query_of(url)
    } else {
        url_with_query_pairs_of(url, pairs)
    }
}

/// The value injected into a parameter: the payload alone, or appended to
/// the current value.
pub open spec fn injected(value: Seq<char>, payload: Seq<char>, remove_content: bool) -> Seq<char> {
    if remove_content { payload } else { value + payload }
}

/// For each parameter of the URL, in order, the URL whose query holds that
/// parameter alone, carrying the injected value of the last payload line.
pub open spec fn spec_change_urlquery(url: Seq<char>, payload: Seq<char>, remove_content: bool) -> Seq<(Seq<char>, Seq<char>)> {
    if !url_parses(url) {
        Seq::empty()
    } else {
        let m = assoc_from(url_query_pairs_of(url));
        Seq::new(
            m.len(),
            |i: int| (m[i].0, url_with_query_pairs_of(url, seq![(m[i].0, injected(m[i].1, last_line(payload), remove_content))])),
        )
    }
}

/// The URL with `payload` appended to the value of `param`; that parameter
/// moves after the others, which keep their order.
pub open spec fn spec_set_urlvalue(url: Seq<char>, param: Seq<char>, payload: Seq<char>) -> Seq<char> {
    if !url_parses(url) {
        url
    } else {
        let m = assoc_from(url_query_pairs_of(url));
        let rest = without_key(m, param);
        if has_key(m, param) {
            with_query(url, rest.push((param, m[first_key_index(m, param)].1 + payload)))
        } else {
            with_query(url, rest)
        }
    }
}

/// The URL below which a relative path is joined: the URL itself when its
/// path ends with `/`, else the URL with `/` added to its path.
pub open spec fn join_base(url: Seq<char>) -> Option<Seq<char>> {
    if !url_parses(url) {
        None
    } else if seq_ends_with(url_path_of(url), "/"@) {
        Some(url)
    } else {
        Some(url_with_path_of(url, url_path_of(url) + "/"@))
    }
}

/// The URL of `path` resolved below `url`.
pub open spec fn spec_urljoin(url: Seq<char>, path: Seq<char>) -> Option<Seq<char>> {
    match join_base(url) {
        None => None,
        Some(b) => url_join_of(b, path),
    }
}

proof fn lemma_first_index_unique(m: Seq<(Seq<char>, Seq<char>)>, k: Seq<char>, i: int)
    requires
        is_first_key_index(m, k, i),
    ensures
        has_key(m, k),
        first_key_index(m, k) == i,
{
    assert(m[i].0 == k);
    let c = first_key_index(m, k);
    assert(is_first_key_index(m, k, c));
    if c < i {
        assert(m[c].0 != k);
    } else if c > i {
        assert(m[i].0 != k);
    }
}

/// No two entries share a name.
pub open spec fn keys_distinct(m: Seq<(Seq<char>, Seq<char>)>) -> bool {
    forall|i: int, j: int| 0 <= i < m.len() && 0 <= j < m.len() && i != j ==> #[trigger] m[i].0 != #[trigger] m[j].0
}

proof fn lemma_assoc_insert_distinct(m: Seq<(Seq<char>, Seq<char>)>, k: Seq<char>, v: Seq<char>)
    requires
        keys_distinct(m),
    ensures
        keys_distinct(assoc_insert(m, k, v)),
{
    let r = assoc_insert(m, k, v);
    if has_key(m, k) {
        let w = choose|i: int| 0 <= i < m.len() && #[trigger] m[i].0 == k;
        lemma_first_index_exists(m, k, w);
        assert(is_first_key_index(m, k, first_key_index(m, k)));
        assert forall|i: int, j: int| 0 <= i < r.len() && 0 <= j < r.len() && i != j implies #[trigger] r[i].0 != #[trigger] r[j].0 by {
            assert(r[i].0 == m[i].0);
            assert(r[j].0 == m[j].0);
        }
    } else {
        assert forall|i: int, j: int| 0 <= i < r.len() && 0 <= j < r.len() && i != j implies #[trigger] r[i].0 != #[trigger] r[j].0 by {
            if i < m.len() && j < m.len() {
            } else if i < m.len() {
                assert(m[i].0 != k);
            } else {
                assert(m[j].0 != k);
            }
        }
    }
}

proof fn lemma_first_index_exists(m: Seq<(Seq<char>, Seq<char>)>, k: Seq<char>, w: int)
    requires
        0 <= w < m.len(),
        m[w].0 == k,
    ensures
        exists|i: int| is_first_key_index(m, k, i),
    decreases w,
{
    if exists|j: int| 0 <= j < w && #[trigger] m[j].0 == k {
        let j = choose|j: int| 0 <= j < w && #[trigger] m[j].0 == k;
        lemma_first_index_exists(m, k, j);
    } else {
        assert(is_first_key_index(m, k, w));
    }
}

proof fn lemma_assoc_from_distinct(p: Seq<(Seq<char>, Seq<char>)>)
    ensures
        keys_distinct(assoc_from(p)),
    decreases p.len(),
{
    if p.len() > 0 {
        lemma_assoc_from_distinct(p.drop_last());
        lemma_assoc_insert_distinct(assoc_from(p.drop_last()), p.last().0, p.last().1);
    }
}

/// Injecting a payload into every parameter gives one URL per parameter
/// name: no name appears twice in the result.
pub proof fn law_change_urlquery_one_url_per_parameter(url: Seq<char>, payload: Seq<char>, remove_content: bool)
    ensures
        keys_distinct(spec_change_urlquery(url, payload, remove_content)),
{
    if url_parses(url) {
        let m = assoc_from(url_query_pairs_of(url));
        lemma_assoc_from_distinct(url_query_pairs_of(url));
        let r = spec_change_urlquery(url, payload, remove_content);
        assert forall|i: int, j: int| 0 <= i < r.len() && 0 <= j < r.len() && i != j implies #[trigger] r[i].0 != #[trigger] r[j].0 by {
            assert(r[i].0 == m[i].0);
            assert(r[j].0 == m[j].0);
        }
    }
}

/// Entry `i` of `p` is the last one with its name.
pub open spec fn is_last_of(p: Seq<(Seq<char>, Seq<char>)>, i: int) -> bool {
    0 <= i < p.len() && forall|j: int| i < j < p.len() ==> #[trigger] p[j].0 != p[i].0
}

/// `m` holds the pair `e` at some position.
pub open spec fn holds_pair(m: Seq<(Seq<char>, Seq<char>)>, e: (Seq<char>, Seq<char>)) -> bool {
    exists|t: int| 0 <= t < m.len() && #[trigger] m[t] == e
}

proof fn lemma_assoc_insert_holds(m: Seq<(Seq<char>, Seq<char>)>, k: Seq<char>, v: Seq<char>)
    ensures
        holds_pair(assoc_insert(m, k, v), (k, v)),
        forall|t: int| 0 <= t < m.len() && #[trigger] m[t].0 != k ==> t < assoc_insert(m, k, v).len() && assoc_insert(m, k, v)[t] == m[t],
{
    let r = assoc_insert(m, k, v);
    if has_key(m, k) {
        let w = choose|i: int| 0 <= i < m.len() && #[trigger] m[i].0 == k;
        lemma_first_index_exists(m, k, w);
        let f = first_key_index(m, k);
        assert(is_first_key_index(m, k, f));
        assert(r[f] == (k, v));
    } else {
        assert(r[m.len() as int] == (k, v));
    }
}

/// The last value given to each name is what the association list keeps.
proof fn lemma_assoc_from_keeps_last(p: Seq<(Seq<char>, Seq<char>)>, i: int)
    requires
        is_last_of(p, i),
    ensures
        holds_pair(assoc_from(p), p[i]),
    decreases p.len(),
{
    let q = p.drop_last();
    lemma_assoc_insert_holds(assoc_from(q), p.last().0, p.last().1);
    if i < p.len() - 1 {
        assert(q[i] == p[i]);
        assert forall|j: int| i < j < q.len() implies #[trigger] q[j].0 != q[i].0 by {
            assert(q[j] == p[j]);
        }
        lemma_assoc_from_keeps_last(q, i);
        let m = assoc_from(q);
        let t = choose|t: int| 0 <= t < m.len() && #[trigger] m[t] == p[i];
        assert(m[t].0 != p.last().0);
        assert(assoc_from(p)[t] == p[i]);
    } else {
        assert(p[i] == (p.last().0, p.last().1));
    }
}

proof fn lemma_without_key(m: Seq<(Seq<char>, Seq<char>)>, k: Seq<char>)
    ensures
        forall|q: int| 0 <= q < without_key(m, k).len() ==> #[trigger] without_key(m, k)[q].0 != k,
        forall|t: int| 0 <= t < m.len() && #[trigger] m[t].0 != k ==> holds_pair(without_key(m, k), m[t]),
    decreases m.len(),
{
    if m.len() > 0 {
        let r0 = without_key(m.drop_last(), k);
        lemma_without_key(m.drop_last(), k);
        let r = without_key(m, k);
        assert forall|t: int| 0 <= t < m.len() && #[trigger] m[t].0 != k implies holds_pair(r, m[t]) by {
            if t < m.len() - 1 {
                assert(m.drop_last()[t] == m[t]);
                let u = choose|u: int| 0 <= u < r0.len() && #[trigger] r0[u] == m[t];
                assert(r[u] == m[t]);
            } else {
                assert(r[r0.len() as int] == m[t]);
            }
        }
    }
}

/// The entry of the association list for a name that `p` gives: the one
/// holding the last value given to it.
proof fn lemma_assoc_lookup(p: Seq<(Seq<char>, Seq<char>)>, i: int)
    requires
        is_last_of(p, i),
    ensures
        has_key(assoc_from(p), p[i].0),
        assoc_from(p)[first_key_index(assoc_from(p), p[i].0)] == p[i],
{
    let m = assoc_from(p);
    lemma_assoc_from_keeps_last(p, i);
    lemma_assoc_from_distinct(p);
    let t = choose|t: int| 0 <= t < m.len() && #[trigger] m[t] == p[i];
    assert(m[t].0 == p[i].0);
    lemma_first_index_exists(m, p[i].0, t);
    let f = first_key_index(m, p[i].0);
    assert(is_first_key_index(m, p[i].0, f));
    if f != t {
        assert(m[f].0 != m[t].0);
    }
}

/// Every entry of the association list is the last value given to its
/// name in `p`.
proof fn lemma_assoc_from_only_last(p: Seq<(Seq<char>, Seq<char>)>)
    ensures
        forall|t: int| 0 <= t < assoc_from(p).len() ==> exists|i: int| is_last_of(p, i) && #[trigger] assoc_from(p)[t] == p[i],
    decreases p.len(),
{
    if p.len() > 0 {
        let q = p.drop_last();
        let k = p.last().0;
        let v = p.last().1;
        lemma_assoc_from_only_last(q);
        lemma_assoc_from_distinct(q);
        let m = assoc_from(q);
        let r = assoc_from(p);
        assert(r == assoc_insert(m, k, v));
        let n = p.len() - 1;
        assert(is_last_of(p, n));
        assert forall|t: int| 0 <= t < r.len() implies exists|i: int| is_last_of(p, i) && #[trigger] r[t] == p[i] by {
            if t < m.len() && m[t].0 != k {
                lemma_assoc_insert_holds(m, k, v);
                assert(r[t] == m[t]);
                let i = choose|i: int| is_last_of(q, i) && #[trigger] m[t] == q[i];
                assert(q[i] == p[i]);
                assert forall|j: int| i < j < p.len() implies #[trigger] p[j].0 != p[i].0 by {
                    if j < n {
                        assert(q[j] == p[j]);
                    }
                }
                assert(is_last_of(p, i));
            } else {
                if has_key(m, k) {
                    let w = choose|w: int| 0 <= w < m.len() && #[trigger] m[w].0 == k;
                    lemma_first_index_exists(m, k, w);
                    let f = first_key_index(m, k);
                    assert(is_first_key_index(m, k, f));
                    if t < m.len() && t != f {
                        assert(m[t].0 != m[f].0);
                    }
                    assert(r[t] == (k, v));
                } else {
                    assert(r[t] == (k, v));
                }
                assert(r[t] == p[n]);
            }
        }
    }
}

/// Injecting a payload into every parameter gives nothing but URLs for the
/// URL's own parameters, and nothing at all for a URL that does not parse.
pub proof fn law_change_urlquery_only_parameters(url: Seq<char>, payload: Seq<char>, remove_content: bool)
    ensures
        !url_parses(url) ==> spec_change_urlquery(url, payload, remove_content).len() == 0,
        ({
            let r = spec_change_urlquery(url, payload, remove_content);
            let p = url_query_pairs_of(url);
            forall|t: int| #![trigger r[t]] 0 <= t < r.len() ==> exists|i: int| #![trigger p[i]] is_last_of(p, i) && r[t].0 == p[i].0
        }),
{
    if url_parses(url) {
        let p = url_query_pairs_of(url);
        let m = assoc_from(p);
        lemma_assoc_from_only_last(p);
        let r = spec_change_urlquery(url, payload, remove_content);
        assert forall|t: int| #![trigger r[t]] 0 <= t < r.len() implies exists|i: int| #![trigger p[i]] is_last_of(p, i) && r[t].0 == p[i].0 by {
            let i = choose|i: int| is_last_of(p, i) && #[trigger] m[t] == p[i];
            assert(r[t].0 == p[i].0);
        }
    }
}

proof fn lemma_without_key_from(m: Seq<(Seq<char>, Seq<char>)>, k: Seq<char>)
    ensures
        forall|x: int| 0 <= x < without_key(m, k).len() ==> holds_pair(m, #[trigger] without_key(m, k)[x]),
    decreases m.len(),
{
    if m.len() > 0 {
        let d = m.drop_last();
        lemma_without_key_from(d, k);
        let r0 = without_key(d, k);
        let r = without_key(m, k);
        assert forall|x: int| 0 <= x < r.len() implies holds_pair(m, #[trigger] r[x]) by {
            if x < r0.len() {
                assert(r[x] == r0[x]);
                let t = choose|t: int| 0 <= t < d.len() && #[trigger] d[t] == r0[x];
                assert(m[t] == d[t]);
            } else {
                assert(r[x] == m[m.len() - 1]);
            }
        }
    }
}

/// Appending a payload to a parameter: when the URL's query gives parameter
/// `param` (its last value being entry `i`), the result is the URL with a
/// query of pairs whose last is `param` with that value followed by
/// `payload`; every other parameter keeps its last value, and `param`
/// appears nowhere else.
pub proof fn law_set_urlvalue_appends(url: Seq<char>, param: Seq<char>, payload: Seq<char>, i: int)
    requires
        url_parses(url),
        is_last_of(url_query_pairs_of(url), i),
        url_query_pairs_of(url)[i].0 == param,
    ensures
        exists|q: Seq<(Seq<char>, Seq<char>)>| {
            &&& spec_set_urlvalue(url, param, payload) == url_with_query_pairs_of(url, q)
            &&& q.len() > 0
            &&& q.last() == (param, url_query_pairs_of(url)[i].1 + payload)
            &&& forall|x: int| 0 <= x < q.len() - 1 ==> #[trigger] q[x].0 != param
            &&& forall|j: int| is_last_of(url_query_pairs_of(url), j) && #[trigger] url_query_pairs_of(url)[j].0 != param
                ==> holds_pair(q, url_query_pairs_of(url)[j])
            &&& forall|x: int| 0 <= x < q.len() - 1 ==> exists|j: int| is_last_of(url_query_pairs_of(url), j)
                && #[trigger] q[x] == url_query_pairs_of(url)[j]
        },
{
    let p = url_query_pairs_of(url);
    let m = assoc_from(p);
    lemma_assoc_lookup(p, i);
    lemma_without_key(m, param);
    let rest = without_key(m, param);
    let q = rest.push((param, m[first_key_index(m, param)].1 + payload));
    assert(spec_set_urlvalue(url, param, payload) == with_query(url, q));
    assert forall|x: int| 0 <= x < q.len() - 1 implies #[trigger] q[x].0 != param by {
        assert(q[x] == rest[x]);
    }
    assert forall|j: int| is_last_of(p, j) && #[trigger] p[j].0 != param implies holds_pair(q, p[j]) by {
        lemma_assoc_from_keeps_last(p, j);
        let t = choose|t: int| 0 <= t < m.len() && #[trigger] m[t] == p[j];
        assert(m[t].0 != param);
        let u = choose|u: int| 0 <= u < rest.len() && #[trigger] rest[u] == m[t];
        assert(q[u] == p[j]);
    }
    lemma_assoc_from_only_last(p);
    lemma_without_key_from(m, param);
    assert forall|x: int| 0 <= x < q.len() - 1 implies exists|j: int| is_last_of(p, j) && #[trigger] q[x] == p[j] by {
        assert(q[x] == rest[x]);
        let t = choose|t: int| 0 <= t < m.len() && #[trigger] m[t] == rest[x];
        let j = choose|j: int| is_last_of(p, j) && #[trigger] m[t] == p[j];
        assert(q[x] == p[j]);
    }
    assert(q.len() > 0);
    assert(q.last() == (param, p[i].1 + payload));
    assert(spec_set_urlvalue(url, param, payload) == url_with_query_pairs_of(url, q));
}

/// `l` is the last line of `s`: a line-feed-free end of `s` that is all of
/// `s` or follows a line feed.
pub open spec fn is_last_line(s: Seq<char>, l: Seq<char>) -> bool {
    &&& seq_ends_with(s, l)
    &&& !l.contains('\n')
    &&& (l.len() == s.len() || s[s.len() - l.len() - 1] == '\n')
}

proof fn lemma_last_line_is(s: Seq<char>)
    ensures
        is_last_line(s, last_line(s)),
    decreases s.len(),
{
    if s.len() > 0 && s.last() != '\n' {
        lemma_last_line_is(s.drop_last());
        let l0 = last_line(s.drop_last());
        let l = last_line(s);
        assert(l == l0.push(s.last()));
        let d = s.drop_last();
        assert(d.subrange(d.len() - l0.len(), d.len() as int) == l0);
        assert(s.subrange(s.len() - l.len(), s.len() as int) =~= d.subrange(d.len() - l0.len(), d.len() as int).push(s.last()));
        assert(seq_ends_with(s, l));
        assert(!l.contains('\n')) by {
            if l.contains('\n') {
                let w = choose|w: int| 0 <= w < l.len() && l[w] == '\n';
                if w < l0.len() {
                    assert(l0[w] == '\n');
                }
            }
        }
        if l0.len() < d.len() {
            assert(s[s.len() - l.len() - 1] == d[d.len() - l0.len() - 1]);
            assert(s[s.len() - l.len() - 1] == '\n');
        } else {
            assert(l.len() == s.len());
        }
        assert(seq_ends_with(s, l));
        assert(!l.contains('\n'));
        assert(is_last_line(s, l));
    } else if s.len() > 0 {
        assert(last_line(s) == Seq::<char>::empty());
        assert(s.subrange(s.len() as int, s.len() as int) =~= Seq::<char>::empty());
        assert(s[s.len() - 0 - 1] == '\n');
        assert(is_last_line(s, last_line(s)));
    } else {
        assert(last_line(s) == s);
        assert(s.subrange(0, 0) =~= s);
        assert(seq_ends_with(s, s));
        assert(is_last_line(s, last_line(s)));
    }
}

proof fn lemma_last_line_unique(s: Seq<char>, l: Seq<char>)
    requires
        is_last_line(s, l),
    ensures
        l == last_line(s),
{
    lemma_last_line_is(s);
    let k = last_line(s);
    if l.len() < k.len() {
        let pos = s.len() - l.len() - 1;
        assert(s[pos] == '\n');
        assert(k[pos - (s.len() - k.len())] == s[pos]) by {
            assert(s.subrange(s.len() - k.len(), s.len() as int)[pos - (s.len() - k.len())] == s[pos]);
        }
        assert(k.contains('\n'));
    } else if k.len() < l.len() {
        let pos = s.len() - k.len() - 1;
        assert(s[pos] == '\n');
        assert(l[pos - (s.len() - l.len())] == s[pos]) by {
            assert(s.subrange(s.len() - l.len(), s.len() as int)[pos - (s.len() - l.len())] == s[pos]);
        }
        assert(l.contains('\n'));
    }
    assert(l =~= s.subrange(s.len() - l.len(), s.len() as int));
    assert(k =~= s.subrange(s.len() - k.len(), s.len() as int));
}

/// Injecting a payload into every parameter: for each parameter the URL's
/// query gives (its last value being entry `i`), the result holds, under
/// that parameter's name, the URL whose query is that one parameter alone,
/// carrying the last line `l` of the payload (no line feed in it), or its
/// last value followed by `l` when the value is kept.
pub proof fn law_change_urlquery_injects(url: Seq<char>, payload: Seq<char>, remove_content: bool, i: int, l: Seq<char>)
    requires
        url_parses(url),
        is_last_of(url_query_pairs_of(url), i),
        is_last_line(payload, l),
    ensures
        !l.contains('\n'),
        ({
            let (k, v) = url_query_pairs_of(url)[i];
            holds_pair(
                spec_change_urlquery(url, payload, remove_content),
                (k, url_with_query_pairs_of(url, seq![(k, if remove_content { l } else { v + l })])),
            )
        }),
{
    lemma_last_line_unique(payload, l);
    let p = url_query_pairs_of(url);
    let m = assoc_from(p);
    lemma_assoc_from_keeps_last(p, i);
    let t = choose|t: int| 0 <= t < m.len() && #[trigger] m[t] == p[i];
    let r = spec_change_urlquery(url, payload, remove_content);
    assert(r[t] == (m[t].0, url_with_query_pairs_of(url, seq![(m[t].0, injected(m[t].1, last_line(payload), remove_content))])));
}

/// Inserts `(k, v)` into the association list `m` in place.
pub(crate) fn assoc_insert_exec(m: &mut Vec<(String, String)>, k: String, v: String)
    ensures
        pairs_view(final(m)@) == assoc_insert(pairs_view(old(m)@), k@, v@),
{
    let ghost mv = pairs_view(m@);
    let mut j: usize = 0;
    while j < m.len()
        invariant
            j <= m@.len(),
            mv == pairs_view(m@),
            mv == pairs_view(old(m)@),
            forall|jj: int| 0 <= jj < j ==> #[trigger] mv[jj].0 != k@,
        decreases m@.len() - j,
    {
        if m[j].0 == k {
            proof {
                assert(mv[j as int] == (m@[j as int].0@, m@[j as int].1@));
                assert(mv[j as int].0 == k@);
                assert(is_first_key_index(mv, k@, j as int));
                lemma_first_index_unique(mv, k@, j as int);
            }
            m.set(j, (k, v));
            proof {
                assert(pairs_view(m@) =~= mv.update(j as int, (k@, v@)));
            }
            return;
        }
        assert(mv[j as int] == (m@[j as int].0@, m@[j as int].1@));
        j = j + 1;
    }
    proof {
        assert(!has_key(mv, k@)) by {
            if has_key(mv, k@) {
                let w = choose|i: int| 0 <= i < mv.len() && #[trigger] mv[i].0 == k@;
                assert(mv[w].0 != k@);
            }
        }
    }
    m.push((k, v));
    proof {
        assert(pairs_view(m@) =~= mv.push((k@, v@)));
    }
}

/// The parameters of `pairs`, inserted one after the other.
pub(crate) fn assoc_build(pairs: &Vec<(String, String)>) -> (m: Vec<(String, String)>)
    ensures
        pairs_view(m@) == assoc_from(pairs_view(pairs@)),
{
    let mut m: Vec<(String, String)> = Vec::new();
    let mut i: usize = 0;
    while i < pairs.len()
        invariant
            i <= pairs@.len(),
            pairs_view(m@) == assoc_from(pairs_view(pairs@).take(i as int)),
        decreases pairs@.len() - i,
    {
        let k = pairs[i].0.clone();
        let v = pairs[i].1.clone();
        proof {
            let pv = pairs_view(pairs@);
            assert(pv.take(i + 1).drop_last() =~= pv.take(i as int));
            assert(pv.take(i + 1).last() == pv[i as int]);
        }
        assoc_insert_exec(&mut m, k, v);
        i = i + 1;
    }
    assert(pairs_view(pairs@).take(i as int) =~= pairs_view(pairs@));
    m
}

/// The text after the last line break of `s`.
fn last_line_exec(s: &str) -> (r: String)
    ensures
        r@ == last_line(s@),
{
    let chars = str_chars(s);
    let mut start: usize = 0;
    let mut i: usize = 0;
    while i < chars.len()
        invariant
            start <= i <= chars@.len(),
            last_line(chars@.take(i as int)) =~= chars@.subrange(start as int, i as int),
        decreases chars@.len() - i,
    {
        proof {
            assert(chars@.take(i + 1).drop_last() =~= chars@.take(i as int));
            assert(chars@.take(i + 1).last() == chars@[i as int]);
        }
        if chars[i] == '\n' {
            start = i + 1;
        }
        i = i + 1;
    }
    assert(chars@.take(i as int) =~= chars@);
    let tail = vstd::slice::slice_subrange(chars.as_slice(), start, chars.len());
    string_from_chars(tail)
}

/// A message whose URL is scanned; `url` holds the URL's text.
#[derive(Clone)]
pub struct HttpMessage {
    pub url: String,
}

impl HttpMessage {
    /// A message for the URL `text`, kept in its serialized form; `None` when
    /// `text` is not a URL.
    pub fn parse(text: &str) -> (r: Option<HttpMessage>)
        ensures
            url_parses(text@) <==> r is Some,
            r matches Some(m) ==> m.url@ == url_serialization_of(text@),
    {
        match url_serialization(text) {
            Some(u) => Some(HttpMessage { url: u }),
            None => None,
        }
    }

    /// For every query parameter (in order of first appearance, each once),
    /// the URL whose query carries only that parameter, set to the last line
    /// of `payload` (`remove_content`) or to its value followed by that line.
    /// Empty when the URL does not parse.
    pub fn change_urlquery(&self, payload: &str, remove_content: bool) -> (r: Vec<(String, String)>)
        ensures
            pairs_view(r@) == spec_change_urlquery(self.url@, payload@, remove_content),
    {
        let pairs = match url_query_pairs(self.url.as_str()) {
            None => {
                return Vec::new();
            },
            Some(p) => p,
        };
        let m = assoc_build(&pairs);
        let line = last_line_exec(payload);
        let ghost mv = pairs_view(m@);
        let ghost url = self.url@;
        let ghost pl = last_line(payload@);
        let mut result: Vec<(String, String)> = Vec::new();
        let mut i: usize = 0;
        while i < m.len()
            invariant
                i <= m@.len(),
                url == self.url@,
                url_parses(url),
                mv == pairs_view(m@),
                mv == assoc_from(url_query_pairs_of(url)),
                line@ == pl,
                pl == last_line(payload@),
                pairs_view(result@) =~= Seq::new(
                    i as nat,
                    |j: int| (mv[j].0, url_with_query_pairs_of(url, seq![(mv[j].0, injected(mv[j].1, pl, remove_content))])),
                ),
            decreases m@.len() - i,
        {
            let key = m[i].0.clone();
            let value = if remove_content {
                line.clone()
            } else {
                let mut v = m[i].1.clone();
                v.append(line.as_str());
                v
            };
            let mut single: Vec<(String, String)> = Vec::new();
            single.push((key.clone(), value));
            proof {
                assert(pairs_view(single@) =~= seq![(mv[i as int].0, injected(mv[i as int].1, pl, remove_content))]);
            }
            let new_url = match url_with_query_pairs(self.url.as_str(), &single) {
                Some(u) => u,
                None => {
                    return Vec::new();
                },
            };
            let ghost before = pairs_view(result@);
            result.push((key, new_url));
            proof {
                assert(pairs_view(result@) =~= before.push((mv[i as int].0, url_with_query_pairs_of(url, seq![(mv[i as int].0, injected(mv[i as int].1, pl, remove_content))]))));
            }
            i = i + 1;
        }
        result
    }

    /// The URL with `payload` appended to the value of parameter `param`,
    /// which is moved after the other parameters; the other parameters keep
    /// their values and order.  The URL unchanged when it does not parse.
    pub fn set_urlvalue(&self, param: &str, payload: &str) -> (r: String)
        ensures
            r@ == spec_set_urlvalue(self.url@, param@, payload@),
    {
        let pairs = match url_query_pairs(self.url.as_str()) {
            None => {
                return self.url.clone();
            },
            Some(p) => p,
        };
        let m = assoc_build(&pairs);
        let ghost mv = pairs_view(m@);
        let mut rest: Vec<(String, String)> = Vec::new();
        let mut found: Option<String> = None;
        let ghost mut fidx: int = 0;
        let mut i: usize = 0;
        while i < m.len()
            invariant
                i <= m@.len(),
                mv == pairs_view(m@),
                pairs_view(rest@) == without_key(mv.take(i as int), param@),
                found is Some ==> is_first_key_index(mv, param@, fidx) && fidx < i
                    && found->0@ == mv[fidx].1 + payload@,
                found is None ==> forall|jj: int| 0 <= jj < i ==> #[trigger] mv[jj].0 != param@,
            decreases m@.len() - i,
        {
            proof {
                assert(mv.take(i + 1).drop_last() =~= mv.take(i as int));
                assert(mv.take(i + 1).last() == mv[i as int]);
            }
            assert(mv[i as int] == (m@[i as int].0@, m@[i as int].1@));
            if crate::text::str_equal(m[i].0.as_str(), param) {
                if found.is_none() {
                    let mut v = m[i].1.clone();
                    v.append(payload);
                    found = Some(v);
                    proof {
                        fidx = i as int;
                        assert(is_first_key_index(mv, param@, fidx));
                    }
                }
            } else {
                let ghost old_rest = pairs_view(rest@);
                rest.push((m[i].0.clone(), m[i].1.clone()));
                proof {
                    assert(pairs_view(rest@) =~= old_rest.push(mv[i as int]));
                }
            }
            i = i + 1;
        }
        assert(mv.take(i as int) =~= mv);
        let ghost base_rest = pairs_view(rest@);
        match found {
            Some(v) => {
                proof {
                    lemma_first_index_unique(mv, param@, fidx);
                }
                rest.push((param.to_string(), v));
                proof {
                    assert(pairs_view(rest@) =~= base_rest.push((param@, mv[first_key_index(mv, param@)].1 + payload@)));
                }
            },
            None => {
                proof {
                    assert(!has_key(mv, param@)) by {
                        if has_key(mv, param@) {
                            let w = choose|k: int| 0 <= k < mv.len() && #[trigger] mv[k].0 == param@;
                            assert(mv[w].0 != param@);
                        }
                    }
                }
            },
        }
        let rebuilt = if rest.len() == 0 {
            url_without_query(self.url.as_str())
        } else {
            url_with_query_pairs(self.url.as_str(), &rest)
        };
        match rebuilt {
            Some(u) => u,
            None => self.url.clone(),
        }
    }

    /// The URL below which relative paths are joined (see `join_base`).
    fn join_base_exec(&self) -> (r: Option<String>)
        ensures
            option_view(r) == join_base(self.url@),
    {
        let path = match url_path(self.url.as_str()) {
            None => {
                return None;
            },
            Some(p) => p,
        };
        if str_ends_with(path.as_str(), "/") {
            Some(self.url.clone())
        } else {
            let mut p = path;
            p.append("/");
            url_with_path(self.url.as_str(), p.as_str())
        }
    }

    /// Resolves `path` below the URL: `subpath` joined to `https://h/path`
    /// gives `https://h/path/subpath`.  `None` when the URL does not parse or
    /// the join fails.
    pub fn try_urljoin(&self, path: &str) -> (r: Option<String>)
        ensures
            option_view(r) == spec_urljoin(self.url@, path@),
    {
        match self.join_base_exec() {
            None => None,
            Some(b) => {
                if url_join(b.as_str(), path).is_some() {
                    Some(self.urljoin(path))
                } else {
                    None
                }
            },
        }
    }

    /// Resolves `path` below the URL, as `try_urljoin` does, for a URL and a
    /// path that join.
    pub fn urljoin(&self, path: &str) -> (r: String)
        requires
            spec_urljoin(self.url@, path@) is Some,
        ensures
            Some(r@) == spec_urljoin(self.url@, path@),
    {
        let b = self.join_base_exec();
        match b {
            Some(b) => match url_join(b.as_str(), path) {
                Some(j) => j,
                None => String::new(),
            },
            None => String::new(),
        }
    }

    /// The path of the URL; `None` when the URL does not parse.
    pub fn path(&self) -> (r: Option<String>)
        ensures
            option_view(r) == (if url_parses(self.url@) { Some(url_path_of(self.url@)) } else { None }),
    {
        url_path(self.url.as_str())
    }

    /// The query text of the URL, empty when it has none; `None` when the
    /// URL does not parse.
    pub fn param_str(&self) -> (r: Option<String>)
        ensures
            option_view(r) == (if url_parses(self.url@) {
                Some(match url_query_of(self.url@) { Some(q) => q, None => Seq::<char>::empty() })
            } else {
                None
            }),
    {
        match url_query(self.url.as_str()) {
            None => None,
            Some(Some(q)) => Some(q),
            Some(None) => Some(String::new()),
        }
    }

    /// The names of the query pairs, in order, repeated names included;
    /// `None` when the URL does not parse.
    pub fn param_list(&self) -> (r: Option<Vec<String>>)
        ensures
            url_parses(self.url@) <==> r is Some,
            r matches Some(v) ==> v@.map_values(|s: String| s@) == url_query_pairs_of(self.url@).map_values(|p: (Seq<char>, Seq<char>)| p.0),
    {
        let pairs = match url_query_pairs(self.url.as_str()) {
            None => {
                return None;
            },
            Some(p) => p,
        };
        let ghost pv = pairs_view(pairs@);
        let mut names: Vec<String> = Vec::new();
        let mut i: usize = 0;
        while i < pairs.len()
            invariant
                i <= pairs@.len(),
                pv == pairs_view(pairs@),
                names@.map_values(|s: String| s@) =~= pv.take(i as int).map_values(|p: (Seq<char>, Seq<char>)| p.0),
            decreases pairs@.len() - i,
        {
            let ghost before = names@.map_values(|s: String| s@);
            assert(pv[i as int] == (pairs@[i as int].0@, pairs@[i as int].1@));
            names.push(pairs[i].0.clone());
            proof {
                assert(names@.map_values(|s: String| s@) =~= before.push(pv[i as int].0));
                assert(pv.take(i + 1) =~= pv.take(i as int).push(pv[i as int]));
            }
            i = i + 1;
        }
        assert(pv.take(i as int) =~= pv);
        Some(names)
    }
}

} // verus!
