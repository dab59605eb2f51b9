//! The site map: the request/response exchanges seen during a scan, one per
//! URL, the latest exchange for a URL replacing the earlier one.

use vstd::prelude::*;

verus! {

/// One HTTP exchange.
#[derive(Clone, Debug)]
pub struct HttpRequestResponse {
    pub url: String,
    pub method: String,
    pub request: String,
    pub response: String,
    pub status_code: u16,
}

impl HttpRequestResponse {
    /// A field-by-field copy.
    pub fn copied(&self) -> (r: HttpRequestResponse)
        ensures
            r == *self,
    {
        HttpRequestResponse {
            url: self.url.clone(),
            method: self.method.clone(),
            request: self.request.clone(),
            response: self.response.clone(),
            status_code: self.status_code,
        }
    }
}

/// The exchanges, keyed by URL.
pub struct SiteMap {
    entries: Vec<HttpRequestResponse>,
}

/// The exchange recorded for URL `k` in `s`, when the URLs of `s` are distinct.
pub open spec fn entry_index(s: Seq<HttpRequestResponse>, k: Seq<char>) -> int {
    choose|i: int| 0 <= i < s.len() && s[i].url@ == k
}

pub open spec fn has_url(s: Seq<HttpRequestResponse>, k: Seq<char>) -> bool {
    exists|i: int| 0 <= i < s.len() && #[trigger] s[i].url@ == k
}

/// No two exchanges share a URL.
pub open spec fn distinct_urls(s: Seq<HttpRequestResponse>) -> bool {
    forall|i: int, j: int| 0 <= i < s.len() && 0 <= j < s.len() && i != j ==> #[trigger] s[i].url@ != #[trigger] s[j].url@
}

/// The map from URL to exchange that the sequence holds.
pub open spec fn entries_map(s: Seq<HttpRequestResponse>) -> Map<Seq<char>, HttpRequestResponse> {
    Map::new(|k: Seq<char>| has_url(s, k), |k: Seq<char>| s[entry_index(s, k)])
}

proof fn lemma_entry_at(s: Seq<HttpRequestResponse>, i: int)
    requires
        distinct_urls(s),
        0 <= i < s.len(),
    ensures
        has_url(s, s[i].url@),
        entry_index(s, s[i].url@) == i,
        entries_map(s).contains_key(s[i].url@),
        entries_map(s)[s[i].url@] == s[i],
{
    let k = s[i].url@;
    assert(has_url(s, k));
    let c = entry_index(s, k);
    assert(0 <= c < s.len() && s[c].url@ == k);
    if c != i {
        assert(s[c].url@ != s[i].url@);
    }
}

/// With distinct URLs, the map holds exactly as many URLs as the sequence
/// holds exchanges.
proof fn lemma_map_len(s: Seq<HttpRequestResponse>)
    requires
        distinct_urls(s),
    ensures
        entries_map(s).dom().finite(),
        entries_map(s).len() == s.len(),
{
    let u = s.map_values(|e: HttpRequestResponse| e.url@);
    assert forall|i: int, j: int| 0 <= i < u.len() && 0 <= j < u.len() && i != j implies u[i] != u[j] by {
        assert(u[i] == s[i].url@);
        assert(u[j] == s[j].url@);
    }
    assert(u.no_duplicates());
    assert forall|k: Seq<char>| entries_map(s).dom().contains(k) <==> u.to_set().contains(k) by {
        if has_url(s, k) {
            let w = choose|i: int| 0 <= i < s.len() && #[trigger] s[i].url@ == k;
            assert(u[w] == k);
        }
        if u.contains(k) {
            let w = choose|i: int| 0 <= i < u.len() && u[i] == k;
            assert(s[w].url@ == k);
        }
    }
    assert(entries_map(s).dom() =~= u.to_set());
    u.unique_seq_to_set();
    vstd::seq_lib::seq_to_set_is_finite(u);
}

impl View for SiteMap {
    type V = Map<Seq<char>, HttpRequestResponse>;

    closed spec fn view(&self) -> Map<Seq<char>, HttpRequestResponse> {
        entries_map(self.entries@)
    }
}

impl SiteMap {
    #[verifier::type_invariant]
    spec fn urls_distinct(self) -> bool {
        distinct_urls(self.entries@)
    }

    /// An empty site map.
    pub fn new() -> (m: Self)
        ensures
            m@ == Map::<Seq<char>, HttpRequestResponse>::empty(),
    {
        let m = SiteMap { entries: Vec::new() };
        assert(m@ =~= Map::<Seq<char>, HttpRequestResponse>::empty());
        m
    }

    /// The position of the exchange for `url`, if any.
    fn find(&self, url: &str) -> (r: Option<usize>)
        ensures
            match r {
                Some(j) => j < self.entries@.len() && self.entries@[j as int].url@ == url@,
                None => !has_url(self.entries@, url@),
            },
    {
        let mut j: usize = 0;
        while j < self.entries.len()
            invariant
                j <= self.entries@.len(),
                forall|jj: int| 0 <= jj < j ==> #[trigger] self.entries@[jj].url@ != url@,
            decreases self.entries@.len() - j,
        {
            if crate::text::str_equal(self.entries[j].url.as_str(), url) {
                return Some(j);
            }
            j = j + 1;
        }
        proof {
            if has_url(self.entries@, url@) {
                let w = choose|i: int| 0 <= i < self.entries@.len() && #[trigger] self.entries@[i].url@ == url@;
                assert(self.entries@[w].url@ != url@);
            }
        }
        None
    }

    /// Records `entry` under its URL, replacing an earlier exchange for it.
    pub fn add_entry(&mut self, entry: HttpRequestResponse)
        ensures
            final(self)@ == old(self)@.insert(entry.url@, entry),
    {
        proof {
            use_type_invariant(&*self);
        }
        let ghost old_s = self.entries@;
        let found = self.find(entry.url.as_str());
        let mut entries: Vec<HttpRequestResponse> = Vec::new();
        std::mem::swap(&mut entries, &mut self.entries);
        assert(entries@ == old_s);
        let ghost k = entry.url@;
        match found {
            Some(j) => {
                entries.set(j, entry);
                let ghost s = entries@;
                proof {
                    assert(s == old_s.update(j as int, entry));
                    assert forall|a: int, b: int| 0 <= a < s.len() && 0 <= b < s.len() && a != b implies #[trigger] s[a].url@ != #[trigger] s[b].url@ by {
                        if a != j && b != j {
                            assert(old_s[a].url@ != old_s[b].url@);
                        } else if a == j {
                            assert(old_s[a].url@ != old_s[b].url@);
                        } else {
                            assert(old_s[a].url@ != old_s[b].url@);
                        }
                    }
                    assert forall|kk: Seq<char>| entries_map(s).contains_key(kk) <==> entries_map(old_s).insert(k, entry).contains_key(kk) by {
                        if has_url(s, kk) {
                            let w = choose|i: int| 0 <= i < s.len() && #[trigger] s[i].url@ == kk;
                            if w != j {
                                assert(old_s[w].url@ == kk);
                            }
                        }
                        if has_url(old_s, kk) {
                            let w = choose|i: int| 0 <= i < old_s.len() && #[trigger] old_s[i].url@ == kk;
                            if w != j {
                                assert(s[w].url@ == kk);
                            } else {
                                assert(s[j as int].url@ == kk);
                            }
                        }
                        if kk == k {
                            assert(s[j as int].url@ == kk);
                        }
                    }
                    assert forall|kk: Seq<char>| #[trigger] entries_map(s).contains_key(kk) implies entries_map(s)[kk] == entries_map(old_s).insert(k, entry)[kk] by {
                        let w = choose|i: int| 0 <= i < s.len() && #[trigger] s[i].url@ == kk;
                        lemma_entry_at(s, w);
                        if w != j {
                            assert(old_s[w] == s[w]);
                            lemma_entry_at(old_s, w);
                        }
                    }
                    assert(entries_map(s) =~= entries_map(old_s).insert(k, entry));
                }
            },
            None => {
                entries.push(entry);
                let ghost s = entries@;
                proof {
                    assert(s == old_s.push(entry));
                    assert forall|a: int, b: int| 0 <= a < s.len() && 0 <= b < s.len() && a != b implies #[trigger] s[a].url@ != #[trigger] s[b].url@ by {
                        if a < old_s.len() && b < old_s.len() {
                            assert(old_s[a].url@ != old_s[b].url@);
                        } else if a < old_s.len() {
                            assert(old_s[a].url@ != k);
                        } else {
                            assert(old_s[b].url@ != k);
                        }
                    }
                    assert forall|kk: Seq<char>| entries_map(s).contains_key(kk) <==> entries_map(old_s).insert(k, entry).contains_key(kk) by {
                        if has_url(s, kk) {
                            let w = choose|i: int| 0 <= i < s.len() && #[trigger] s[i].url@ == kk;
                            if w < old_s.len() {
                                assert(old_s[w].url@ == kk);
                            }
                        }
                        if has_url(old_s, kk) {
                            let w = choose|i: int| 0 <= i < old_s.len() && #[trigger] old_s[i].url@ == kk;
                            assert(s[w].url@ == kk);
                        }
                        if kk == k {
                            assert(s[old_s.len() as int].url@ == kk);
                        }
                    }
                    assert forall|kk: Seq<char>| #[trigger] entries_map(s).contains_key(kk) implies entries_map(s)[kk] == entries_map(old_s).insert(k, entry)[kk] by {
                        let w = choose|i: int| 0 <= i < s.len() && #[trigger] s[i].url@ == kk;
                        lemma_entry_at(s, w);
                        if w < old_s.len() {
                            assert(old_s[w] == s[w]);
                            lemma_entry_at(old_s, w);
                        }
                    }
                    assert(entries_map(s) =~= entries_map(old_s).insert(k, entry));
                }
            },
        }
        self.entries = entries;
    }

    /// The exchange recorded for `url`, if any.
    pub fn get_entry(&self, url: &str) -> (r: Option<HttpRequestResponse>)
        ensures
            r == (if self@.contains_key(url@) { Some(self@[url@]) } else { None::<HttpRequestResponse> }),
    {
        proof {
            use_type_invariant(self);
        }
        match self.find(url) {
            Some(j) => {
                proof {
                    lemma_entry_at(self.entries@, j as int);
                }
                Some(self.entries[j].copied())
            },
            None => None,
        }
    }

    /// Removes and returns the exchange recorded for `url`, if any.
    pub fn remove_entry(&mut self, url: &str) -> (r: Option<HttpRequestResponse>)
        ensures
            r == (if old(self)@.contains_key(url@) { Some(old(self)@[url@]) } else { None::<HttpRequestResponse> }),
            final(self)@ == old(self)@.remove(url@),
    {
        proof {
            use_type_invariant(&*self);
        }
        let ghost old_s = self.entries@;
        match self.find(url) {
            None => {
                assert(self@ =~= self@.remove(url@));
                None
            },
            Some(j) => {
                proof {
                    lemma_entry_at(old_s, j as int);
                }
                let mut entries: Vec<HttpRequestResponse> = Vec::new();
                std::mem::swap(&mut entries, &mut self.entries);
                let removed = entries.remove(j);
                let ghost s = entries@;
                proof {
                    assert(s == old_s.remove(j as int));
                    assert forall|a: int, b: int| 0 <= a < s.len() && 0 <= b < s.len() && a != b implies #[trigger] s[a].url@ != #[trigger] s[b].url@ by {
                        let oa = if a < j { a } else { a + 1 };
                        let ob = if b < j { b } else { b + 1 };
                        assert(s[a] == old_s[oa]);
                        assert(s[b] == old_s[ob]);
                        assert(old_s[oa].url@ != old_s[ob].url@);
                    }
                    assert forall|kk: Seq<char>| entries_map(s).contains_key(kk) <==> entries_map(old_s).remove(url@).contains_key(kk) by {
                        if has_url(s, kk) {
                            let w = choose|i: int| 0 <= i < s.len() && #[trigger] s[i].url@ == kk;
                            let ow = if w < j { w } else { w + 1 };
                            assert(old_s[ow].url@ == kk);
                            assert(ow != j);
                            assert(old_s[ow].url@ != old_s[j as int].url@);
                        }
                        if has_url(old_s, kk) && kk != url@ {
                            let w = choose|i: int| 0 <= i < old_s.len() && #[trigger] old_s[i].url@ == kk;
                            assert(w != j);
                            let sw = if w < j { w } else { w - 1 };
                            assert(s[sw].url@ == kk);
                        }
                    }
                    assert forall|kk: Seq<char>| #[trigger] entries_map(s).contains_key(kk) implies entries_map(s)[kk] == entries_map(old_s).remove(url@)[kk] by {
                        let w = choose|i: int| 0 <= i < s.len() && #[trigger] s[i].url@ == kk;
                        lemma_entry_at(s, w);
                        let ow = if w < j { w } else { w + 1 };
                        assert(s[w] == old_s[ow]);
                        lemma_entry_at(old_s, ow);
                    }
                    assert(entries_map(s) =~= entries_map(old_s).remove(url@));
                }
                self.entries = entries;
                Some(removed)
            },
        }
    }

    /// Every recorded exchange, each once (in the order of first recording).
    pub fn list_entries(&self) -> (r: Vec<HttpRequestResponse>)
        ensures
            forall|i: int| 0 <= i < r@.len() ==> #[trigger] self@.contains_key(r@[i].url@) && self@[r@[i].url@] == r@[i],
            forall|k: Seq<char>| #[trigger] self@.contains_key(k) ==> exists|i: int| 0 <= i < r@.len() && r@[i].url@ == k,
            distinct_urls(r@),
            self@.dom().finite(),
            r@.len() == self@.len(),
    {
        proof {
            use_type_invariant(self);
            lemma_map_len(self.entries@);
        }
        let mut r: Vec<HttpRequestResponse> = Vec::new();
        let mut i: usize = 0;
        while i < self.entries.len()
            invariant
                i <= self.entries@.len(),
                r@ == self.entries@.take(i as int),
            decreases self.entries@.len() - i,
        {
            r.push(self.entries[i].copied());
            proof {
                assert(r@ =~= self.entries@.take(i + 1));
            }
            i = i + 1;
        }
        proof {
            assert(r@ =~= self.entries@);
            assert forall|j: int| 0 <= j < r@.len() implies #[trigger] self@.contains_key(r@[j].url@) && self@[r@[j].url@] == r@[j] by {
                lemma_entry_at(self.entries@, j);
            }
            assert forall|k: Seq<char>| #[trigger] self@.contains_key(k) implies exists|j: int| 0 <= j < r@.len() && r@[j].url@ == k by {
                let w = choose|j: int| 0 <= j < self.entries@.len() && #[trigger] self.entries@[j].url@ == k;
                assert(r@[w].url@ == k);
            }
        }
        r
    }
}

impl Default for SiteMap {
    fn default() -> (m: Self)
        ensures
            m@ == Map::<Seq<char>, HttpRequestResponse>::empty(),
    {
        SiteMap::new()
    }
}

/// Reading an URL after recording an exchange for it gives that exchange;
/// other URLs read as before.
pub proof fn law_get_after_add(m: Map<Seq<char>, HttpRequestResponse>, e: HttpRequestResponse, other: Seq<char>)
    requires
        other != e.url@,
    ensures
        m.insert(e.url@, e).contains_key(e.url@),
        m.insert(e.url@, e)[e.url@] == e,
        m.insert(e.url@, e).contains_key(other) == m.contains_key(other),
        m.contains_key(other) ==> m.insert(e.url@, e)[other] == m[other],
{
}

/// After removing an URL nothing is recorded for it; other URLs read as before.
pub proof fn law_get_after_remove(m: Map<Seq<char>, HttpRequestResponse>, url: Seq<char>, other: Seq<char>)
    requires
        other != url,
    ensures
        !m.remove(url).contains_key(url),
        m.remove(url).contains_key(other) == m.contains_key(other),
        m.contains_key(other) ==> m.remove(url)[other] == m[other],
        m.dom().finite() ==> m.remove(url).len() == m.len() - (if m.contains_key(url) { 1int } else { 0int }),
{
}

/// Recording an exchange for a new URL and removing it again gives back the
/// site map as it was.
pub proof fn law_remove_undoes_add(m: Map<Seq<char>, HttpRequestResponse>, e: HttpRequestResponse)
    requires
        !m.contains_key(e.url@),
    ensures
        m.insert(e.url@, e).remove(e.url@) == m,
        m.insert(e.url@, e)[e.url@] == e,
{
    assert(m.insert(e.url@, e).remove(e.url@) =~= m);
}

} // verus!
