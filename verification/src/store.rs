//! The cache store: a mapping from origin URL to the record last fetched
//! for it, with a freshness-checked lookup, unconditional insertion, and a
//! point-in-time snapshot for the listing view.

use vstd::prelude::*;

verus! {

/// One cache entry: the body last fetched from an origin URL, when it was
/// fetched (seconds since the epoch), and how many fresh lookups it has
/// served since that fetch.
#[derive(Debug)]
pub struct CacheRecord {
    pub url: String,
    pub fetched_at: u64,
    pub body: String,
    pub hits: usize,
}

/// Mathematical image of a cache record.
pub ghost struct Rec {
    pub url: Seq<char>,
    pub fetched_at: u64,
    pub body: Seq<char>,
    pub hits: usize,
}

impl View for CacheRecord {
    type V = Rec;

    open spec fn view(&self) -> Rec {
        Rec { url: self.url@, fetched_at: self.fetched_at, body: self.body@, hits: self.hits }
    }
}

impl CacheRecord {
    /// A copy with the same url, timestamp, body and hit count.
    pub fn duplicate(&self) -> (r: CacheRecord)
        ensures
            r@ == self@,
    {
        CacheRecord {
            url: self.url.clone(),
            fetched_at: self.fetched_at,
            body: self.body.clone(),
            hits: self.hits,
        }
    }
}

/// The images of a sequence of records.
pub open spec fn recs(s: Seq<CacheRecord>) -> Seq<Rec> {
    s.map_values(|r: CacheRecord| r@)
}

/// No two records share a URL.
pub open spec fn urls_distinct(s: Seq<Rec>) -> bool {
    forall|i: int, j: int| 0 <= i < j < s.len() ==> s[i].url != s[j].url
}

/// Some record in `s` has URL `u`.
pub open spec fn has_url(s: Seq<Rec>, u: Seq<char>) -> bool {
    exists|i: int| 0 <= i < s.len() && s[i].url == u
}

/// The index of the record with URL `u` (meaningful when one exists and
/// URLs are distinct).
pub open spec fn idx_of(s: Seq<Rec>, u: Seq<char>) -> int {
    choose|i: int| 0 <= i < s.len() && s[i].url == u
}

/// The mapping that a sequence of records denotes: URL to record.
pub open spec fn map_of(s: Seq<Rec>) -> Map<Seq<char>, Rec> {
    Map::new(|u: Seq<char>| has_url(s, u), |u: Seq<char>| s[idx_of(s, u)])
}

/// A hit count after one more fresh lookup: one is added, saturating at the
/// machine maximum.
pub open spec fn bump(h: usize) -> usize {
    if h < usize::MAX {
        (h + 1) as usize
    } else {
        h
    }
}

/// The record as it stands after serving one more fresh hit.
pub open spec fn bump_rec(r: Rec) -> Rec {
    Rec { url: r.url, fetched_at: r.fetched_at, body: r.body, hits: bump(r.hits) }
}

/// A record for `u` is in `m` and still fresh at time `t` under window `w`:
/// its age is strictly less than `w` (an age exactly equal to `w` is stale).
pub open spec fn is_fresh(m: Map<Seq<char>, Rec>, u: Seq<char>, w: u64, t: u64) -> bool {
    m.contains_key(u) && m[u].fetched_at + w > t
}

/// Whether `fetched_at + max_age > now`, computed without overflow.
pub fn fresh_at(fetched_at: u64, max_age: u64, now: u64) -> (b: bool)
    ensures
        b == (fetched_at + max_age > now),
{
    if fetched_at >= now {
        fetched_at > now || max_age > 0
    } else {
        max_age > now - fetched_at
    }
}

proof fn lemma_idx_unique(s: Seq<Rec>, i: int)
    requires
        urls_distinct(s),
        0 <= i < s.len(),
    ensures
        has_url(s, s[i].url),
        idx_of(s, s[i].url) == i,
{
    assert(has_url(s, s[i].url)) by {
        assert(0 <= i < s.len() && s[i].url == s[i].url);
    }
    let j = idx_of(s, s[i].url);
    assert(0 <= j < s.len() && s[j].url == s[i].url);
    if j < i {
        assert(s[j].url != s[i].url);
    } else if i < j {
        assert(s[i].url != s[j].url);
    }
}

proof fn lemma_map_of_update(s: Seq<Rec>, i: int, r: Rec)
    requires
        urls_distinct(s),
        0 <= i < s.len(),
        r.url == s[i].url,
    ensures
        urls_distinct(s.update(i, r)),
        map_of(s.update(i, r)) == map_of(s).insert(r.url, r),
{
    let s2 = s.update(i, r);
    assert forall|k: int| 0 <= k < s2.len() implies #[trigger] s2[k].url == s[k].url by {}
    assert(urls_distinct(s2));
    let m2 = map_of(s2);
    let mi = map_of(s).insert(r.url, r);
    assert forall|u: Seq<char>| m2.contains_key(u) implies mi.contains_key(u) by {
        let k = idx_of(s2, u);
        assert(0 <= k < s2.len() && s2[k].url == u);
        lemma_idx_unique(s, k);
    }
    assert forall|u: Seq<char>| mi.contains_key(u) implies m2.contains_key(u) by {
        if u == r.url {
            lemma_idx_unique(s2, i);
        } else {
            let k = idx_of(s, u);
            assert(0 <= k < s.len() && s[k].url == u);
            lemma_idx_unique(s2, k);
        }
    }
    assert forall|u: Seq<char>| m2.contains_key(u) implies m2[u] == mi[u] by {
        if u == r.url {
            lemma_idx_unique(s2, i);
        } else {
            let k = idx_of(s2, u);
            assert(0 <= k < s2.len() && s2[k].url == u);
            lemma_idx_unique(s2, k);
            lemma_idx_unique(s, k);
        }
    }
    assert(m2 =~= mi);
}

proof fn lemma_map_of_push(s: Seq<Rec>, r: Rec)
    requires
        urls_distinct(s),
        !has_url(s, r.url),
    ensures
        urls_distinct(s.push(r)),
        map_of(s.push(r)) == map_of(s).insert(r.url, r),
{
    let s2 = s.push(r);
    assert forall|a: int, b: int| 0 <= a < b < s2.len() implies s2[a].url != s2[b].url by {
        if b == s.len() {
            assert(s2[a] == s[a]);
            if s[a].url == r.url {
                assert(has_url(s, r.url)) by {
                    assert(0 <= a < s.len() && s[a].url == r.url);
                }
            }
        } else {
            assert(s2[a] == s[a] && s2[b] == s[b]);
        }
    }
    let m2 = map_of(s2);
    let mi = map_of(s).insert(r.url, r);
    assert forall|u: Seq<char>| m2.contains_key(u) implies mi.contains_key(u) by {
        let k = idx_of(s2, u);
        assert(0 <= k < s2.len() && s2[k].url == u);
        if k < s.len() {
            assert(s2[k] == s[k]);
            lemma_idx_unique(s, k);
        }
    }
    assert forall|u: Seq<char>| mi.contains_key(u) implies m2.contains_key(u) by {
        if u == r.url {
            assert(0 <= s.len() < s2.len() && s2[s.len() as int].url == u);
        } else {
            let k = idx_of(s, u);
            assert(0 <= k < s.len() && s[k].url == u);
            assert(s2[k] == s[k]);
            assert(0 <= k < s2.len() && s2[k].url == u);
        }
    }
    assert forall|u: Seq<char>| m2.contains_key(u) implies m2[u] == mi[u] by {
        let k = idx_of(s2, u);
        assert(0 <= k < s2.len() && s2[k].url == u);
        if u == r.url {
            lemma_idx_unique(s2, s.len() as int);
        } else {
            assert(k < s.len());
            assert(s2[k] == s[k]);
            lemma_idx_unique(s, k);
        }
    }
    assert(m2 =~= mi);
}

/// Law: the freshness boundary is strict. A record whose age at `t` is at
/// least the window `w` — the boundary case `t - fetched_at == w` included —
/// is stale, so `lookup_fresh` returns nothing for it.
pub proof fn lemma_boundary_stale(m: Map<Seq<char>, Rec>, u: Seq<char>, w: u64, t: u64)
    requires
        m.contains_key(u),
        m[u].fetched_at <= t,
        t - m[u].fetched_at >= w,
    ensures
        !is_fresh(m, u, w, t),
{
}

/// The cache store: at most one record per URL.
pub struct CacheStore {
    entries: Vec<CacheRecord>,
}

impl View for CacheStore {
    type V = Map<Seq<char>, Rec>;

    closed spec fn view(&self) -> Map<Seq<char>, Rec> {
        map_of(recs(self.entries@))
    }
}

impl CacheStore {
    /// Well-formedness: no URL occurs twice.
    pub closed spec fn wf(&self) -> bool {
        urls_distinct(recs(self.entries@))
    }

    /// An empty store.
    pub fn new() -> (s: CacheStore)
        ensures
            s.wf(),
            s@ == Map::<Seq<char>, Rec>::empty(),
    {
        let s = CacheStore { entries: Vec::new() };
        proof {
            assert(s@ =~= Map::<Seq<char>, Rec>::empty());
        }
        s
    }

    /// Freshness-checked lookup: returns the record for `url` if one exists
    /// whose age at `now` is strictly below `max_age`, incrementing its hit
    /// count first; returns `None`, and changes nothing, on absence or
    /// staleness.
    pub fn lookup_fresh(&mut self, url: &String, max_age: u64, now: u64) -> (r: Option<
        CacheRecord,
    >)
        requires
            old(self).wf(),
        ensures
            final(self).wf(),
            is_fresh(old(self)@, url@, max_age, now) ==> (r matches Some(rec)
                && rec@ == bump_rec(old(self)@[url@]) && final(self)@ == old(self)@.insert(
                url@,
                bump_rec(old(self)@[url@]),
            )),
            !is_fresh(old(self)@, url@, max_age, now) ==> r is None && final(self)@ == old(
                self,
            )@,
    {
        let ghost s0 = recs(self.entries@);
        let n = self.entries.len();
        let mut i: usize = 0;
        while i < n
            invariant
                *self == *old(self),
                s0 == recs(self.entries@),
                urls_distinct(s0),
                old(self)@ == map_of(s0),
                n == self.entries.len(),
                i <= n,
                forall|k: int| 0 <= k < i ==> s0[k].url != url@,
            decreases n - i,
        {
            if self.entries[i].url == *url {
                proof {
                    lemma_idx_unique(s0, i as int);
                    assert(s0[i as int].url == url@);
                    assert(old(self)@.contains_key(url@));
                    assert(old(self)@[url@] == s0[i as int]);
                }
                let fresh = fresh_at(self.entries[i].fetched_at, max_age, now);
                if fresh {
                    let found = &self.entries[i];
                    let new_hits: usize = if found.hits < usize::MAX {
                        found.hits + 1
                    } else {
                        found.hits
                    };
                    let updated = CacheRecord {
                        url: found.url.clone(),
                        fetched_at: found.fetched_at,
                        body: found.body.clone(),
                        hits: new_hits,
                    };
                    let ret = updated.duplicate();
                    proof {
                        assert(updated@ == bump_rec(s0[i as int]));
                        lemma_map_of_update(s0, i as int, updated@);
                    }
                    let ghost uv = updated@;
                    self.entries.remove(i);
                    self.entries.insert(i, updated);
                    proof {
                        let e1 = recs(self.entries@);
                        let s1 = s0.update(i as int, uv);
                        assert(e1.len() == s1.len());
                        assert forall|k: int| 0 <= k < e1.len() implies e1[k] == s1[k] by {
                            assert(e1[k] == self.entries@[k]@);
                        }
                        assert(e1 =~= s1);
                    }
                    return Some(ret);
                } else {
                    return None;
                }
            }
            i += 1;
        }
        proof {
            if old(self)@.contains_key(url@) {
                let k = idx_of(s0, url@);
                assert(0 <= k < s0.len() && s0[k].url == url@);
            }
        }
        None
    }

    /// Unconditional insertion: any existing record for the same URL is
    /// replaced wholesale by `rec` — hit counts are never merged.
    pub fn insert(&mut self, rec: CacheRecord)
        requires
            old(self).wf(),
        ensures
            final(self).wf(),
            final(self)@ == old(self)@.insert(rec.url@, rec@),
            final(self)@[rec.url@] == rec@,
    {
        let ghost s0 = recs(self.entries@);
        let n = self.entries.len();
        let mut i: usize = 0;
        while i < n
            invariant
                *self == *old(self),
                s0 == recs(self.entries@),
                urls_distinct(s0),
                old(self)@ == map_of(s0),
                n == self.entries.len(),
                i <= n,
                forall|k: int| 0 <= k < i ==> s0[k].url != rec.url@,
            decreases n - i,
        {
            if self.entries[i].url == rec.url {
                proof {
                    lemma_idx_unique(s0, i as int);
                    assert(s0[i as int].url == rec.url@);
                    lemma_map_of_update(s0, i as int, rec@);
                }
                let ghost rv = rec@;
                self.entries.remove(i);
                self.entries.insert(i, rec);
                proof {
                    let e1 = recs(self.entries@);
                    let s1 = s0.update(i as int, rv);
                    assert(e1.len() == s1.len());
                    assert forall|k: int| 0 <= k < e1.len() implies e1[k] == s1[k] by {
                        assert(e1[k] == self.entries@[k]@);
                    }
                    assert(e1 =~= s1);
                }
                return ;
            }
            i += 1;
        }
        proof {
            if has_url(s0, rec.url@) {
                let k = idx_of(s0, rec.url@);
                assert(0 <= k < s0.len() && s0[k].url == rec.url@);
            }
            lemma_map_of_push(s0, rec@);
        }
        let ghost rv = rec@;
        self.entries.push(rec);
        proof {
            let e1 = recs(self.entries@);
            let s1 = s0.push(rv);
            assert(e1.len() == s1.len());
            assert forall|k: int| 0 <= k < e1.len() implies e1[k] == s1[k] by {
                assert(e1[k] == self.entries@[k]@);
            }
            assert(e1 =~= s1);
        }
    }

    /// A point-in-time copy of the contents, sufficient to build a listing
    /// without touching the store again.
    pub fn snapshot(&self) -> (r: Vec<CacheRecord>)
        requires
            self.wf(),
        ensures
            urls_distinct(recs(r@)),
            map_of(recs(r@)) == self@,
    {
        let n = self.entries.len();
        let mut out: Vec<CacheRecord> = Vec::new();
        let mut i: usize = 0;
        while i < n
            invariant
                n == self.entries.len(),
                i <= n,
                out@.len() == i,
                forall|k: int| 0 <= k < i ==> recs(out@)[k] == recs(self.entries@)[k],
            decreases n - i,
        {
            let ghost out0 = out@;
            out.push(self.entries[i].duplicate());
            proof {
                assert forall|k: int| 0 <= k < i + 1 implies recs(out@)[k] == recs(
                    self.entries@,
                )[k] by {
                    assert(recs(out@)[k] == out@[k]@);
                    if k < i {
                        assert(out@[k] == out0[k]);
                        assert(recs(out0)[k] == out0[k]@);
                    }
                }
            }
            i += 1;
        }
        proof {
            assert(recs(out@) =~= recs(self.entries@));
        }
        out
    }
}

} // verus!
