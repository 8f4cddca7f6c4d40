//! The listing view: a summary of a snapshot of the cache — URL, fetch
//! time, body size in bytes and hit count per record — ordered newest
//! first. A pure read: it never touches the store's hit counts.

use crate::store::{recs, CacheRecord, Rec};
use vstd::prelude::*;

verus! {

broadcast use vstd::seq_lib::group_to_multiset_ensures, vstd::multiset::group_multiset_axioms;

/// What the listing shows of one record.
#[derive(PartialEq, Eq, Structural, Clone, Copy, Debug)]
pub struct ResponseSummary {
    pub timestamp: u64,
    pub bytes: usize,
    pub hits: usize,
}

/// The summary a record denotes: its fetch time, its body's size in bytes,
/// and its hit count.
pub open spec fn summary_of(r: Rec) -> ResponseSummary {
    ResponseSummary {
        timestamp: r.fetched_at,
        bytes: vstd::utf8::encode_utf8(r.body).len() as usize,
        hits: r.hits,
    }
}

impl ResponseSummary {
    /// Build the summary of one record.
    pub fn from_record(r: &CacheRecord) -> (s: ResponseSummary)
        ensures
            s == summary_of(r@),
    {
        ResponseSummary { timestamp: r.fetched_at, bytes: r.body.as_str().len(), hits: r.hits }
    }
}

/// The listing pairs that a sequence of records denotes.
pub open spec fn pairs_of(s: Seq<Rec>) -> Seq<(Seq<char>, ResponseSummary)> {
    s.map_values(|r: Rec| (r.url, summary_of(r)))
}

/// The image of built listing entries.
pub open spec fn entry_views(s: Seq<(String, ResponseSummary)>) -> Seq<
    (Seq<char>, ResponseSummary),
> {
    s.map_values(|p: (String, ResponseSummary)| (p.0@, p.1))
}

/// Newest first: fetch times never increase along the sequence.
pub open spec fn sorted_desc(s: Seq<(Seq<char>, ResponseSummary)>) -> bool {
    forall|i: int, j: int| 0 <= i < j < s.len() ==> s[i].1.timestamp >= s[j].1.timestamp
}

/// The listing view of a snapshot: exactly its records' summaries — the
/// same multiset of (URL, summary) pairs — sorted by fetch time descending.
pub fn list_summaries(snapshot: &Vec<CacheRecord>) -> (out: Vec<(String, ResponseSummary)>)
    ensures
        sorted_desc(entry_views(out@)),
        entry_views(out@).to_multiset() == pairs_of(recs(snapshot@)).to_multiset(),
{
    let ghost total = pairs_of(recs(snapshot@));
    let n = snapshot.len();
    let mut work: Vec<(String, ResponseSummary)> = Vec::new();
    let mut i: usize = 0;
    while i < n
        invariant
            n == snapshot@.len(),
            i <= n,
            work@.len() == i,
            forall|k: int| 0 <= k < i ==> entry_views(work@)[k] == pairs_of(recs(snapshot@))[k],
        decreases n - i,
    {
        let ghost w0 = work@;
        let r = &snapshot[i];
        work.push((r.url.clone(), ResponseSummary::from_record(r)));
        proof {
            assert forall|k: int| 0 <= k < i + 1 implies entry_views(work@)[k] == pairs_of(
                recs(snapshot@),
            )[k] by {
                assert(entry_views(work@)[k] == (work@[k].0@, work@[k].1));
                if k < i {
                    assert(work@[k] == w0[k]);
                    assert(entry_views(w0)[k] == (w0[k].0@, w0[k].1));
                }
                assert(recs(snapshot@)[k] == snapshot@[k]@);
            }
        }
        i += 1;
    }
    proof {
        assert(entry_views(work@) =~= total);
    }
    let mut out: Vec<(String, ResponseSummary)> = Vec::new();
    while work.len() > 0
        invariant
            entry_views(out@).to_multiset().add(entry_views(work@).to_multiset())
                == total.to_multiset(),
            sorted_desc(entry_views(out@)),
            forall|a: int, b: int|
                0 <= a < out@.len() && 0 <= b < work@.len() ==> entry_views(out@)[a].1.timestamp
                    >= entry_views(work@)[b].1.timestamp,
        decreases work@.len(),
    {
        let m = work.len();
        let mut best: usize = 0;
        let mut j: usize = 1;
        while j < m
            invariant
                m == work@.len(),
                0 < m,
                best < m,
                j <= m,
                forall|k: int|
                    0 <= k < j ==> work@[best as int].1.timestamp >= work@[k].1.timestamp,
            decreases m - j,
        {
            if work[j].1.timestamp > work[best].1.timestamp {
                best = j;
            }
            j += 1;
        }
        let ghost w0 = work@;
        let ghost o0 = out@;
        let ghost x = entry_views(w0)[best as int];
        let item = work.remove(best);
        out.push(item);
        proof {
            assert(entry_views(out@) =~= entry_views(o0).push(x)) by {
                assert forall|k: int| 0 <= k < out@.len() implies entry_views(out@)[k]
                    == entry_views(o0).push(x)[k] by {
                    assert(entry_views(out@)[k] == (out@[k].0@, out@[k].1));
                    if k < o0.len() {
                        assert(out@[k] == o0[k]);
                        assert(entry_views(o0)[k] == (o0[k].0@, o0[k].1));
                    } else {
                        assert(out@[k] == w0[best as int]);
                    }
                }
            }
            assert(entry_views(work@) =~= entry_views(w0).remove(best as int)) by {
                assert forall|k: int| 0 <= k < work@.len() implies entry_views(work@)[k]
                    == entry_views(w0).remove(best as int)[k] by {
                    assert(entry_views(work@)[k] == (work@[k].0@, work@[k].1));
                    if k < best {
                        assert(work@[k] == w0[k]);
                        assert(entry_views(w0)[k] == (w0[k].0@, w0[k].1));
                    } else {
                        assert(work@[k] == w0[k + 1]);
                        assert(entry_views(w0)[k + 1] == (w0[k + 1].0@, w0[k + 1].1));
                    }
                }
            }
            assert(entry_views(w0).contains(x)) by {
                assert(entry_views(w0)[best as int] == x);
            }
            assert(entry_views(w0).to_multiset().count(x) > 0);
            assert(entry_views(out@).to_multiset().add(entry_views(work@).to_multiset())
                == total.to_multiset()) by {
                let om = entry_views(o0).to_multiset();
                let wm = entry_views(w0).to_multiset();
                assert(entry_views(out@).to_multiset() =~= om.insert(x));
                assert(entry_views(work@).to_multiset() =~= wm.remove(x));
                assert forall|e: (Seq<char>, ResponseSummary)|
                    om.insert(x).add(wm.remove(x)).count(e) == om.add(wm).count(e) by {}
                assert(om.insert(x).add(wm.remove(x)) =~= om.add(wm));
            }
            assert(sorted_desc(entry_views(out@))) by {
                let ev = entry_views(out@);
                assert forall|a: int, b: int| 0 <= a < b < ev.len() implies ev[a].1.timestamp
                    >= ev[b].1.timestamp by {
                    if b < o0.len() {
                        assert(ev[a] == entry_views(o0)[a] && ev[b] == entry_views(o0)[b]);
                    } else {
                        assert(ev[b] == x);
                        assert(x.1 == w0[best as int].1);
                        assert(ev[a] == entry_views(o0)[a]);
                        assert(entry_views(w0)[best as int].1 == w0[best as int].1);
                    }
                }
            }
            assert forall|a: int, b: int|
                0 <= a < out@.len() && 0 <= b < work@.len() implies entry_views(
                out@,
            )[a].1.timestamp >= entry_views(work@)[b].1.timestamp by {
                let wv = entry_views(work@);
                assert(wv[b] == entry_views(w0).remove(best as int)[b]);
                if b < best {
                    assert(entry_views(w0)[b] == (w0[b].0@, w0[b].1));
                    assert(w0[best as int].1.timestamp >= w0[b].1.timestamp);
                } else {
                    assert(entry_views(w0)[b + 1] == (w0[b + 1].0@, w0[b + 1].1));
                    assert(w0[best as int].1.timestamp >= w0[b + 1].1.timestamp);
                }
                if a < o0.len() {
                    assert(entry_views(out@)[a] == entry_views(o0)[a]);
                } else {
                    assert(entry_views(out@)[a] == x);
                }
            }
        }
    }
    proof {
        assert forall|e: (Seq<char>, ResponseSummary)|
            entry_views(work@).to_multiset().count(e) == 0 by {
            if entry_views(work@).to_multiset().count(e) > 0 {
                assert(entry_views(work@).contains(e));
            }
        }
        assert(entry_views(out@).to_multiset() =~= total.to_multiset());
    }
    out
}

} // verus!
