//! The proxy orchestrator: serve a fresh cached body, otherwise fetch the
//! origin, remember what it returned, and hand it back. A failed fetch
//! changes nothing and is not retried.

use crate::auth::ApiKey;
use crate::clock::now;
use crate::codec::Base64String;
use crate::fetcher::fetch;
use crate::store::{bump_rec, is_fresh, CacheRecord, CacheStore, Rec};
use vstd::prelude::*;

verus! {

/// How one proxy step at time `t` relates the store before (`pre`) and
/// after (`post`) to the returned body `r` for URL `u` and window `w`:
/// a fresh record is served as it stands, with its hit count bumped; on a
/// miss the origin decides — a fetched body becomes the new record with one
/// hit, and a failure leaves the store unchanged with nothing returned.
pub open spec fn proxy_post(
    pre: Map<Seq<char>, Rec>,
    post: Map<Seq<char>, Rec>,
    u: Seq<char>,
    w: u64,
    t: u64,
    r: Option<Seq<char>>,
) -> bool {
    if is_fresh(pre, u, w, t) {
        r == Some(pre[u].body) && post == pre.insert(u, bump_rec(pre[u]))
    } else {
        match r {
            Some(b) => post == pre.insert(u, Rec { url: u, fetched_at: t, body: b, hits: 1 }),
            None => post == pre,
        }
    }
}

/// One proxy step at an explicit time `req_time`: the freshness-checked
/// lookup, and on a miss the origin fetch and the write-back.
pub fn proxy_at(store: &mut CacheStore, duration: u64, url: Base64String, req_time: u64) -> (r:
    Option<String>)
    requires
        old(store).wf(),
    ensures
        final(store).wf(),
        proxy_post(old(store)@, final(store)@, url@, duration, req_time, r.deep_view()),
        r is None ==> final(store)@ == old(store)@,
        old(store)@.contains_key(url@) ==> final(store)@.contains_key(url@)
            && final(store)@[url@].fetched_at >= old(store)@[url@].fetched_at,
{
    let Base64String(target) = url;
    match store.lookup_fresh(&target, duration, req_time) {
        Some(rec) => Some(rec.body),
        None => match fetch(&target) {
            Ok(body) => {
                let stored = body.clone();
                store.insert(
                    CacheRecord { url: target, fetched_at: req_time, body: stored, hits: 1 },
                );
                Some(body)
            },
            Err(_) => None,
        },
    }
}

/// The proxy endpoint: read the clock, then one proxy step at that time.
pub fn proxy(store: &mut CacheStore, duration: u64, url: Base64String) -> (r: Option<String>)
    requires
        old(store).wf(),
    ensures
        final(store).wf(),
        exists|t: u64|
            #[trigger] proxy_post(old(store)@, final(store)@, url@, duration, t, r.deep_view()),
        r is None ==> final(store)@ == old(store)@,
        old(store)@.contains_key(url@) ==> final(store)@.contains_key(url@)
            && final(store)@[url@].fetched_at >= old(store)@[url@].fetched_at,
{
    let req_time = now();
    let r = proxy_at(store, duration, url, req_time);
    proof {
        assert(proxy_post(old(store)@, store@, url@, duration, req_time, r.deep_view()));
    }
    r
}

/// Proxy a request whose credential arrived as a header and has already
/// passed the guard.
pub fn request_auth_by_header(
    store: &mut CacheStore,
    _key: &ApiKey,
    duration: u64,
    url: Base64String,
) -> (r: Option<String>)
    requires
        old(store).wf(),
    ensures
        final(store).wf(),
        exists|t: u64|
            #[trigger] proxy_post(old(store)@, final(store)@, url@, duration, t, r.deep_view()),
        r is None ==> final(store)@ == old(store)@,
{
    proxy(store, duration, url)
}

/// Proxy a request whose credential arrived as a path segment and has
/// already passed the guard.
pub fn request_auth_by_param(
    store: &mut CacheStore,
    duration: u64,
    url: Base64String,
    _key: &ApiKey,
) -> (r: Option<String>)
    requires
        old(store).wf(),
    ensures
        final(store).wf(),
        exists|t: u64|
            #[trigger] proxy_post(old(store)@, final(store)@, url@, duration, t, r.deep_view()),
        r is None ==> final(store)@ == old(store)@,
{
    proxy(store, duration, url)
}

/// Law: two immediately successive proxy calls for the same URL agree.
/// If a call at time `t` misses and the origin hands back body `b`, the
/// store then holds `b` for `u` with one hit; at that same time, any
/// window `w > 0` finds that record fresh, so the next call returns the
/// identical body and only bumps the hit count from one to two — the fresh
/// branch of `proxy_post` involves no origin outcome, so no fetch happens.
/// (With `w == 0` the stored record is already stale at `t` and the second
/// call would fetch again.)
pub proof fn lemma_proxy_twice(pre: Map<Seq<char>, Rec>, u: Seq<char>, w: u64, t: u64, b: Seq<
    char,
>)
    requires
        w > 0,
        !is_fresh(pre, u, w, t),
    ensures
        ({
            let first = Rec { url: u, fetched_at: t, body: b, hits: 1 };
            let m1 = pre.insert(u, first);
            let m2 = m1.insert(u, bump_rec(first));
            &&& proxy_post(pre, m1, u, w, t, Some(b))
            &&& is_fresh(m1, u, w, t)
            &&& proxy_post(m1, m2, u, w, t, Some(b))
            &&& m2[u].hits == 2
            &&& m2[u].body == b
        }),
{
}

} // verus!
