use forward_cache::clock::now;
use forward_cache::codec::Base64String;
use forward_cache::listing::{list_summaries, ResponseSummary};
use forward_cache::auth::ApiKey;
use forward_cache::codec::DecodeError;
use forward_cache::pages::{index_noauth, request_alt, FailureContext};
use forward_cache::proxy::proxy_at;
use forward_cache::store::{CacheRecord, CacheStore};

fn record(url: &str, fetched_at: u64, body: &str, hits: usize) -> CacheRecord {
    CacheRecord { url: url.to_string(), fetched_at, body: body.to_string(), hits }
}

#[test]
fn proxy_serves_fresh_body_without_fetching() {
    let mut store = CacheStore::new();
    store.insert(record("x://unreachable", 100, "cached-body", 1));
    // The URL cannot be fetched at all, so a returned body proves the cache
    // answered; two immediate calls return identical bodies and count hits.
    let first = proxy_at(&mut store, 50, Base64String("x://unreachable".to_string()), 100);
    assert_eq!(first.as_deref(), Some("cached-body"));
    let second = proxy_at(&mut store, 50, Base64String("x://unreachable".to_string()), 100);
    assert_eq!(second.as_deref(), Some("cached-body"));
    let snap = store.snapshot();
    assert_eq!(snap.len(), 1);
    assert_eq!(snap[0].hits, 3);
    assert_eq!(snap[0].fetched_at, 100);
}

#[test]
fn failed_fetch_leaves_prior_record_unchanged() {
    let mut store = CacheStore::new();
    store.insert(record("x://unreachable", 100, "cached-body", 1));
    // Stale at t=200 under a window of 10, so the origin is consulted; the
    // scheme is unfetchable, and the old record must survive untouched.
    let got = proxy_at(&mut store, 10, Base64String("x://unreachable".to_string()), 200);
    assert!(got.is_none());
    let snap = store.snapshot();
    assert_eq!(snap.len(), 1);
    assert_eq!(snap[0].url, "x://unreachable");
    assert_eq!(snap[0].fetched_at, 100);
    assert_eq!(snap[0].body, "cached-body");
    assert_eq!(snap[0].hits, 1);
}

#[test]
fn failed_fetch_caches_nothing() {
    let mut store = CacheStore::new();
    let got = proxy_at(&mut store, 10, Base64String("x://unreachable".to_string()), 200);
    assert!(got.is_none());
    assert_eq!(store.snapshot().len(), 0);
}

#[test]
fn listing_sorts_by_timestamp_descending() {
    let mut store = CacheStore::new();
    store.insert(record("http://a", 100, "aa", 1));
    store.insert(record("http://b", 300, "b", 2));
    store.insert(record("http://c", 200, "ccc", 3));
    let out = list_summaries(&store.snapshot());
    let stamps: Vec<u64> = out.iter().map(|e| e.1.timestamp).collect();
    assert_eq!(stamps, vec![300, 200, 100]);
    assert_eq!(out[0].0, "http://b");
    assert_eq!(out[1].0, "http://c");
    assert_eq!(out[2].0, "http://a");
}

#[test]
fn listing_reports_bytes_and_hits() {
    let rec = record("http://a", 7, "h\u{e9}llo", 4);
    let summary = ResponseSummary::from_record(&rec);
    assert_eq!(summary.timestamp, 7);
    // five characters, six bytes: the listing counts bytes
    assert_eq!(summary.bytes, 6);
    assert_eq!(summary.hits, 4);
    let out = list_summaries(&vec![rec]);
    assert_eq!(out.len(), 1);
    assert_eq!(out[0].1, summary);
}

#[test]
fn listing_of_empty_snapshot_is_empty() {
    assert!(list_summaries(&Vec::new()).is_empty());
}

#[test]
fn clock_is_monotone_in_one_test() {
    let t1 = now();
    let t2 = now();
    assert!(t2 >= t1);
}

#[test]
fn noauth_notice_is_fixed() {
    assert_eq!(index_noauth(), "Looking at the UI still requires authentication");
}

#[test]
fn failure_context_names_each_failure() {
    let with_key = Some(ApiKey("k".to_string()));
    let ok = Ok(Base64String("http://example.com".to_string()));
    let ctx: FailureContext = request_alt(&with_key, "60".to_string(), &ok);
    assert_eq!(ctx.duration, "60");
    assert_eq!(ctx.url, "http://example.com");
    assert!(ctx.error.is_none());

    let ctx = request_alt(&None, "60".to_string(), &ok);
    assert_eq!(ctx.error.as_deref(), Some("Key error"));

    let bad: Result<Base64String, DecodeError> = Err(DecodeError::Base64);
    let ctx = request_alt(&with_key, "oops".to_string(), &bad);
    assert_eq!(ctx.duration, "oops");
    assert_eq!(ctx.url, "Not available");
    assert_eq!(ctx.error.as_deref(), Some("Decode Error"));

    let bad: Result<Base64String, DecodeError> = Err(DecodeError::Utf8);
    let ctx = request_alt(&None, "1".to_string(), &bad);
    assert_eq!(ctx.error.as_deref(), Some("String Encode Error"));
}
