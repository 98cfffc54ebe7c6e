use poly_ob::store::{
    assemble_record, candidate_record, cas_decide, parse_timestamp, record_key, BookStore, CasError,
    CasOutcome, UPDATES_CHANNEL,
};
use poly_ob::types::{BookLevel, OrderBookSnapshot, RedisBookRecord};

fn s(x: &str) -> String {
    x.to_string()
}

fn snapshot(asset: &str, hash: &str, ts: &str) -> OrderBookSnapshot {
    OrderBookSnapshot {
        market: s("M"),
        asset_id: s(asset),
        hash: s(hash),
        timestamp: s(ts),
        bids: vec![BookLevel { price: s("0.50"), size: s("10") }],
        asks: vec![BookLevel { price: s("0.51"), size: s("8") }],
        min_order_size: None,
        neg_risk: None,
        tick_size: None,
    }
}

fn record(ob: &OrderBookSnapshot, now_ms: i64) -> RedisBookRecord {
    candidate_record(
        ob,
        s("[{\"price\":\"0.50\",\"size\":\"10\"}]"),
        s("[{\"price\":\"0.51\",\"size\":\"8\"}]"),
        now_ms,
    )
}

/// Feeds one snapshot through the update; reports the outcome and whether it
/// is published.
fn ingest(store: &mut BookStore, ob: &OrderBookSnapshot, now_ms: i64) -> (CasOutcome, bool) {
    let out = store.cas_upsert(&ob.asset_id, record(ob, now_ms)).unwrap();
    (out, out.should_publish())
}

#[test]
fn first_snapshot_accepted() {
    let mut store = BookStore::new();
    let ob = snapshot("A", "h1", "1000");
    let (out, publish) = ingest(&mut store, &ob, 5);
    assert_eq!(out, CasOutcome::Updated);
    assert_eq!(out.as_str(), "updated");
    assert!(publish);
    let rec = store.get(&s("A")).unwrap();
    assert_eq!(rec.hash, "h1");
    assert_eq!(rec.timestamp, "1000");
    assert_eq!(rec.market, "M");
    assert_eq!(rec.updated_at, 5);
    assert_eq!(rec.bids, "[{\"price\":\"0.50\",\"size\":\"10\"}]");
    assert_eq!(store.len(), 1);
}

#[test]
fn duplicate_hash_skipped() {
    let mut store = BookStore::new();
    let ob = snapshot("A", "h1", "1000");
    ingest(&mut store, &ob, 5);
    let (out, publish) = ingest(&mut store, &ob, 9);
    assert_eq!(out, CasOutcome::SkipHash);
    assert_eq!(out.as_str(), "skip_hash");
    assert!(!publish);
    assert_eq!(store.get(&s("A")).unwrap().updated_at, 5);
}

#[test]
fn stale_timestamp_skipped() {
    let mut store = BookStore::new();
    ingest(&mut store, &snapshot("A", "h1", "1000"), 5);
    let (out, publish) = ingest(&mut store, &snapshot("A", "h0", "900"), 9);
    assert_eq!(out, CasOutcome::SkipTs);
    assert_eq!(out.as_str(), "skip_ts");
    assert!(!publish);
    let rec = store.get(&s("A")).unwrap();
    assert_eq!(rec.hash, "h1");
    assert_eq!(rec.timestamp, "1000");
}

#[test]
fn new_snapshot_replaces_record() {
    let mut store = BookStore::new();
    ingest(&mut store, &snapshot("A", "h1", "1000"), 5);
    let (out, publish) = ingest(&mut store, &snapshot("A", "h2", "1005"), 9);
    assert_eq!(out, CasOutcome::Updated);
    assert!(publish);
    let rec = store.get(&s("A")).unwrap();
    assert_eq!(rec.hash, "h2");
    assert_eq!(rec.timestamp, "1005");
    assert_eq!(rec.updated_at, 9);
    assert_eq!(store.len(), 1);
}

#[test]
fn stale_redelivery_of_current_is_skip_hash() {
    let mut store = BookStore::new();
    ingest(&mut store, &snapshot("A", "h1", "1000"), 5);
    let (out, _) = ingest(&mut store, &snapshot("A", "h1", "900"), 9);
    assert_eq!(out, CasOutcome::SkipHash);
}

#[test]
fn equal_timestamp_with_new_hash_is_written() {
    let mut store = BookStore::new();
    ingest(&mut store, &snapshot("A", "h1", "1000"), 5);
    let (out, _) = ingest(&mut store, &snapshot("A", "h2", "1000"), 9);
    assert_eq!(out, CasOutcome::Updated);
}

#[test]
fn assets_are_independent() {
    let mut store = BookStore::new();
    ingest(&mut store, &snapshot("A", "h1", "1000"), 5);
    let (out, _) = ingest(&mut store, &snapshot("B", "h1", "10"), 6);
    assert_eq!(out, CasOutcome::Updated);
    assert_eq!(store.len(), 2);
    assert_eq!(store.get(&s("A")).unwrap().timestamp, "1000");
    assert_eq!(store.get(&s("B")).unwrap().timestamp, "10");
    assert!(store.get(&s("C")).is_none());
}

#[test]
fn stored_timestamps_never_decrease() {
    let mut store = BookStore::new();
    let arrivals = [("h1", "1000"), ("h3", "1010"), ("h2", "1005"), ("h4", "1020"), ("h0", "990")];
    let mut last = 0u64;
    for (h, t) in arrivals {
        ingest(&mut store, &snapshot("A", h, t), 1);
        let cur = parse_timestamp(&store.get(&s("A")).unwrap().timestamp).unwrap();
        assert!(cur >= last);
        last = cur;
    }
    assert_eq!(last, 1020);
}

#[test]
fn consecutive_records_differ_in_hash() {
    let mut store = BookStore::new();
    let arrivals = [("h1", "1000"), ("h1", "1000"), ("h2", "1001"), ("h2", "1001"), ("h3", "1002")];
    let mut hashes: Vec<String> = Vec::new();
    for (h, t) in arrivals {
        let (out, _) = ingest(&mut store, &snapshot("A", h, t), 1);
        if out == CasOutcome::Updated {
            hashes.push(store.get(&s("A")).unwrap().hash);
        }
    }
    assert_eq!(hashes, vec![s("h1"), s("h2"), s("h3")]);
}

#[test]
fn each_version_published_once() {
    let mut store = BookStore::new();
    let arrivals = [
        ("A", "h1", "1000"),
        ("A", "h1", "1000"),
        ("B", "h1", "7"),
        ("A", "h2", "1005"),
        ("A", "h1", "1000"),
        ("B", "h1", "7"),
        ("A", "h2", "1005"),
    ];
    let mut published: Vec<(String, String)> = Vec::new();
    for (a, h, t) in arrivals {
        let (_, publish) = ingest(&mut store, &snapshot(a, h, t), 1);
        if publish {
            published.push((s(a), s(h)));
        }
    }
    assert_eq!(published, vec![(s("A"), s("h1")), (s("B"), s("h1")), (s("A"), s("h2"))]);
}

#[test]
fn invalid_timestamp_is_error() {
    let mut store = BookStore::new();
    let r = store.cas_upsert(&s("A"), record(&snapshot("A", "h1", "10x"), 1));
    assert_eq!(r, Err(CasError::InvalidTimestamp));
    assert_eq!(store.len(), 0);
    let r = store.cas_upsert(&s("A"), record(&snapshot("A", "h1", ""), 1));
    assert_eq!(r, Err(CasError::InvalidTimestamp));
}

#[test]
fn parse_timestamp_values() {
    assert_eq!(parse_timestamp("0"), Some(0));
    assert_eq!(parse_timestamp("1000"), Some(1000));
    assert_eq!(parse_timestamp("18446744073709551615"), Some(u64::MAX));
    assert_eq!(parse_timestamp("18446744073709551616"), None);
    assert_eq!(parse_timestamp("-1"), None);
    assert_eq!(parse_timestamp(""), None);
    assert_eq!(parse_timestamp("12 "), None);
}

#[test]
fn decide_without_record() {
    let ob = snapshot("A", "h1", "0");
    assert_eq!(cas_decide(None, &record(&ob, 1)), Ok(CasOutcome::Updated));
}

#[test]
fn reply_words_round_trip() {
    for o in [CasOutcome::Updated, CasOutcome::SkipHash, CasOutcome::SkipTs] {
        assert_eq!(CasOutcome::from_reply(&o.as_str().to_string()), Some(o));
    }
    assert_eq!(CasOutcome::from_reply(&s("other")), None);
    assert!(CasOutcome::Updated.should_publish());
    assert!(!CasOutcome::SkipTs.should_publish());
}

#[test]
fn key_and_channel() {
    assert_eq!(record_key(&s("A")), "ob:A");
    assert_eq!(UPDATES_CHANNEL, "ob_updates");
}

#[test]
fn assemble_needs_every_field() {
    let r = assemble_record(Some(s("b")), Some(s("a")), Some(s("h")), Some(s("1")), Some(3), Some(s("m")));
    let r = r.unwrap();
    assert_eq!(r.bids, "b");
    assert_eq!(r.asks, "a");
    assert_eq!(r.hash, "h");
    assert_eq!(r.timestamp, "1");
    assert_eq!(r.updated_at, 3);
    assert_eq!(r.market, "m");
    assert!(assemble_record(Some(s("b")), Some(s("a")), Some(s("h")), Some(s("1")), None, Some(s("m"))).is_none());
}
