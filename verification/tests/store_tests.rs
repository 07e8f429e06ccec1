use substrate_indexer::config::AppConfig;
use substrate_indexer::errors::AppError;
use substrate_indexer::models::{ChainInfo, Event, EventFilterInput, JsonValue};
use substrate_indexer::store::EventStore;

fn mk_chain(id: &str) -> ChainInfo {
    ChainInfo {
        id: id.to_string(),
        name: "Chain One".to_string(),
        version: "1.0.0".to_string(),
        token_symbol: "ONE".to_string(),
        decimals: 12,
        ssv58_prefix: 42,
        last_updated: 1_700_000_000_000,
    }
}

fn mk_event(id: &str, block_number: u64, timestamp: i64) -> Event {
    Event {
        id: id.to_string(),
        block_number,
        extrinsic_id: Some(format!("0x{}", id)),
        timestamp,
        pallet_name: "Balances".to_string(),
        event_name: "Transfer".to_string(),
        data: JsonValue::Object(vec![
            ("from".to_string(), JsonValue::Str("Alice".to_string())),
            ("to".to_string(), JsonValue::Str("Bob".to_string())),
            ("amount".to_string(), JsonValue::Int(1_000_000_000_000)),
        ]),
        chain_id: "c1".to_string(),
    }
}

#[test]
fn insert_then_get_returns_event_unchanged() {
    let mut store = EventStore::new(mk_chain("c1"));
    let e = mk_event("ev-1", 10000, 500);
    store.insert(e.clone());
    let got = store.get_by_id(&"ev-1".to_string());
    assert_eq!(got, Some(e));
}

#[test]
fn get_by_id_missing_returns_none() {
    let store = EventStore::new(mk_chain("c1"));
    assert_eq!(store.get_by_id(&"nope".to_string()), None);
}

#[test]
fn duplicate_insert_overwrites() {
    let mut store = EventStore::new(mk_chain("c1"));
    let first = mk_event("ev-1", 10000, 500);
    let mut second = mk_event("ev-1", 10001, 600);
    second.event_name = "Deposit".to_string();
    store.insert(first);
    store.insert(second.clone());
    let all = store.list(&None);
    assert_eq!(all.len(), 1);
    assert_eq!(all[0], second);
    assert_eq!(store.get_by_id(&"ev-1".to_string()), Some(second));
}

#[test]
fn list_block_range_scenario() {
    // Blocks 10000..=10004, timestamps increasing with the block number.
    let mut store = EventStore::new(mk_chain("c1"));
    for i in 0..5u64 {
        store.insert(mk_event(&format!("ev-{}", i), 10000 + i, 1000 + (i as i64) * 10));
    }
    let filter = EventFilterInput {
        pallet_name_eq: None,
        event_name_eq: None,
        block_number_gte: Some(10002),
        block_number_lte: None,
    };
    let r = store.list(&Some(filter));
    assert_eq!(r.len(), 3);
    let blocks: Vec<u64> = r.iter().map(|e| e.block_number).collect();
    assert_eq!(blocks, vec![10004, 10003, 10002]);
    // Newest first.
    assert!(r[0].timestamp >= r[1].timestamp && r[1].timestamp >= r[2].timestamp);
}

#[test]
fn list_applies_all_present_predicates() {
    let mut store = EventStore::new(mk_chain("c1"));
    let mut a = mk_event("a", 10, 1);
    a.pallet_name = "System".to_string();
    a.event_name = "NewAccount".to_string();
    let b = mk_event("b", 20, 2);
    let mut c = mk_event("c", 30, 3);
    c.event_name = "Deposit".to_string();
    store.insert(a);
    store.insert(b.clone());
    store.insert(c);
    let filter = EventFilterInput {
        pallet_name_eq: Some("Balances".to_string()),
        event_name_eq: Some("Transfer".to_string()),
        block_number_gte: Some(15),
        block_number_lte: Some(25),
    };
    let r = store.list(&Some(filter));
    assert_eq!(r, vec![b]);
}

#[test]
fn list_without_filter_returns_everything_newest_first() {
    let mut store = EventStore::new(mk_chain("c1"));
    store.insert(mk_event("old", 1, 100));
    store.insert(mk_event("new", 2, 300));
    store.insert(mk_event("mid", 3, 200));
    let r = store.list(&None);
    let ids: Vec<&str> = r.iter().map(|e| e.id.as_str()).collect();
    assert_eq!(ids, vec!["new", "mid", "old"]);
}

#[test]
fn list_keeps_events_with_equal_timestamps() {
    let mut store = EventStore::new(mk_chain("c1"));
    store.insert(mk_event("x", 1, 100));
    store.insert(mk_event("y", 2, 100));
    let r = store.list(&None);
    assert_eq!(r.len(), 2);
    let mut ids: Vec<&str> = r.iter().map(|e| e.id.as_str()).collect();
    ids.sort();
    assert_eq!(ids, vec!["x", "y"]);
}

#[test]
fn chain_info_batch_returns_only_existing_ids() {
    let store = EventStore::new(mk_chain("c1"));
    let r = store.get_chain_infos_batch(&vec!["c1".to_string(), "missing-id".to_string()]);
    assert_eq!(r.len(), 1);
    assert_eq!(r[0].0, "c1");
    assert_eq!(r[0].1.id, "c1");
}

#[test]
fn chain_info_batch_dedups_repeated_ids() {
    let store = EventStore::new(mk_chain("c1"));
    let r = store.get_chain_infos_batch(&vec![
        "c1".to_string(),
        "c1".to_string(),
        "c1".to_string(),
    ]);
    assert_eq!(r.len(), 1);
}

#[test]
fn max_block_number_scenario() {
    let mut store = EventStore::new(mk_chain("c1"));
    assert_eq!(store.max_block_number(), 0);
    store.insert(mk_event("ev-1", 10005, 500));
    assert_eq!(store.max_block_number(), 10005);
}

#[test]
fn max_block_number_takes_the_maximum() {
    let mut store = EventStore::new(mk_chain("c1"));
    store.insert(mk_event("a", 7, 1));
    store.insert(mk_event("b", 99, 2));
    store.insert(mk_event("c", 12, 3));
    assert_eq!(store.max_block_number(), 99);
}

#[test]
fn error_codes_and_details() {
    let cases = vec![
        (AppError::Config("c".to_string()), "CONFIG_ERROR", "c"),
        (AppError::Io("i".to_string()), "IO_ERROR", "i"),
        (AppError::Internal("x".to_string()), "INTERNAL_SERVER_ERROR", "x"),
        (AppError::NotFound("n".to_string()), "NOT_FOUND", "n"),
        (
            AppError::GraphQLExecution("g".to_string()),
            "GRAPHQL_EXECUTION_ERROR",
            "g",
        ),
        (AppError::ServiceError("s".to_string()), "SERVICE_ERROR", "s"),
    ];
    for (err, code, detail) in cases {
        assert_eq!(err.code(), code);
        assert_eq!(err.detail(), detail);
    }
}

#[test]
fn json_value_clone_is_deep() {
    let v = JsonValue::Object(vec![
        (
            "items".to_string(),
            JsonValue::Array(vec![
                JsonValue::Null,
                JsonValue::Bool(true),
                JsonValue::Int(-7),
                JsonValue::Str("text".to_string()),
            ]),
        ),
        ("empty".to_string(), JsonValue::Array(vec![])),
    ]);
    let copy = v.clone();
    assert_eq!(copy, v);
}

#[test]
fn config_defaults_match_generated_file() {
    let c = AppConfig::default();
    assert_eq!(c.server.host, "127.0.0.1");
    assert_eq!(c.server.port, 8080);
    assert_eq!(c.logger.level, "info");
    assert_eq!(c.mock_event_min_delay_secs, 5);
    assert_eq!(c.mock_event_max_delay_secs, 15);
    assert!(c.mock_event_min_delay_secs <= c.mock_event_max_delay_secs);
}
