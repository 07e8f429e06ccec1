use substrate_indexer::config::AppConfig;
use substrate_indexer::dataloader::{ChainInfoLoader, ChainInfoLoaderKey, distinct_keys};
use substrate_indexer::fanout::{Broadcaster, RecvOutcome};
use substrate_indexer::indexer::SubstrateIndexerService;
use substrate_indexer::models::{Event, JsonValue};
use substrate_indexer::schema::{QueryRoot, SubscriptionRoot};

fn mk_event(id: &str, block_number: u64, timestamp: i64) -> Event {
    Event {
        id: id.to_string(),
        block_number,
        extrinsic_id: None,
        timestamp,
        pallet_name: "Balances".to_string(),
        event_name: "Transfer".to_string(),
        data: JsonValue::Null,
        chain_id: "polkadot-mainnet-mock".to_string(),
    }
}

#[test]
fn service_seeds_the_mock_chain() {
    let svc = SubstrateIndexerService::new(AppConfig::default());
    let chain = svc.get_chain_info();
    assert_eq!(chain.id, "polkadot-mainnet-mock");
    assert_eq!(chain.token_symbol, "MDOT");
    let all = svc.list_events(&None);
    assert!(1 <= all.len() && all.len() <= 5);
    for e in &all {
        assert_eq!(e.pallet_name, "Balances");
        assert_eq!(e.event_name, "Transfer");
        assert!(10000 <= e.block_number && e.block_number <= 10004);
    }
    assert_eq!(svc.max_block_number(), 10004);
}

#[test]
fn subscription_after_insert_sees_later_events_only() {
    let mut svc = SubstrateIndexerService::new(AppConfig::default());
    let e1 = mk_event("sub-e1", 20000, 100);
    let e2 = mk_event("sub-e2", 20001, 200);
    svc.insert(e1);
    let mut sub = svc.watch_events();
    // Nothing published since the subscription: the cursor is up to date.
    assert_eq!(svc.poll_events(&mut sub), RecvOutcome::Pending);
    svc.insert(e2.clone());
    // e2 is observed; e1 is not replayed.
    assert_eq!(svc.poll_events(&mut sub), RecvOutcome::Received(e2));
    assert_eq!(svc.poll_events(&mut sub), RecvOutcome::Pending);
}

#[test]
fn lagged_subscriber_gets_a_gap_signal() {
    let mut channel = Broadcaster::new(3);
    let mut sub = channel.subscribe();
    let events: Vec<Event> = (0..5u64)
        .map(|i| mk_event(&format!("lag-{}", i), 30000 + i, 100 + i as i64))
        .collect();
    for e in &events {
        channel.publish(e);
    }
    // Five events were published over a capacity of three: the two
    // oldest were dropped for this subscriber.
    assert_eq!(channel.try_recv(&mut sub), RecvOutcome::Lagged(2));
    // Delivery resumes at the oldest retained event, in publish order.
    assert_eq!(channel.try_recv(&mut sub), RecvOutcome::Received(events[2].clone()));
    assert_eq!(channel.try_recv(&mut sub), RecvOutcome::Received(events[3].clone()));
    assert_eq!(channel.try_recv(&mut sub), RecvOutcome::Received(events[4].clone()));
    assert_eq!(channel.try_recv(&mut sub), RecvOutcome::Pending);
}

#[test]
fn subscriber_within_capacity_misses_nothing() {
    let mut channel = Broadcaster::new(3);
    let mut sub = channel.subscribe();
    let a = mk_event("keep-a", 1, 1);
    let b = mk_event("keep-b", 2, 2);
    channel.publish(&a);
    channel.publish(&b);
    assert_eq!(channel.try_recv(&mut sub), RecvOutcome::Received(a));
    assert_eq!(channel.try_recv(&mut sub), RecvOutcome::Received(b));
    assert_eq!(channel.try_recv(&mut sub), RecvOutcome::Pending);
}

#[test]
fn distinct_keys_dedups_within_window() {
    let keys = vec![
        "k1".to_string(),
        "k2".to_string(),
        "k1".to_string(),
        "k1".to_string(),
        "k3".to_string(),
        "k2".to_string(),
    ];
    let distinct = distinct_keys(&keys);
    assert_eq!(distinct, vec!["k1".to_string(), "k2".to_string(), "k3".to_string()]);
}

#[test]
fn batch_window_dedups_and_answers_every_caller() {
    let svc = SubstrateIndexerService::new(AppConfig::default());
    let mut loader = ChainInfoLoader::new();
    let known = ChainInfoLoaderKey("polkadot-mainnet-mock".to_string());
    let missing = ChainInfoLoaderKey("missing-id".to_string());
    // Four callers, two distinct keys, one window.
    let t0 = loader.load_one(&known);
    let t1 = loader.load_one(&known);
    let t2 = loader.load_one(&missing);
    let t3 = loader.load_one(&known);
    assert_eq!((t0, t1, t2, t3), (0, 1, 2, 3));
    let results = loader.flush(&svc);
    assert_eq!(results.len(), 4);
    assert_eq!(results[0].as_ref().map(|c| c.id.as_str()), Some("polkadot-mainnet-mock"));
    assert_eq!(results[1], results[0]);
    assert_eq!(results[2], None);
    assert_eq!(results[3], results[0]);
    // The next window starts empty.
    let empty = loader.flush(&svc);
    assert_eq!(empty.len(), 0);
}

#[test]
fn loader_load_resolves_each_existing_key() {
    let svc = SubstrateIndexerService::new(AppConfig::default());
    let loader = ChainInfoLoader::new();
    let keys = vec![
        ChainInfoLoaderKey("polkadot-mainnet-mock".to_string()),
        ChainInfoLoaderKey("missing-id".to_string()),
    ];
    let pairs = loader.load(&svc, &keys);
    assert_eq!(pairs.len(), 1);
    assert_eq!(pairs[0].0, "polkadot-mainnet-mock");
    assert_eq!(pairs[0].1.id, "polkadot-mainnet-mock");
}

#[test]
fn simulate_new_event_extends_the_chain() {
    let mut svc = SubstrateIndexerService::new(AppConfig::default());
    let mut sub = svc.watch_events();
    let before = svc.max_block_number();
    let ev = svc.simulate_new_event();
    assert!(ev.block_number > before && ev.block_number <= before + 4);
    let shapes = (ev.pallet_name.as_str(), ev.event_name.as_str());
    assert!(shapes == ("System", "NewAccount") || shapes == ("Timestamp", "TimestampSet"));
    assert_eq!(ev.chain_id, "polkadot-mainnet-mock");
    // The simulated event is stored and broadcast as one operation.
    assert_eq!(svc.get_event_by_id(&ev.id), Some(ev.clone()));
    assert_eq!(svc.poll_events(&mut sub), RecvOutcome::Received(ev.clone()));
    assert_eq!(svc.max_block_number(), ev.block_number);
}

#[test]
fn query_root_basics() {
    let q = QueryRoot;
    assert_eq!(q.health_check(), "OK");
    assert_eq!(q.echo("hello".to_string()), "hello");
}

#[test]
fn query_root_delegates_to_the_service() {
    let mut svc = SubstrateIndexerService::new(AppConfig::default());
    let q = QueryRoot;
    assert_eq!(q.chain_info(&svc).id, "polkadot-mainnet-mock");
    let e = mk_event("query-e", 40000, 1);
    svc.insert(e.clone());
    assert_eq!(q.event(&svc, &"query-e".to_string()), Some(e));
    assert_eq!(q.event(&svc, &"absent".to_string()), None);
    let listed = q.events(&svc, &None);
    assert!(listed.iter().any(|ev| ev.id == "query-e"));
}

#[test]
fn subscription_root_opens_a_live_cursor() {
    let mut svc = SubstrateIndexerService::new(AppConfig::default());
    let s = SubscriptionRoot;
    let mut sub = s.events(&svc);
    assert_eq!(svc.poll_events(&mut sub), RecvOutcome::Pending);
    let e = mk_event("live-e", 50000, 1);
    svc.insert(e.clone());
    assert_eq!(svc.poll_events(&mut sub), RecvOutcome::Received(e));
}

#[test]
fn event_chain_relationship_resolves_or_fails_not_found() {
    let svc = SubstrateIndexerService::new(AppConfig::default());
    let good = mk_event("rel-good", 1, 1);
    let chain = good.chain(&svc).expect("chain should resolve");
    assert_eq!(chain.id, "polkadot-mainnet-mock");
    assert_eq!(chain.current_block_height(&svc), svc.max_block_number());
    let mut bad = mk_event("rel-bad", 2, 2);
    bad.chain_id = "nope".to_string();
    let err = bad.chain(&svc).expect_err("chain should be missing");
    assert_eq!(err.code(), "NOT_FOUND");
    assert_eq!(err.detail(), "ChainInfo not found for ID: nope");
}
