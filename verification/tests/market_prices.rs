use momentum_bot::binary64::Binary64;
use momentum_bot::market_prices::{
    apply_ws_message, best_ask_from_book_levels, decode_message, decode_ws_message,
    market_channel_url, read_message, same_ids, stream_step, subscribe_message, AskPriceStore,
    FeedStep, MarketListing, MarketTokenRegistry, NoActiveMarkets, PriceFeed, RawMessage,
    RefreshStep, StreamEvent, StreamOutcome, StreamStep, TokenRefresh, WsMessage,
};

fn b(x: f64) -> Binary64 {
    Binary64::from_bits(x.to_bits())
}

fn strings(items: &[&str]) -> Vec<String> {
    items.iter().map(|s| s.to_string()).collect()
}

fn listing(name: &str) -> Option<MarketListing> {
    Some(MarketListing {
        condition_id: format!("{name}-condition"),
        up_token: format!("{name}-up"),
        down_token: format!("{name}-down"),
    })
}

fn apply(store: &mut AskPriceStore, doc: &str) {
    let message = decode_ws_message(doc);
    let prices: Vec<Option<Binary64>> =
        message.price_texts().iter().map(|t| t.parse::<f64>().ok().map(b)).collect();
    apply_ws_message(store, &message, &prices);
}

fn ask(store: &AskPriceStore, token: &str) -> Option<f64> {
    store.get_ask(token).map(|a| f64::from_bits(a.bits))
}

#[test]
fn asks_are_kept_by_token() {
    let mut store = AskPriceStore::default();
    assert_eq!(store.get_ask("a"), None);
    store.set_ask("a", b(0.4));
    store.set_ask("a", b(0.5));
    store.set_ask("b", b(0.6));
    assert_eq!(ask(&store, "a"), Some(0.5));
    assert_eq!(ask(&store, "b"), Some(0.6));
}

#[test]
fn only_asks_above_zero_are_seeded() {
    let mut store = AskPriceStore::default();
    store.seed_ask("a", None);
    store.seed_ask("a", Some(b(0.0)));
    store.seed_ask("a", Some(b(-1.0)));
    store.seed_ask("a", Some(b(f64::NAN)));
    assert_eq!(store.get_ask("a"), None);
    store.seed_ask("a", Some(b(0.3)));
    store.seed_ask("a", Some(b(0.0)));
    assert_eq!(ask(&store, "a"), Some(0.3));
}

#[test]
fn a_registry_of_listings() {
    let symbols = strings(&["btc", "eth", "sol"]);
    let registry =
        MarketTokenRegistry::from_listings(&symbols, 600, vec![listing("b"), None, listing("s")]);
    assert_eq!(registry.period_start, 600);
    let m = registry.get("BTC").unwrap();
    assert_eq!(m.symbol, "btc");
    assert_eq!(m.slug, "btc-updown-5m-600");
    assert_eq!(m.condition_id, "b-condition");
    assert_eq!((m.up_token.as_str(), m.down_token.as_str()), ("b-up", "b-down"));
    assert!(registry.get("eth").is_none());
    assert_eq!(registry.get("sol").unwrap().slug, "sol-updown-5m-600");
    assert_eq!(registry.all_token_ids(), strings(&["b-up", "b-down", "s-up", "s-down"]));
}

#[test]
fn a_symbol_with_uppercase_is_not_found_again() {
    let registry =
        MarketTokenRegistry::from_listings(&strings(&["BTC"]), 600, vec![listing("b")]);
    assert!(registry.get("BTC").is_none());
    assert_eq!(registry.all_token_ids().len(), 2);
}

#[test]
fn of_a_repeated_symbol_the_last_listing_counts() {
    let registry = MarketTokenRegistry::from_slugs(
        &strings(&["btc", "btc", "btc"]),
        strings(&["one", "two", "three"]),
        600,
        vec![listing("x"), listing("y"), None],
    );
    let m = registry.get("btc").unwrap();
    assert_eq!((m.slug.as_str(), m.up_token.as_str()), ("two", "y-up"));
    assert_eq!(registry.all_token_ids(), strings(&["y-up", "y-down"]));
}

#[test]
fn registries_of_a_period() {
    let empty = MarketTokenRegistry::default();
    assert_eq!(empty.period_start, 0);
    assert!(!empty.is_current(0));
    assert_eq!(empty.token_ids_to_seed(), Err(NoActiveMarkets { period_start: 0 }));
    let registry =
        MarketTokenRegistry::from_listings(&strings(&["btc"]), 600, vec![listing("b")]);
    assert!(registry.is_current(600));
    assert!(!registry.is_current(900));
    assert_eq!(registry.token_ids_to_seed(), Ok(strings(&["b-up", "b-down"])));
    assert_eq!(
        NoActiveMarkets { period_start: 600 }.message(),
        "No active 5m markets for period 600"
    );
}

#[test]
fn every_period_is_published_once() {
    let mut refresh = TokenRefresh::new();
    let empty = MarketTokenRegistry::default();
    let registry =
        MarketTokenRegistry::from_listings(&strings(&["btc"]), 600, vec![listing("b")]);
    assert!(refresh.is_due(600));
    assert!(matches!(refresh.on_refreshed(600, &empty), RefreshStep::NoMarkets));
    assert!(refresh.is_due(600));
    match refresh.on_refreshed(600, &registry) {
        RefreshStep::Publish(ids) => assert_eq!(ids, strings(&["b-up", "b-down"])),
        RefreshStep::NoMarkets => panic!("nothing published"),
    }
    assert!(!refresh.is_due(600));
    assert!(refresh.is_due(900));
}

#[test]
fn channel_addresses() {
    assert_eq!(market_channel_url("wss://host"), "wss://host/ws/market");
    assert_eq!(market_channel_url("wss://host///"), "wss://host/ws/market");
    assert_eq!(market_channel_url(""), "/ws/market");
}

#[test]
fn subscriptions_are_json() {
    let message = subscribe_message(strings(&["a", "b\"c"]));
    let value: serde_json::Value = serde_json::from_str(&message).unwrap();
    assert_eq!(value["assets_ids"][0].as_str(), Some("a"));
    assert_eq!(value["assets_ids"][1].as_str(), Some("b\"c"));
    assert_eq!(value["assets_ids"].as_array().unwrap().len(), 2);
    assert_eq!(value["type"].as_str(), Some("market"));
    assert_eq!(value["custom_feature_enabled"].as_bool(), Some(true));
    assert_eq!(value.as_object().unwrap().len(), 3);
}

#[test]
fn ids_are_compared_as_sets() {
    assert!(same_ids(&strings(&["a", "b"]), &strings(&["b", "a", "a"])));
    assert!(!same_ids(&strings(&["a"]), &strings(&["a", "b"])));
    assert!(!same_ids(&strings(&["a", "b"]), &strings(&["a"])));
    assert!(same_ids(&strings(&[]), &strings(&[])));
}

#[test]
fn events_of_a_connection() {
    let ids = strings(&["a", "b"]);
    let step = |event: StreamEvent| stream_step(&ids, event);
    assert!(matches!(step(StreamEvent::Text("PONG".to_string())), StreamStep::Continue));
    match step(StreamEvent::Text("{}".to_string())) {
        StreamStep::Apply(text) => assert_eq!(text, "{}"),
        _ => panic!("a text is applied"),
    }
    for event in [StreamEvent::Closed, StreamEvent::ReadError, StreamEvent::Ended] {
        assert!(matches!(step(event), StreamStep::Finish(StreamOutcome::Disconnected)));
    }
    assert!(matches!(step(StreamEvent::OtherFrame), StreamStep::Continue));
    assert!(matches!(step(StreamEvent::NewIds(strings(&["b", "a"]))), StreamStep::Continue));
    match step(StreamEvent::NewIds(strings(&["c"]))) {
        StreamStep::Finish(StreamOutcome::Resubscribe(new)) => assert_eq!(new, strings(&["c"])),
        _ => panic!("new ids end the connection"),
    }
    assert!(matches!(
        step(StreamEvent::SubscriberGone),
        StreamStep::Finish(StreamOutcome::Shutdown)
    ));
}

#[test]
fn the_feed_connects_again() {
    let mut feed = PriceFeed::new();
    assert!(feed.needs_ids());
    feed.on_ids(strings(&["a"]));
    assert!(!feed.needs_ids());
    assert_eq!(*feed.ids(), strings(&["a"]));
    assert_eq!(feed.on_failure(), FeedStep::ConnectAfter(0));
    assert_eq!(feed.on_failure(), FeedStep::ConnectAfter(250));
    assert_eq!(feed.on_outcome(StreamOutcome::Disconnected), FeedStep::ConnectAfter(0));
    assert_eq!(*feed.ids(), strings(&["a"]));
    assert_eq!(feed.on_failure(), FeedStep::ConnectAfter(0));
    assert_eq!(
        feed.on_outcome(StreamOutcome::Resubscribe(strings(&["b"]))),
        FeedStep::ConnectAfter(0)
    );
    assert_eq!(*feed.ids(), strings(&["b"]));
    assert_eq!(feed.on_outcome(StreamOutcome::Shutdown), FeedStep::Stop);
}

#[test]
fn best_bid_ask_messages() {
    let mut store = AskPriceStore::default();
    apply(&mut store, r#"{"event_type":"best_bid_ask","asset_id":"a","best_ask":"0.53"}"#);
    assert_eq!(ask(&store, "a"), Some(0.53));
    apply(&mut store, r#"{"event_type":"best_bid_ask","asset_id":"a","best_ask":"0"}"#);
    assert_eq!(ask(&store, "a"), Some(0.0));
    apply(&mut store, r#"{"event_type":"best_bid_ask","asset_id":"a","best_ask":"x"}"#);
    apply(&mut store, r#"{"event_type":"best_bid_ask","asset_id":"a","best_ask":0.7}"#);
    apply(&mut store, r#"{"event_type":"best_bid_ask","best_ask":"0.7"}"#);
    assert_eq!(ask(&store, "a"), Some(0.0));
}

#[test]
fn book_messages() {
    let mut store = AskPriceStore::default();
    apply(
        &mut store,
        r#"{"event_type":"book","asset_id":"a","asks":[{"price":"0.7"},{"price":"0.55","size":"3"},
            {"price":"0"},{"price":"1.0"},{"price":"-2"},{"size":"1"},{"price":0.1},7]}"#,
    );
    assert_eq!(ask(&store, "a"), Some(0.55));
    apply(&mut store, r#"{"event_type":"book","asset_id":"a","asks":[]}"#);
    apply(&mut store, r#"{"event_type":"book","asset_id":"a","asks":"0.1"}"#);
    apply(&mut store, r#"{"event_type":"book","asks":[{"price":"0.1"}]}"#);
    assert_eq!(ask(&store, "a"), Some(0.55));
}

#[test]
fn price_change_messages() {
    let mut store = AskPriceStore::default();
    store.set_ask("c", b(0.9));
    apply(
        &mut store,
        r#"{"event_type":"price_change","price_changes":[
            {"asset_id":"a","best_ask":"0.2"},{"asset_id":"b"},{"best_ask":"0.3"},
            {"asset_id":"c","best_ask":"0"},{"asset_id":"a","best_ask":"0.25"},
            {"asset_id":"d","best_ask":"no"}]}"#,
    );
    assert_eq!(ask(&store, "a"), Some(0.25));
    assert_eq!(ask(&store, "b"), None);
    assert_eq!(ask(&store, "c"), Some(0.9));
    assert_eq!(ask(&store, "d"), None);
}

#[test]
fn other_messages_change_nothing() {
    let mut store = AskPriceStore::default();
    for doc in [
        "",
        "PONG",
        "[]",
        "3",
        r#"{"asset_id":"a","best_ask":"0.5"}"#,
        r#"{"event_type":7,"asset_id":"a","best_ask":"0.5"}"#,
        r#"{"event_type":"last_trade_price","asset_id":"a","best_ask":"0.5"}"#,
        r#"[{"event_type":"best_bid_ask","asset_id":"a","best_ask":"0.5"}]"#,
        r#"{"event_type":"best_bid_ask","asset_id":"a","best_ask":"0.5""#,
    ] {
        apply(&mut store, doc);
        assert_eq!(store.get_ask("a"), None, "{doc}");
    }
}

#[test]
fn escapes_in_messages_are_read() {
    let mut store = AskPriceStore::default();
    apply(&mut store, r#"{"event_type":"best_bid_ask","asset_id":"a\"b","best_ask":"0.5"}"#);
    assert_eq!(ask(&store, "a\"b"), Some(0.5));
}

#[test]
fn of_a_repeated_member_the_last_counts() {
    let mut store = AskPriceStore::default();
    apply(
        &mut store,
        r#"{"event_type":"best_bid_ask","asset_id":"a","asset_id":"b","best_ask":"0.5"}"#,
    );
    assert_eq!(ask(&store, "a"), None);
    assert_eq!(ask(&store, "b"), Some(0.5));
}

#[test]
fn raw_messages() {
    let raw = read_message(r#"{"event_type":"book","asset_id":"a","asks":[{"price":"0.7"},{}]}"#);
    assert_eq!(raw.event_type, Some("book".to_string()));
    assert_eq!(raw.asset_id, Some("a".to_string()));
    assert_eq!(raw.best_ask, None);
    assert_eq!(raw.asks, Some(vec![Some("0.7".to_string()), None]));
    assert_eq!(raw.price_changes, None);
}

#[test]
fn messages_from_raw_fields() {
    let raw = |event: Option<&str>| RawMessage {
        event_type: event.map(|s| s.to_string()),
        asset_id: Some("a".to_string()),
        best_ask: Some("0.5".to_string()),
        asks: Some(vec![None, Some("0.6".to_string())]),
        price_changes: Some(vec![
            (Some("x".to_string()), Some("0.1".to_string())),
            (None, Some("0.2".to_string())),
        ]),
    };
    match decode_message(raw(Some("best_bid_ask"))) {
        WsMessage::BestBidAsk { asset_id, ask } => assert_eq!((asset_id, ask), ("a".to_string(), "0.5".to_string())),
        _ => panic!("best_bid_ask"),
    }
    match decode_message(raw(Some("book"))) {
        WsMessage::Book { asset_id, prices } => {
            assert_eq!(asset_id, "a");
            assert_eq!(prices, strings(&["0.6"]));
        }
        _ => panic!("book"),
    }
    match decode_message(raw(Some("price_change"))) {
        WsMessage::PriceChange { assets, asks } => {
            assert_eq!(assets, strings(&["x"]));
            assert_eq!(asks, strings(&["0.1"]));
        }
        _ => panic!("price_change"),
    }
    assert!(matches!(decode_message(raw(Some("other"))), WsMessage::Ignored));
    assert!(matches!(decode_message(raw(None)), WsMessage::Ignored));
}

#[test]
fn the_best_level_is_the_lowest_inside_the_unit_interval() {
    let levels = |xs: &[f64]| xs.iter().map(|x| Some(b(*x))).collect::<Vec<Option<Binary64>>>();
    assert_eq!(best_ask_from_book_levels(&levels(&[0.7, 0.3, 0.5])), Some(b(0.3)));
    assert_eq!(best_ask_from_book_levels(&levels(&[1.0, 0.0, -0.5, f64::NAN, 2.0])), None);
    assert_eq!(best_ask_from_book_levels(&vec![None, Some(b(0.99)), None]), Some(b(0.99)));
    assert_eq!(best_ask_from_book_levels(&vec![]), None);
}
