use momentum_bot::binance::{PriceHistory, PriceTick};
use momentum_bot::binary64::Binary64;
use momentum_bot::config::{Config, StrategyConfig, SymbolMomentumConfig};
use momentum_bot::market_prices::{AskPriceStore, MarketListing, MarketTokenRegistry};
use momentum_bot::models::TradeSide;
use momentum_bot::performance::{would_fill_at_ask, PerformanceTracker};
use momentum_bot::strategy::{
    accept_signal, decide_in_market, detect_side, failed_trade_log_line, history_age_secs,
    max_lookback_secs, measure_momentum, render_buy_line, trade_log_line, BuyAmounts, Choice,
    ChosenTrade, SignalGate, Submission, TradeAttempt, TradeError,
};
use momentum_bot::text_map::TextMap;
use momentum_bot::trade_cache::TradedMarketsCache;

const SEC: u64 = 1_000_000_000;

fn b(x: f64) -> Binary64 {
    Binary64::from_bits(x.to_bits())
}

fn settings(simulation_mode: bool) -> StrategyConfig {
    let mut settings = Config::default().strategy;
    settings.simulation_mode = simulation_mode;
    settings
}

fn cache() -> TradedMarketsCache {
    TradedMarketsCache::new_at("", 0)
}

fn registry() -> MarketTokenRegistry {
    MarketTokenRegistry::from_listings(
        &vec!["btc".to_string()],
        600,
        vec![Some(MarketListing {
            condition_id: "condition".to_string(),
            up_token: "up".to_string(),
            down_token: "down".to_string(),
        })],
    )
}

fn asks(up: f64, down: f64) -> AskPriceStore {
    let mut store = AskPriceStore::default();
    store.set_ask("up", b(up));
    store.set_ask("down", b(down));
    store
}

fn chosen(cache: &mut TradedMarketsCache, side: TradeSide) -> ChosenTrade {
    let attempt = TradeAttempt::begin(cache, "btc", side, 600).unwrap();
    match attempt.decide(&registry(), &asks(0.515, 0.49), &settings(false), cache) {
        Choice::Chosen(t) => t,
        other => panic!("not chosen: {other:?}"),
    }
}

#[test]
fn history_is_kept_half_a_minute_longer_than_the_longest_lookback() {
    let mut momentum: TextMap<SymbolMomentumConfig> = TextMap::new();
    assert_eq!(max_lookback_secs(&momentum), 60);
    assert_eq!(history_age_secs(&momentum), 90);
    for (symbol, lookback_secs) in [("btc", 5), ("eth", 40), ("sol", 20)] {
        momentum.insert(
            symbol.to_string(),
            SymbolMomentumConfig { price_change_usd: b(1.0), lookback_secs },
        );
    }
    assert_eq!(max_lookback_secs(&momentum), 40);
    assert_eq!(history_age_secs(&momentum), 70);
    assert_eq!(history_age_secs(&Config::default().strategy.momentum), 90);
}

#[test]
fn sides_of_price_changes() {
    assert_eq!(detect_side(b(120.0), b(120.0)), Some(TradeSide::Up));
    assert_eq!(detect_side(b(121.0), b(120.0)), Some(TradeSide::Up));
    assert_eq!(detect_side(b(-120.0), b(120.0)), Some(TradeSide::Down));
    assert_eq!(detect_side(b(119.99), b(120.0)), None);
    assert_eq!(detect_side(b(-119.99), b(120.0)), None);
    assert_eq!(detect_side(b(f64::NAN), b(120.0)), None);
    assert_eq!(detect_side(b(0.0), b(0.0)), Some(TradeSide::Up));
}

#[test]
fn rise_and_fall_mirror() {
    for change in [0.0, 3.99, 4.0, 17.5] {
        let rise = detect_side(b(change), b(4.0));
        let fall = detect_side(b(-change), b(4.0));
        assert_eq!(rise.is_none(), fall.is_none());
        assert_eq!(rise == Some(TradeSide::Up), fall == Some(TradeSide::Down));
    }
}

#[test]
fn momentum_is_measured_over_the_lookback() {
    let config = Config::default();
    let mut history = PriceHistory::new(history_age_secs(&config.strategy.momentum));
    for i in 0..=20u64 {
        history.push(&PriceTick {
            symbol: "btc".to_string(),
            price: b(60_000.0 + 10.0 * i as f64),
            timestamp_ms: 3_000 * i,
        });
    }
    let input = measure_momentum(&config, &history, "btc", 60_000).unwrap();
    assert_eq!(input.prices.current, b(60_200.0));
    assert_eq!(input.prices.reference, b(60_000.0));
    assert_eq!(input.threshold, b(120.0));
    assert_eq!(input.lookback_secs, 60);
    assert!(measure_momentum(&config, &history, "eth", 60_000).is_none());
    assert!(measure_momentum(&config, &history, "doge", 60_000).is_none());
    assert!(measure_momentum(&config, &PriceHistory::new(90), "btc", 60_000).is_none());
}

#[test]
fn signals_keep_the_cooldown() {
    let mut gate = SignalGate::new();
    assert!(gate.pass("btc", 100 * SEC, 60));
    assert!(!gate.pass("btc", 160 * SEC - 1, 60));
    assert!(gate.pass("eth", 101 * SEC, 60));
    assert!(gate.pass("btc", 160 * SEC, 60));
    assert!(!gate.pass("btc", 161 * SEC, 60));
    assert!(gate.pass("btc", 161 * SEC, 0));
    assert!(!gate.pass("btc", 0, u64::MAX));
}

#[test]
fn accepted_signals_are_counted() {
    let mut gate = SignalGate::new();
    let mut tracker = PerformanceTracker::new(None);
    let mut cache = cache();
    assert!(accept_signal(&mut gate, &cache, &mut tracker, "btc", 600, 5, 60));
    assert!(!accept_signal(&mut gate, &cache, &mut tracker, "btc", 600, 6, 60));
    cache.mark_pending("eth-updown-5m-600");
    assert!(!accept_signal(&mut gate, &cache, &mut tracker, "ETH", 600, 6, 60));
    assert!(gate.is_ready("ETH", 6, 60));
    assert!(accept_signal(&mut gate, &cache, &mut tracker, "ETH", 900, 6, 60));
    assert!(!gate.is_ready("ETH", 7, 60));
    assert_eq!(tracker.stats().total_signals, 2);
}

#[test]
fn error_sentences() {
    assert_eq!(
        TradeError::MarketNotInRegistry { slug: "s".to_string() }.message(),
        "Market not in registry: s"
    );
    assert_eq!(
        TradeError::NoLiveAsk { side: TradeSide::Down }.message(),
        "No live ask for Down token — cannot place at current ask"
    );
    assert_eq!(TradeError::NoOrderId.message(), "No order_id returned");
}

#[test]
fn an_attempt_blocks_its_market() {
    let mut cache = cache();
    let attempt = TradeAttempt::begin(&mut cache, "BTC", TradeSide::Up, 600).unwrap();
    assert_eq!(attempt.slug, "btc-updown-5m-600");
    assert_eq!(attempt.symbol, "BTC");
    assert!(cache.is_blocked("btc-updown-5m-600"));
    assert!(TradeAttempt::begin(&mut cache, "btc", TradeSide::Down, 600).is_none());
    assert!(TradeAttempt::begin(&mut cache, "btc", TradeSide::Down, 900).is_some());
    attempt.abandon(&mut cache);
    assert!(!cache.is_blocked("btc-updown-5m-600"));
}

#[test]
fn each_side_buys_its_token() {
    let mut cache = cache();
    let up = chosen(&mut cache, TradeSide::Up);
    assert_eq!((up.token_id.as_str(), up.condition_id.as_str()), ("up", "condition"));
    assert_eq!(up.ask, b(0.515));
    assert!(cache.is_blocked("btc-updown-5m-600"));
    up.attempt.abandon(&mut cache);
    let down = chosen(&mut cache, TradeSide::Down);
    assert_eq!((down.token_id.as_str(), down.ask), ("down", b(0.49)));
}

#[test]
fn a_buy_is_at_an_acceptable_ask() {
    let t = chosen(&mut cache(), TradeSide::Up);
    assert!(t.ask.is_positive() && !b(0.98).lt(t.ask));
    assert!(would_fill_at_ask(t.ask, b(0.52)));
    assert!(!would_fill_at_ask(t.ask, b(0.51)));
}

#[test]
fn an_unknown_market_fails() {
    let mut cache = cache();
    let attempt = TradeAttempt::begin(&mut cache, "eth", TradeSide::Up, 600).unwrap();
    match attempt.decide(&registry(), &asks(0.5, 0.5), &settings(false), &mut cache) {
        Choice::Failed(e) => assert_eq!(e.message(), "Market not in registry: eth-updown-5m-600"),
        other => panic!("{other:?}"),
    }
    assert!(!cache.is_blocked("eth-updown-5m-600"));
}

#[test]
fn a_missing_ask_fails() {
    for store in [AskPriceStore::default(), asks(0.0, 0.5), asks(f64::NAN, 0.5)] {
        let mut cache = cache();
        let attempt = TradeAttempt::begin(&mut cache, "btc", TradeSide::Up, 600).unwrap();
        match attempt.decide(&registry(), &store, &settings(false), &mut cache) {
            Choice::Failed(TradeError::NoLiveAsk { side }) => assert_eq!(side, TradeSide::Up),
            other => panic!("{other:?}"),
        }
        assert!(!cache.is_blocked("btc-updown-5m-600"));
    }
}

#[test]
fn a_dear_ask_is_skipped() {
    let mut cache = cache();
    let attempt = TradeAttempt::begin(&mut cache, "btc", TradeSide::Up, 600).unwrap();
    match attempt.decide(&registry(), &asks(0.99, 0.5), &settings(false), &mut cache) {
        Choice::Skipped { ask } => assert_eq!(ask, b(0.99)),
        other => panic!("{other:?}"),
    }
    assert!(!cache.is_blocked("btc-updown-5m-600"));
    let attempt = TradeAttempt::begin(&mut cache, "btc", TradeSide::Up, 600).unwrap();
    let choice = attempt.decide(&registry(), &asks(0.98, 0.5), &settings(false), &mut cache);
    assert!(matches!(choice, Choice::Chosen(_)));
}

#[test]
fn decisions_in_a_given_market() {
    let registry = registry();
    let attempt = |slug: &str| TradeAttempt {
        symbol: "btc".to_string(),
        side: TradeSide::Down,
        period_start: 600,
        slug: slug.to_string(),
    };
    match decide_in_market(attempt("x"), None, &asks(0.5, 0.4), b(0.98)) {
        Choice::Failed(TradeError::MarketNotInRegistry { slug }) => assert_eq!(slug, "x"),
        other => panic!("{other:?}"),
    }
    match decide_in_market(attempt("x"), registry.get("btc"), &asks(0.5, 0.4), b(0.98)) {
        Choice::Chosen(t) => assert_eq!((t.token_id.as_str(), t.ask), ("down", b(0.4))),
        other => panic!("{other:?}"),
    }
}

#[test]
fn trades_are_registered_as_chosen() {
    let mut cache = cache();
    let mut tracker = PerformanceTracker::new(None);
    let t = chosen(&mut cache, TradeSide::Up);
    let registered = t.register(&mut tracker, &settings(false), b(0.52), b(2.6));
    assert_eq!(registered.trade_id, 1);
    let record = tracker.trade(1).unwrap();
    assert_eq!(record.slug, "btc-updown-5m-600");
    assert_eq!((record.symbol.as_str(), record.side), ("btc", TradeSide::Up));
    assert_eq!((record.condition_id.as_str(), record.token_id.as_str()), ("condition", "up"));
    assert_eq!((record.limit_price, record.size, record.cost_usd), (b(0.52), b(5.0), b(2.6)));
    assert!(!record.simulation);
}

#[test]
fn a_simulation_sends_no_order() {
    let mut cache = cache();
    let mut tracker = PerformanceTracker::new(None);
    let registered =
        chosen(&mut cache, TradeSide::Up).register(&mut tracker, &settings(true), b(0.52), b(2.6));
    match registered.submit("5.00".to_string(), "0.52".to_string(), &mut cache) {
        Submission::Simulated(placed) => {
            assert!(placed.order_id.is_none() && placed.record_market);
            assert_eq!(placed.trade.trade_id, 1);
        }
        other => panic!("{other:?}"),
    }
    cache.release_pending("btc-updown-5m-600");
    assert!(cache.is_blocked("btc-updown-5m-600"));
}

#[test]
fn a_live_trade_sends_a_limit_buy() {
    let mut cache = cache();
    let mut tracker = PerformanceTracker::new(None);
    let registered =
        chosen(&mut cache, TradeSide::Down).register(&mut tracker, &settings(false), b(0.49), b(2.45));
    let (order, open) = match registered.submit("5.00".to_string(), "0.49".to_string(), &mut cache) {
        Submission::Send(order, open) => (order, open),
        other => panic!("{other:?}"),
    };
    assert_eq!((order.token_id.as_str(), order.side.as_str()), ("down", "BUY"));
    assert_eq!((order.size.as_str(), order.price.as_str()), ("5.00", "0.49"));
    assert_eq!(order.order_type, "GTC");
    let placed = open.on_reply(Some("order-7".to_string()), &mut cache).unwrap();
    assert_eq!(placed.order_id, Some("order-7".to_string()));
    assert!(placed.record_market);
    assert_eq!(placed.trade.token_id, "down");
    cache.release_pending("btc-updown-5m-600");
    assert!(TradeAttempt::begin(&mut cache, "btc", TradeSide::Up, 600).is_none());
}

#[test]
fn an_order_without_id_or_refused_opens_the_market_again() {
    for refused in [true, false] {
        let mut cache = cache();
        let mut tracker = PerformanceTracker::new(None);
        let registered = chosen(&mut cache, TradeSide::Up)
            .register(&mut tracker, &settings(false), b(0.52), b(2.6));
        match registered.submit("5.00".to_string(), "0.52".to_string(), &mut cache) {
            Submission::Send(_, open) => {
                assert!(cache.is_blocked("btc-updown-5m-600"));
                if refused {
                    open.on_refusal(&mut cache);
                } else {
                    let e = open.on_reply(None, &mut cache).unwrap_err();
                    assert!(matches!(e, TradeError::NoOrderId));
                }
            }
            other => panic!("{other:?}"),
        }
        assert!(!cache.is_blocked("btc-updown-5m-600"));
        assert!(tracker.trade(1).is_some());
    }
}

#[test]
fn buy_lines() {
    let mut amounts = BuyAmounts {
        size: "5.00".to_string(),
        limit_price: "0.52".to_string(),
        notional: "3".to_string(),
        spot: "60000.1234".to_string(),
        change: "+120.5000".to_string(),
        ask: Some("0.5150".to_string()),
    };
    assert_eq!(
        trade_log_line(true, "btc", TradeSide::Up, &amounts, "btc-updown-5m-600", &None, 42),
        "BUY [SIM] BTC Up 5.00 shares @ $0.52 ($3 notional) slug=btc-updown-5m-600 \
         spot=$60000.1234 change=$+120.5000 ask=$0.5150 @ 42"
    );
    amounts.ask = None;
    assert_eq!(
        render_buy_line(
            false,
            "BTC",
            TradeSide::Down,
            &amounts,
            "s",
            &Some("o1".to_string()),
            42
        ),
        "BUY [LIVE] BTC Down 5.00 shares @ $0.52 ($3 notional) slug=s spot=$60000.1234 \
         change=$+120.5000 order_id=o1 @ 42"
    );
}

#[test]
fn failed_buy_lines() {
    assert_eq!(
        failed_trade_log_line("btc", TradeSide::Up, "1.0000", "+2.0000", "No order_id returned", 7),
        "BUY [FAILED] BTC Up spot=$1.0000 change=$+2.0000 error=\"No order_id returned\" @ 7"
    );
}

#[test]
fn unused_settings_change_nothing() {
    let run = |limit_price: f64, trade_amount_usd: f64| {
        let mut settings = settings(false);
        settings.limit_price = b(limit_price);
        settings.trade_amount_usd = b(trade_amount_usd);
        let mut cache = cache();
        let mut tracker = PerformanceTracker::new(None);
        let attempt = TradeAttempt::begin(&mut cache, "btc", TradeSide::Up, 600).unwrap();
        let chosen = match attempt.decide(&registry(), &asks(0.515, 0.49), &settings, &mut cache) {
            Choice::Chosen(t) => t,
            other => panic!("{other:?}"),
        };
        let trade = chosen.register(&mut tracker, &settings, b(0.52), b(2.6));
        let sent = trade.submit("5.00".to_string(), "0.52".to_string(), &mut cache);
        format!("{:?} {:?}", tracker.trade(1).unwrap(), sent)
    };
    assert_eq!(run(0.5, 30.0), run(0.01, 1_000_000.0));
}
