use momentum_bot::binance::{
    build_stream_url, feed_step, from_binance_pair, render_stream_address, tick_from_quote,
    to_binance_pair, FeedError, FeedFrame, FeedStep, PriceHistory, PriceTick,
};
use momentum_bot::binary64::Binary64;

fn b(x: f64) -> Binary64 {
    Binary64::from_bits(x.to_bits())
}

fn tick(symbol: &str, price: f64, timestamp_ms: u64) -> PriceTick {
    PriceTick { symbol: symbol.to_string(), price: b(price), timestamp_ms }
}

fn change(history: &PriceHistory, symbol: &str, lookback: u64, now: u64) -> Option<f64> {
    history
        .price_change(symbol, lookback, now)
        .map(|m| f64::from_bits(m.current.bits) - f64::from_bits(m.reference.bits))
}

#[test]
fn symbols_and_pairs() {
    assert_eq!(to_binance_pair("btc"), "btcusdt");
    assert_eq!(to_binance_pair("ETH"), "ethusdt");
    assert_eq!(to_binance_pair("ÄB"), "äbusdt");
    assert_eq!(from_binance_pair("BTCUSDT"), "btc");
    assert_eq!(from_binance_pair("ETHBTC"), "ethbtc");
    assert_eq!(from_binance_pair("usdt"), "");
}

#[test]
fn symbols_come_back_from_their_pairs() {
    for symbol in ["btc", "eth", "sol", "xrp", "usdt", ""] {
        assert_eq!(from_binance_pair(&to_binance_pair(symbol)), symbol);
    }
}

#[test]
fn stream_address_lists_the_streams() {
    let names = vec!["btcusdt@bookTicker".to_string(), "ethusdt@bookTicker".to_string()];
    assert_eq!(
        render_stream_address(&names),
        "wss://stream.binance.com:9443/stream?streams=btcusdt@bookTicker/ethusdt@bookTicker"
    );
}

#[test]
fn stream_url_of_symbols() {
    let url = build_stream_url(&vec!["BTC".to_string(), "sol".to_string()]).unwrap();
    assert_eq!(
        url,
        "wss://stream.binance.com:9443/stream?streams=btcusdt@bookTicker/solusdt@bookTicker"
    );
    assert_eq!(
        build_stream_url(&vec![]).unwrap(),
        "wss://stream.binance.com:9443/stream?streams="
    );
}

#[test]
fn stream_url_is_written_as_the_parser_writes_it() {
    let url = build_stream_url(&vec!["b c".to_string()]).unwrap();
    assert_eq!(url, "wss://stream.binance.com:9443/stream?streams=b%20cusdt@bookTicker");
}

#[test]
fn url_errors_have_a_sentence() {
    assert_eq!(FeedError::InvalidUrl.message(), "Invalid Binance WebSocket URL");
}

#[test]
fn quotes_become_ticks() {
    let t = tick_from_quote("BTCUSDT", b(99.0), b(101.0), b(100.0), 7).unwrap();
    assert_eq!(t.symbol, "btc");
    assert_eq!(t.price, b(100.0));
    assert_eq!(t.timestamp_ms, 7);
    assert!(tick_from_quote("BTCUSDT", b(100.0), b(100.0), b(100.0), 7).is_some());
}

#[test]
fn bad_quotes_are_dropped() {
    for (bid, ask) in [(0.0, 1.0), (1.0, 0.0), (-1.0, 1.0), (2.0, 1.0), (-0.0, 1.0)] {
        assert!(tick_from_quote("BTCUSDT", b(bid), b(ask), b((bid + ask) / 2.0), 7).is_none());
    }
}

#[test]
fn quotes_without_order_pass() {
    assert!(tick_from_quote("BTCUSDT", b(f64::NAN), b(1.0), b(f64::NAN), 7).is_some());
}

#[test]
fn frames_of_the_feed() {
    assert_eq!(feed_step(FeedFrame::Text), FeedStep::Decode);
    assert_eq!(feed_step(FeedFrame::Ping), FeedStep::Ignore);
    assert_eq!(feed_step(FeedFrame::Pong), FeedStep::Ignore);
    assert_eq!(feed_step(FeedFrame::Other), FeedStep::Ignore);
    assert_eq!(feed_step(FeedFrame::Close), FeedStep::Stop);
    assert_eq!(feed_step(FeedFrame::ReadError), FeedStep::Stop);
}

#[test]
fn change_is_from_the_latest_old_point() {
    let mut history = PriceHistory::new(90);
    for i in 0..=20u64 {
        history.push(&tick("btc", 100.0 + i as f64, i * 3_000));
    }
    assert_eq!(change(&history, "btc", 60_000, 60_000), Some(20.0));
    assert_eq!(change(&history, "btc", 30_000, 60_000), Some(10.0));
    assert_eq!(change(&history, "btc", 29_999, 60_000), Some(10.0));
    assert_eq!(change(&history, "btc", 0, 60_000), Some(0.0));
}

#[test]
fn short_history_has_no_change() {
    let mut history = PriceHistory::new(90);
    assert_eq!(change(&history, "btc", 0, 0), None);
    history.push(&tick("btc", 1.0, 10_000));
    assert_eq!(change(&history, "btc", 5_000, 10_000), None);
    assert_eq!(change(&history, "eth", 0, 10_000), None);
}

#[test]
fn lookback_before_time_zero_is_time_zero() {
    let mut history = PriceHistory::new(90);
    history.push(&tick("btc", 1.0, 0));
    history.push(&tick("btc", 3.0, 1_000));
    assert_eq!(change(&history, "btc", 60_000, 1_000), Some(2.0));
}

#[test]
fn a_gap_clears_the_history() {
    let mut history = PriceHistory::new(90);
    history.push(&tick("btc", 1.0, 1_000));
    history.push(&tick("btc", 2.0, 5_000));
    assert_eq!(change(&history, "btc", 4_000, 5_000), Some(1.0));
    history.push(&tick("btc", 9.0, 9_001));
    assert_eq!(change(&history, "btc", 4_000, 9_001), None);
    assert_eq!(change(&history, "btc", 0, 9_001), Some(0.0));
}

#[test]
fn old_points_are_dropped() {
    let mut history = PriceHistory::new(1);
    history.push(&tick("btc", 1.0, 1_000));
    history.push(&tick("btc", 2.0, 2_000));
    assert_eq!(change(&history, "btc", 1_000, 2_000), Some(1.0));
    history.push(&tick("btc", 4.0, 2_001));
    assert_eq!(change(&history, "btc", 1_001, 2_001), None);
    assert_eq!(change(&history, "btc", 1, 2_001), Some(2.0));
}

#[test]
fn symbols_have_their_own_histories() {
    let mut history = PriceHistory::new(90);
    history.push(&tick("btc", 1.0, 1_000));
    history.push(&tick("eth", 5.0, 60_000));
    assert_eq!(change(&history, "btc", 0, 60_000), Some(0.0));
    assert_eq!(change(&history, "eth", 0, 60_000), Some(0.0));
}

#[test]
fn late_ticks_keep_the_order_of_arrival() {
    let mut history = PriceHistory::new(90);
    history.push(&tick("btc", 1.0, 5_000));
    history.push(&tick("btc", 2.0, 4_000));
    assert_eq!(change(&history, "btc", 1_000, 5_000), None);
    assert_eq!(change(&history, "btc", 0, 5_000), Some(0.0));
}

#[test]
fn a_reached_lookback_stays_reached_without_gaps() {
    let mut history = PriceHistory::new(64);
    for i in 0..=100u64 {
        history.push(&tick("btc", i as f64, i * 4_000));
        if i * 4_000 >= 60_000 {
            assert_eq!(change(&history, "btc", 60_000, i * 4_000), Some(15.0));
        }
    }
}
