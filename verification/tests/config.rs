use momentum_bot::binary64::Binary64;
use momentum_bot::config::{
    default_cancel_after_secs, default_limit_price, default_lookback_secs, default_max_ask_price,
    default_momentum_thresholds, default_performance_log, default_resolution_check_secs,
    default_signal_cooldown_secs, default_symbols, default_trade_amount_usd, default_trade_shares,
    default_ws_url, Args, Config, SymbolMomentumConfig,
};

fn f(x: Binary64) -> f64 {
    f64::from_bits(x.bits)
}

#[test]
fn default_values() {
    assert_eq!(default_resolution_check_secs(), 30);
    assert_eq!(default_performance_log(), Some("performance.log".to_string()));
    assert_eq!(default_symbols(), vec!["btc", "eth", "sol", "xrp"]);
    assert_eq!(default_lookback_secs(), 60);
    assert_eq!(f(default_limit_price()), 0.50);
    assert_eq!(f(default_trade_amount_usd()), 30.0);
    assert_eq!(f(default_trade_shares()), 5.0);
    assert_eq!(default_cancel_after_secs(), 4);
    assert_eq!(f(default_max_ask_price()), 0.98);
    assert_eq!(default_signal_cooldown_secs(), 60);
    assert_eq!(default_ws_url(), "wss://ws-subscriptions-clob.polymarket.com");
}

#[test]
fn default_thresholds() {
    let thresholds = default_momentum_thresholds();
    assert_eq!(thresholds.len(), 4);
    for (symbol, change) in [("btc", 120.0), ("eth", 15.0), ("sol", 4.0), ("xrp", 0.05)] {
        let m = thresholds.get(symbol).unwrap();
        assert_eq!(f(m.price_change_usd), change);
        assert_eq!(m.lookback_secs, 60);
    }
}

#[test]
fn default_config() {
    let config = Config::default();
    let p = &config.polymarket;
    assert_eq!(p.gamma_api_url, "https://gamma-api.polymarket.com");
    assert_eq!(p.clob_api_url, "https://clob.polymarket.com");
    assert_eq!(p.ws_url, "wss://ws-subscriptions-clob.polymarket.com");
    assert!(p.api_key.is_none() && p.api_secret.is_none() && p.api_passphrase.is_none());
    assert!(p.private_key.is_none() && p.proxy_wallet_address.is_none());
    assert!(p.signature_type.is_none() && p.rpc_url.is_none());
    let s = &config.strategy;
    assert_eq!(s.symbols, default_symbols());
    assert!(!s.simulation_mode);
    assert_eq!(s.momentum.len(), 4);
    assert_eq!(f(s.limit_price), 0.5);
    assert_eq!(f(s.trade_shares), 5.0);
    assert_eq!(f(s.trade_amount_usd), 30.0);
    assert_eq!(s.cancel_after_secs, 4);
    assert_eq!(f(s.max_ask_price), 0.98);
    assert_eq!(s.signal_cooldown_secs, 60);
    assert_eq!(s.trades_log, None);
    assert_eq!(s.resolution_check_secs, 30);
    assert_eq!(s.performance_log, Some("performance.log".to_string()));
}

#[test]
fn thresholds_are_found_by_symbol_in_any_case() {
    let config = Config::default();
    assert_eq!(f(config.momentum_for("BTC").unwrap().price_change_usd), 120.0);
    assert_eq!(f(config.momentum_for("xrp").unwrap().price_change_usd), 0.05);
    assert!(config.momentum_for("doge").is_none());
}

#[test]
fn every_standard_symbol_has_a_threshold() {
    let config = Config::default();
    for symbol in &config.strategy.symbols {
        assert!(config.momentum_for(symbol).is_some());
    }
}

#[test]
fn keys_with_uppercase_are_never_found() {
    let mut config = Config::default();
    config.strategy.momentum.insert(
        "DOGE".to_string(),
        SymbolMomentumConfig { price_change_usd: Binary64::one(), lookback_secs: 1 },
    );
    assert!(config.momentum_for("DOGE").is_none());
}

#[test]
fn arguments_are_plain_values() {
    let args = Args { config: "config.json".to_string(), redeem: true, condition_id: None };
    assert!(args.redeem && args.condition_id.is_none());
    assert_eq!(args.config, "config.json");
}
