use momentum_bot::discovery::build_5m_slug;
use momentum_bot::trade_cache::{
    load_traded_slugs, period_ends_fit, prune_expired_at, prune_expired_slugs, slug_period_end,
    slug_record, TradedMarketsCache,
};

fn strings(items: &[&str]) -> Vec<String> {
    items.iter().map(|s| s.to_string()).collect()
}

#[test]
fn slugs_name_the_end_of_their_period() {
    assert_eq!(slug_period_end("btc-updown-5m-1719849600"), Some(1_719_849_900));
    assert_eq!(slug_period_end("1719849600"), Some(1_719_849_900));
    assert_eq!(slug_period_end("btc-updown-5m-"), None);
    assert_eq!(slug_period_end("btc"), None);
    assert_eq!(slug_period_end(""), None);
    assert_eq!(slug_period_end("btc-+5"), Some(305));
}

#[test]
fn a_negative_timestamp_loses_its_sign() {
    assert_eq!(slug_period_end(&build_5m_slug("btc", -300)), Some(600));
}

#[test]
fn different_markets_have_different_slugs() {
    assert_ne!(build_5m_slug("btc", 300), build_5m_slug("eth", 300));
    assert_ne!(build_5m_slug("btc", 300), build_5m_slug("btc", 600));
    assert_ne!(build_5m_slug("btc-updown-5m-3", 0), build_5m_slug("btc", 30));
}

#[test]
fn lines_of_the_file() {
    assert_eq!(
        load_traded_slugs("btc-updown-5m-300\n\n  eth-updown-5m-300 \r\n\t\nsol-updown-5m-300"),
        strings(&["btc-updown-5m-300", "eth-updown-5m-300", "sol-updown-5m-300"])
    );
    assert_eq!(load_traded_slugs(""), strings(&[]));
}

#[test]
fn expired_slugs_are_pruned() {
    let slugs = strings(&["a-0", "b-300", "c-600", "nonsense", "d-x"]);
    assert_eq!(prune_expired_at(slugs, 600), strings(&["c-600"]));
    assert_eq!(prune_expired_at(strings(&["b-300"]), 599), strings(&["b-300"]));
    assert_eq!(
        prune_expired_slugs(strings(&["a-0", "b-9000000000"])),
        strings(&["b-9000000000"])
    );
}

#[test]
fn ends_that_fit() {
    assert!(period_ends_fit(&strings(&["a-0", "b", "c-9223372036854775507"])));
    assert!(!period_ends_fit(&strings(&["a-0", "c-9223372036854775508"])));
}

#[test]
fn records_are_read_back() {
    let mut file = String::new();
    for slug in ["btc-updown-5m-300", "eth-updown-5m-600"] {
        file.push_str(&slug_record(slug));
    }
    assert_eq!(file, "btc-updown-5m-300\neth-updown-5m-600\n");
    assert_eq!(load_traded_slugs(&file), strings(&["btc-updown-5m-300", "eth-updown-5m-600"]));
    let cache = TradedMarketsCache::new_at(&file, 650);
    assert!(!cache.is_blocked("btc-updown-5m-300"));
    assert!(cache.is_blocked("eth-updown-5m-600"));
}

#[test]
fn a_cache_of_now_forgets_old_markets() {
    let cache = TradedMarketsCache::new("btc-updown-5m-300\nbtc-updown-5m-9000000000\n");
    assert!(!cache.is_blocked("btc-updown-5m-300"));
    assert!(cache.is_blocked("btc-updown-5m-9000000000"));
}

#[test]
fn pending_markets_are_blocked_until_released() {
    let mut cache = TradedMarketsCache::new_at("", 0);
    assert!(!cache.is_blocked("a"));
    cache.mark_pending("a");
    assert!(cache.is_blocked("a"));
    assert!(!cache.is_blocked("b"));
    cache.mark_pending("b");
    cache.release_pending("b");
    assert!(cache.is_blocked("a"));
    cache.release_pending("a");
    assert!(!cache.is_blocked("a"));
}

#[test]
fn attempted_markets_stay_blocked() {
    let mut cache = TradedMarketsCache::new_at("", 0);
    cache.mark_pending("a");
    assert!(cache.mark_attempted("a"));
    assert!(!cache.mark_attempted("a"));
    cache.release_pending("a");
    assert!(cache.is_blocked("a"));
}
