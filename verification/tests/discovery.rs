use momentum_bot::clock::LocalInstants;
use momentum_bot::discovery::{
    build_5m_slug, current_5m_period_start, fmt_5m_period_remaining,
    fmt_countdown, period_start_at, period_start_et_unix, pick_tokens, render_slug,
    seconds_remaining_at, seconds_remaining_in_5m_period, shown_last, side_of_outcome, window_start,
    DiscoveryError, MarketDiscovery, MarketSummary, MarketToken,
};
use momentum_bot::models::TradeSide;

fn token(id: &str, outcome: &str) -> MarketToken {
    MarketToken { token_id: id.to_string(), outcome: outcome.to_string() }
}

fn tokens(items: &[(&str, &str)]) -> Vec<MarketToken> {
    items.iter().map(|(id, outcome)| token(id, outcome)).collect()
}

fn unix_now() -> i64 {
    std::time::SystemTime::now()
        .duration_since(std::time::UNIX_EPOCH)
        .unwrap()
        .as_secs() as i64
}

#[test]
fn periods_start_on_five_minute_boundaries() {
    // 2024-07-01 16:03:20 UTC, noon and three minutes in New York.
    assert_eq!(period_start_at(1_719_849_800, 5), 1_719_849_600);
    assert_eq!(period_start_at(1_719_849_600, 5), 1_719_849_600);
    assert_eq!(period_start_at(1_719_849_899, 5), 1_719_849_600);
    assert_eq!(period_start_at(1_719_849_900, 5), 1_719_849_900);
    // 2024-01-15 12:59:59 UTC.
    assert_eq!(period_start_at(1_705_323_599, 5), 1_705_323_300);
}

#[test]
fn windows_are_counted_from_the_full_hour() {
    assert_eq!(window_start(3_599, 7), 56 * 60);
    assert_eq!(window_start(7_200 + 61, 7), 7_200);
    assert_eq!(window_start(3_599, 90), 0);
    assert_eq!(window_start(-1, 5), -300);
    assert_eq!(period_start_at(1_719_849_800, 15), 1_719_849_600);
}

#[test]
fn in_a_repeated_hour_the_current_period_counts() {
    // The clocks were turned back at 06:00 UTC on 2024-11-03.
    assert_eq!(period_start_at(1_730_611_920, 5), 1_730_611_800);
    assert_eq!(period_start_at(1_730_615_520, 5), 1_730_615_400);
    // 2026-11-01 06:07 UTC.
    assert_eq!(period_start_at(1_793_513_220, 5), 1_793_513_100);
    assert_eq!(period_start_at(1_793_513_220 - 3_600, 5), 1_793_509_500);
}

#[test]
fn the_clocks_turned_forward() {
    // 2024-03-10 07:00 UTC, when two became three.
    assert_eq!(period_start_at(1_710_054_000 - 1, 5), 1_710_054_000 - 300);
    assert_eq!(period_start_at(1_710_054_000, 5), 1_710_054_000);
}

#[test]
fn every_period_holds_its_time() {
    // Through the years, and every minute around the changes of the clocks.
    let mut times: Vec<i64> = (0..40_000).map(|i| i * 50_000 + 7).collect();
    for turn in [1_710_054_000, 1_730_613_600, 1_793_512_800, 9_961_200, 4_097_196_000i64] {
        times.extend((-200..200).map(|m| turn + 60 * m + m.rem_euclid(60)));
    }
    times.extend([0, 1, 299, 300, 8_210_266_876_799]);
    for now in times {
        let start = period_start_at(now, 5);
        assert_eq!(start % 300, 0, "{now}");
        assert!(start <= now && now < start + 300, "{now}");
        let left = seconds_remaining_at(start, now);
        assert!((1..=300).contains(&left), "{now}");
    }
}

#[test]
fn the_instant_that_was_shown_last() {
    assert_eq!(shown_last(LocalInstants::Gap, 5), None);
    assert_eq!(shown_last(LocalInstants::Single(5), 7), Some(5));
    assert_eq!(shown_last(LocalInstants::Ambiguous(5, 3_605), 3_604), Some(5));
    assert_eq!(shown_last(LocalInstants::Ambiguous(5, 3_605), 3_605), Some(3_605));
}

#[test]
fn the_current_period_holds_now() {
    let before = unix_now();
    let start = current_5m_period_start();
    let after = unix_now();
    assert_eq!(start % 300, 0);
    assert!(start <= after);
    assert!(before < start + 300);
    let hour_window = period_start_et_unix(60);
    assert!(hour_window % 3_600 == 0 && hour_window <= unix_now());
}

#[test]
fn one_window_has_one_start() {
    for s in (0..300).step_by(37) {
        assert_eq!(period_start_at(1_719_849_600 + s, 5), 1_719_849_600);
    }
    assert_eq!(period_start_at(1_719_849_600 - 1, 5), 1_719_849_300);
    assert_eq!(period_start_at(1_719_849_600 + 300, 5), 1_719_849_900);
}

#[test]
fn seconds_left_of_a_period() {
    assert_eq!(seconds_remaining_at(1_000, 1_000), 300);
    assert_eq!(seconds_remaining_at(1_000, 1_098), 202);
    assert_eq!(seconds_remaining_at(1_000, 1_300), 0);
    assert_eq!(seconds_remaining_at(1_000, 9_999), 0);
    assert_eq!(seconds_remaining_in_5m_period(0), 0);
    let left = seconds_remaining_in_5m_period(unix_now());
    assert!((298..=300).contains(&left));
}

#[test]
fn countdowns() {
    assert_eq!(fmt_countdown(202), "3m 22s");
    assert_eq!(fmt_countdown(0), "0m 0s");
    assert_eq!(fmt_countdown(59), "0m 59s");
    assert_eq!(fmt_countdown(300), "5m 0s");
    assert_eq!(fmt_5m_period_remaining(0), "0m 0s");
}

#[test]
fn slugs() {
    assert_eq!(build_5m_slug("btc", 1_719_849_600), "btc-updown-5m-1719849600");
    assert_eq!(build_5m_slug("ETH", 0), "eth-updown-5m-0");
    assert_eq!(build_5m_slug("xrp", -300), "xrp-updown-5m--300");
    assert_eq!(build_5m_slug("ΣΑΣ", 5), "σας-updown-5m-5");
    assert_eq!(render_slug("sol", 7), "sol-updown-5m-7");
}

#[test]
fn outcomes_have_sides() {
    assert_eq!(side_of_outcome("UP"), Some(TradeSide::Up));
    assert_eq!(side_of_outcome("1"), Some(TradeSide::Up));
    assert_eq!(side_of_outcome("PRICE UP"), Some(TradeSide::Up));
    assert_eq!(side_of_outcome("DOWN"), Some(TradeSide::Down));
    assert_eq!(side_of_outcome("0"), Some(TradeSide::Down));
    assert_eq!(side_of_outcome("UPDOWN"), Some(TradeSide::Up));
    assert_eq!(side_of_outcome("10"), None);
    assert_eq!(side_of_outcome("up"), None);
    assert_eq!(side_of_outcome(""), None);
}

#[test]
fn tokens_of_a_market() {
    let discovery = MarketDiscovery::new("client");
    assert_eq!(*discovery.api(), "client");
    assert_eq!(
        discovery.get_market_tokens(&tokens(&[("a", "Up"), ("b", "Down")])),
        Ok(("a".to_string(), "b".to_string()))
    );
    assert_eq!(
        discovery.get_market_tokens(&tokens(&[("a", "0"), ("b", "draw"), ("c", "1"), ("d", "down")])),
        Ok(("c".to_string(), "d".to_string()))
    );
}

#[test]
fn missing_tokens() {
    let discovery = MarketDiscovery::new(());
    assert_eq!(discovery.get_market_tokens(&vec![]), Err(DiscoveryError::UpTokenNotFound));
    assert_eq!(
        discovery.get_market_tokens(&tokens(&[("a", "down")])),
        Err(DiscoveryError::UpTokenNotFound)
    );
    assert_eq!(
        discovery.get_market_tokens(&tokens(&[("a", "up")])),
        Err(DiscoveryError::DownTokenNotFound)
    );
    assert_eq!(DiscoveryError::UpTokenNotFound.message(), "Up token not found");
    assert_eq!(DiscoveryError::DownTokenNotFound.message(), "Down token not found");
}

#[test]
fn tokens_are_picked_by_their_uppercase_outcomes() {
    let listed = tokens(&[("a", "x"), ("b", "y")]);
    let uppers = vec!["DOWN".to_string(), "UP".to_string()];
    assert_eq!(pick_tokens(&listed, &uppers), Ok(("b".to_string(), "a".to_string())));
}

#[test]
fn markets_that_can_be_traded() {
    let discovery = MarketDiscovery::new(());
    let market = |active: bool, closed: bool| {
        Some(MarketSummary { active, closed, condition_id: "c".to_string() })
    };
    assert_eq!(discovery.get_5m_market(market(true, false)), Some("c".to_string()));
    assert_eq!(discovery.get_5m_market(market(true, true)), None);
    assert_eq!(discovery.get_5m_market(market(false, false)), None);
    assert_eq!(discovery.get_5m_market(None), None);
}
