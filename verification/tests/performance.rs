use momentum_bot::binary64::Binary64;
use momentum_bot::models::TradeSide;
use momentum_bot::performance::{
    expire_live_order, has_won, would_fill_at_ask, FillStatus, OrderWatch, PerformanceStats,
    PerformanceTracker, Rate, Resolution, WatchStep,
};

fn b(x: f64) -> Binary64 {
    Binary64::from_bits(x.to_bits())
}

fn register(tracker: &mut PerformanceTracker, symbol: &str, limit: f64) -> u64 {
    tracker.register_trade(
        format!("{symbol}-updown-5m-300"),
        symbol.to_string(),
        TradeSide::Up,
        format!("condition-{symbol}"),
        format!("token-{symbol}"),
        b(limit),
        b(5.0),
        b(5.0 * limit),
        true,
    )
}

#[test]
fn a_new_tracker_is_empty() {
    let tracker = PerformanceTracker::new(Some("performance.log".to_string()));
    let s = tracker.stats();
    assert_eq!((s.total_signals, s.filled_trades, s.unfilled_trades), (0, 0, 0));
    assert_eq!((s.pending_resolution, s.resolved_wins, s.resolved_losses), (0, 0, 0));
    assert_eq!(s.cumulative_pnl, b(0.0));
    assert_eq!(*tracker.log_path(), Some("performance.log".to_string()));
    assert!(tracker.trade(1).is_none());
    assert!(tracker.filled_pending_resolution().is_empty());
}

#[test]
fn trades_are_numbered_from_one() {
    let mut tracker = PerformanceTracker::new(None);
    assert_eq!(register(&mut tracker, "btc", 0.5), 1);
    assert_eq!(register(&mut tracker, "eth", 0.6), 2);
    let t = tracker.trade(2).unwrap();
    assert_eq!((t.id, t.symbol.as_str(), t.slug.as_str()), (2, "eth", "eth-updown-5m-300"));
    assert_eq!(t.fill_status, FillStatus::Pending);
    assert_eq!((t.limit_price, t.size, t.cost_usd), (b(0.6), b(5.0), b(3.0)));
    assert!(t.simulation && t.fill_ask.is_none() && t.resolution.is_none() && t.pnl.is_none());
    assert_eq!(tracker.token_id_for(1), Some("token-btc".to_string()));
    assert_eq!(tracker.token_id_for(3), None);
    assert_eq!(tracker.token_id_for(0), None);
}

#[test]
fn signals_are_counted() {
    let mut tracker = PerformanceTracker::new(None);
    tracker.record_signal();
    tracker.record_signal();
    assert_eq!(tracker.stats().total_signals, 2);
}

#[test]
fn a_fill_is_final() {
    let mut tracker = PerformanceTracker::new(None);
    let id = register(&mut tracker, "btc", 0.5);
    assert!(!tracker.is_filled(id));
    assert!(tracker.mark_filled(id, b(0.49)));
    assert!(tracker.is_filled(id));
    assert!(!tracker.mark_filled(id, b(0.40)));
    assert!(!tracker.mark_unfilled(id, None));
    let t = tracker.trade(id).unwrap();
    assert_eq!((t.fill_status, t.fill_ask), (FillStatus::Filled, Some(b(0.49))));
    assert_eq!(tracker.stats().filled_trades, 1);
    assert_eq!(tracker.stats().pending_resolution, 1);
    assert_eq!(tracker.stats().unfilled_trades, 0);
}

#[test]
fn an_unfilled_trade_stays_unfilled() {
    let mut tracker = PerformanceTracker::new(None);
    let id = register(&mut tracker, "btc", 0.5);
    assert!(tracker.mark_unfilled(id, Some(b(0.7))));
    assert!(!tracker.mark_filled(id, b(0.4)));
    let t = tracker.trade(id).unwrap();
    assert_eq!((t.fill_status, t.fill_ask), (FillStatus::Unfilled, Some(b(0.7))));
    assert_eq!(tracker.stats().unfilled_trades, 1);
    assert_eq!(tracker.stats().filled_trades, 0);
}

#[test]
fn unknown_trades_change_nothing() {
    let mut tracker = PerformanceTracker::new(None);
    assert!(!tracker.mark_filled(1, b(0.4)));
    assert!(!tracker.mark_unfilled(0, None));
    assert!(!tracker.resolve_trade(7, true, b(1.0), b(1.0)));
    assert_eq!(tracker.stats().filled_trades, 0);
}

#[test]
fn a_won_trade_earns_its_size_less_its_cost() {
    let mut tracker = PerformanceTracker::new(None);
    let id = register(&mut tracker, "btc", 0.5);
    assert!(tracker.settlement(id).is_none());
    tracker.mark_filled(id, b(0.5));
    let s = tracker.settlement(id).unwrap();
    assert_eq!((s.size, s.cost_usd, s.cumulative_pnl), (b(5.0), b(2.5), b(0.0)));
    assert_eq!(s.pnl(true, b(2.5)), b(2.5));
    assert!(tracker.resolve_trade(id, true, b(2.5), b(2.5)));
    let t = tracker.trade(id).unwrap();
    assert_eq!((t.resolution, t.pnl), (Some(Resolution::Win), Some(b(2.5))));
    let stats = tracker.stats();
    assert_eq!((stats.resolved_wins, stats.resolved_losses, stats.pending_resolution), (1, 0, 0));
    assert_eq!(stats.cumulative_pnl, b(2.5));
}

#[test]
fn a_lost_trade_loses_its_cost() {
    let mut tracker = PerformanceTracker::new(None);
    let id = register(&mut tracker, "btc", 0.5);
    tracker.mark_filled(id, b(0.5));
    assert_eq!(tracker.settlement(id).unwrap().pnl(false, b(2.5)), b(-2.5));
    assert!(tracker.resolve_trade(id, false, b(2.5), b(-2.5)));
    let t = tracker.trade(id).unwrap();
    assert_eq!((t.resolution, t.pnl), (Some(Resolution::Lose), Some(b(-2.5))));
    assert_eq!(tracker.stats().resolved_losses, 1);
    assert_eq!(tracker.stats().cumulative_pnl, b(-2.5));
}

#[test]
fn a_resolution_is_final() {
    let mut tracker = PerformanceTracker::new(None);
    let id = register(&mut tracker, "btc", 0.5);
    tracker.mark_filled(id, b(0.5));
    assert!(tracker.resolve_trade(id, true, b(2.5), b(2.5)));
    assert!(!tracker.resolve_trade(id, false, b(2.5), b(0.0)));
    assert_eq!(tracker.trade(id).unwrap().resolution, Some(Resolution::Win));
    assert_eq!(tracker.stats().cumulative_pnl, b(2.5));
}

#[test]
fn only_filled_trades_resolve() {
    let mut tracker = PerformanceTracker::new(None);
    let id = register(&mut tracker, "btc", 0.5);
    assert!(!tracker.resolve_trade(id, true, b(2.5), b(2.5)));
    tracker.mark_unfilled(id, None);
    assert!(!tracker.resolve_trade(id, true, b(2.5), b(2.5)));
    assert_eq!(tracker.stats().resolved_wins, 0);
}

#[test]
fn the_poller_asks_about_filled_trades() {
    let mut tracker = PerformanceTracker::new(None);
    for symbol in ["btc", "eth", "sol"] {
        register(&mut tracker, symbol, 0.5);
    }
    tracker.mark_filled(1, b(0.5));
    tracker.mark_unfilled(2, None);
    tracker.mark_filled(3, b(0.4));
    assert_eq!(
        tracker.filled_pending_resolution(),
        vec![(1, "condition-btc".to_string()), (3, "condition-sol".to_string())]
    );
    tracker.resolve_trade(1, true, b(2.5), b(2.5));
    assert_eq!(tracker.filled_pending_resolution(), vec![(3, "condition-sol".to_string())]);
}

#[test]
fn statistics_add_up() {
    let mut tracker = PerformanceTracker::new(None);
    for i in 0..12u64 {
        let id = register(&mut tracker, "btc", 0.5);
        match i % 4 {
            0 => {}
            1 => {
                tracker.mark_unfilled(id, None);
            }
            2 => {
                tracker.mark_filled(id, b(0.5));
            }
            _ => {
                tracker.mark_filled(id, b(0.5));
                tracker.resolve_trade(id, i % 8 == 3, b(2.5), b(0.0));
            }
        }
    }
    let s = tracker.stats();
    assert_eq!((s.filled_trades, s.unfilled_trades), (6, 3));
    assert_eq!(s.filled_trades, s.pending_resolution + s.resolved_wins + s.resolved_losses);
    assert_eq!((s.pending_resolution, s.resolved_wins, s.resolved_losses), (3, 2, 1));
}

#[test]
fn rates() {
    let mut stats = PerformanceStats::default();
    assert_eq!(stats.fill_rate(), Rate { numerator: 0, denominator: 1 });
    assert_eq!(stats.win_rate(), Rate { numerator: 0, denominator: 1 });
    stats.total_signals = 4;
    stats.filled_trades = 3;
    stats.resolved_wins = 2;
    stats.resolved_losses = 1;
    assert_eq!(stats.fill_rate(), Rate { numerator: 3, denominator: 4 });
    assert_eq!(stats.win_rate(), Rate { numerator: 2, denominator: 3 });
}

#[test]
fn winners() {
    assert!(has_won("token", "token"));
    assert!(!has_won("token", "other"));
}

#[test]
fn fills_at_or_below_the_limit() {
    assert!(would_fill_at_ask(b(0.5), b(0.5)));
    assert!(would_fill_at_ask(b(0.4), b(0.5)));
    assert!(!would_fill_at_ask(b(0.51), b(0.5)));
    assert!(!would_fill_at_ask(b(0.0), b(0.5)));
    assert!(!would_fill_at_ask(b(-0.1), b(0.5)));
    assert!(!would_fill_at_ask(b(f64::NAN), b(0.5)));
}

#[test]
fn a_higher_limit_fills_too() {
    for ask in [0.01, 0.5, 0.99] {
        assert!(would_fill_at_ask(b(ask), b(0.99)));
    }
}

#[test]
fn watching_ends_with_the_first_fill() {
    let mut watch = OrderWatch::new(b(0.5));
    assert_eq!(watch.on_poll(None, false), WatchStep::Wait);
    assert_eq!(watch.on_poll(Some(b(0.6)), false), WatchStep::Wait);
    assert_eq!(watch.on_poll(Some(b(0.5)), true), WatchStep::Filled(b(0.5)));
}

#[test]
fn watching_expires_with_the_last_ask() {
    let mut watch = OrderWatch::new(b(0.5));
    assert_eq!(watch.on_poll(Some(b(0.7)), false), WatchStep::Wait);
    assert_eq!(watch.on_poll(None, true), WatchStep::Expired(Some(b(0.7))));
    let mut unseen = OrderWatch::new(b(0.5));
    assert_eq!(unseen.on_poll(None, true), WatchStep::Expired(None));
}

#[test]
fn a_filled_live_order_is_not_cancelled() {
    let mut tracker = PerformanceTracker::new(None);
    let first = register(&mut tracker, "btc", 0.5);
    let second = register(&mut tracker, "eth", 0.5);
    tracker.mark_filled(first, b(0.5));
    assert!(!expire_live_order(&mut tracker, first, None));
    assert!(tracker.is_filled(first));
    assert!(expire_live_order(&mut tracker, second, Some(b(0.6))));
    assert_eq!(tracker.trade(second).unwrap().fill_status, FillStatus::Unfilled);
    assert!(expire_live_order(&mut tracker, 99, None));
}

#[test]
fn log_lines() {
    let mut tracker = PerformanceTracker::new(None);
    let id = register(&mut tracker, "btc", 0.5);
    let t = tracker.trade(id).unwrap();
    assert_eq!(
        t.fill_log_line("0.4900", "0.50"),
        "FILL id=1 BTC Up ask=$0.4900 limit=$0.50 slug=btc-updown-5m-300"
    );
    assert_eq!(
        t.no_fill_log_line(Some("0.7000".to_string()), "0.50"),
        "NO_FILL id=1 BTC Up last ask $0.7000 limit=$0.50 slug=btc-updown-5m-300"
    );
    assert_eq!(
        t.no_fill_log_line(None, "0.50"),
        "NO_FILL id=1 BTC Up no ask limit=$0.50 slug=btc-updown-5m-300"
    );
    assert_eq!(
        t.resolved_log_line(true, "+2.5000", "+2.5000"),
        "RESOLVED id=1 BTC Up WIN pnl=$+2.5000 cumulative=$+2.5000 slug=btc-updown-5m-300"
    );
    assert_eq!(
        t.resolved_log_line(false, "-2.5000", "-2.5000"),
        "RESOLVED id=1 BTC Up LOSE pnl=$-2.5000 cumulative=$-2.5000 slug=btc-updown-5m-300"
    );
}

#[test]
fn uppercase_is_that_of_the_standard_library() {
    let mut tracker = PerformanceTracker::new(None);
    let id = register(&mut tracker, "straße", 0.5);
    let line = tracker.trade(id).unwrap().fill_log_line("1", "1");
    assert!(line.starts_with("FILL id=1 STRASSE Up "));
}
