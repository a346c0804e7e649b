//! The momentum strategy for 5m Up/Down markets.
//!
//! A symbol's price that moves by its threshold within its lookback is a signal. A signal buys
//! the Up or the Down token of the symbol's current market at the current ask, at most once in
//! each market.

use crate::binance;
use crate::binance::{PriceHistory, PriceMove, PRICE_GAP_RESET_MS};
use crate::binary64::Binary64;
use crate::config;
use crate::config::{Config, StrategyConfig, SymbolMomentumConfig};
use crate::discovery;
use crate::market_prices::{AskPriceStore, MarketTokenRegistry, SymbolMarketTokens};
use crate::models::{OrderRequest, TradeSide};
use crate::performance;
use crate::performance::{FillStatus, PerformanceStats, PerformanceTracker, TradeRecord};
use crate::text;
use crate::text_map::TextMap;
use crate::trade_cache;
use crate::trade_cache::{CacheOp, TradedMarketsCache};
use vstd::hash_map::StringHashMap;
use vstd::prelude::*;

verus! {

// ---------------------------------------------------------------------------------------------
// How far back the prices are kept.
// ---------------------------------------------------------------------------------------------

/// The longest lookback of the thresholds; a minute where there are none.
pub open spec fn longest_lookback(entries: Seq<(String, SymbolMomentumConfig)>) -> int
    decreases entries.len(),
{
    if entries.len() == 0 {
        60
    } else if entries.len() == 1 {
        entries[0].1.lookback_secs as int
    } else {
        let front = longest_lookback(entries.drop_last());
        if entries.last().1.lookback_secs > front {
            entries.last().1.lookback_secs as int
        } else {
            front
        }
    }
}

/// The longest lookback of the thresholds; a minute where there are none.
pub fn max_lookback_secs(momentum: &TextMap<SymbolMomentumConfig>) -> (r: u64)
    ensures
        r == longest_lookback(momentum.entries()),
{
    let n = momentum.len();
    if n == 0 {
        return 60;
    }
    let ghost all = momentum.entries();
    let mut longest: u64 = momentum.value_at(0).lookback_secs;
    let mut i: usize = 1;
    assert(all.take(1)[0] == all[0]);
    while i < n
        invariant
            n == all.len(),
            all == momentum.entries(),
            1 <= i <= n,
            longest == longest_lookback(all.take(i as int)),
        decreases n - i,
    {
        proof {
            assert(all.take(i + 1).drop_last() =~= all.take(i as int));
            assert(all.take(i + 1).last() == all[i as int]);
        }
        let lookback = momentum.value_at(i).lookback_secs;
        if lookback > longest {
            longest = lookback;
        }
        i = i + 1;
    }
    assert(all.take(i as int) =~= all);
    longest
}

/// The age in seconds up to which prices are kept: half a minute more than the longest lookback.
pub fn history_age_secs(momentum: &TextMap<SymbolMomentumConfig>) -> (r: u64)
    requires
        longest_lookback(momentum.entries()) + 30 <= u64::MAX,
    ensures
        r == longest_lookback(momentum.entries()) + 30,
{
    max_lookback_secs(momentum) + 30
}

/// No lookback is longer than the longest.
pub proof fn law_longest_lookback(entries: Seq<(String, SymbolMomentumConfig)>, i: int)
    requires
        0 <= i < entries.len(),
    ensures
        entries[i].1.lookback_secs <= longest_lookback(entries),
    decreases entries.len(),
{
    if i < entries.len() - 1 {
        law_longest_lookback(entries.drop_last(), i);
    }
}

/// The longest lookback is one of the lookbacks, and a minute where there are none.
pub proof fn law_longest_lookback_is_one(entries: Seq<(String, SymbolMomentumConfig)>)
    ensures
        entries.len() == 0 ==> longest_lookback(entries) == 60,
        entries.len() > 0 ==> exists|i: int|
            0 <= i < entries.len() && (#[trigger] entries[i]).1.lookback_secs == longest_lookback(
                entries,
            ),
    decreases entries.len(),
{
    if entries.len() > 1 {
        let front = entries.drop_last();
        law_longest_lookback_is_one(front);
        let i = choose|i: int|
            0 <= i < front.len() && (#[trigger] front[i]).1.lookback_secs == longest_lookback(front);
        assert(front[i] == entries[i]);
        assert(entries[entries.len() - 1] == entries.last());
    } else if entries.len() == 1 {
        assert(entries[0].1.lookback_secs == longest_lookback(entries));
    }
}

/// The age up to which prices are kept suits every threshold: once the history of a symbol
/// reaches back a lookback, it does so after every tick that follows without a gap.
pub proof fn law_history_covers_lookbacks(
    entries: Seq<(String, SymbolMomentumConfig)>,
    i: int,
    points: Seq<binance::PricePoint>,
    point: binance::PricePoint,
)
    requires
        0 <= i < entries.len(),
        binance::in_time_order(points),
        binance::gapless(points),
        points.len() > 0,
        binance::price_move(
            points,
            entries[i].1.lookback_secs * 1000,
            points.last().0 as int,
        ) is Some,
        0 <= point.0 - points.last().0 <= PRICE_GAP_RESET_MS,
    ensures
        binance::price_move(
            binance::pushed(points, point, (longest_lookback(entries) + 30) * 1000),
            entries[i].1.lookback_secs * 1000,
            point.0 as int,
        ) is Some,
{
    law_longest_lookback(entries, i);
    binance::law_history_keeps_its_reach(
        points,
        point,
        entries[i].1.lookback_secs * 1000,
        (longest_lookback(entries) + 30) * 1000,
    );
}

// ---------------------------------------------------------------------------------------------
// Signals.
// ---------------------------------------------------------------------------------------------

/// The side that a price change points to: Up for a rise by the threshold or more, Down for a
/// fall by it or more.
pub open spec fn side_of_change(change: Binary64, threshold: Binary64) -> Option<TradeSide> {
    if threshold.at_most(change) {
        Some(TradeSide::Up)
    } else if change.at_most(threshold.opposite()) {
        Some(TradeSide::Down)
    } else {
        None
    }
}

/// The side that a price change points to.
pub fn detect_side(change: Binary64, threshold: Binary64) -> (r: Option<TradeSide>)
    ensures
        r == side_of_change(change, threshold),
{
    if threshold.le(change) {
        Some(TradeSide::Up)
    } else if change.le(threshold.neg()) {
        Some(TradeSide::Down)
    } else {
        None
    }
}

/// A rise and a fall of the same size point to opposite sides, where the threshold is above zero.
/// They do so for any other threshold too, unless both reach it as a rise.
pub proof fn law_rise_and_fall_mirror(change: Binary64, threshold: Binary64)
    requires
        threshold.positive() || !(threshold.at_most(change) && threshold.at_most(
            change.opposite(),
        )),
    ensures
        side_of_change(change, threshold) == Some(TradeSide::Up) <==> side_of_change(
            change.opposite(),
            threshold,
        ) == Some(TradeSide::Down),
        side_of_change(change, threshold) is None <==> side_of_change(
            change.opposite(),
            threshold,
        ) is None,
{
}

/// A change by the threshold or more is a rise, one by the threshold or more below zero a fall,
/// and one in between is nothing. A change above a rise is a rise too, and a change below a
/// fall a fall.
pub proof fn law_changes_by_the_threshold_are_signals(
    change: Binary64,
    threshold: Binary64,
    other: Binary64,
)
    ensures
        threshold.at_most(change) ==> side_of_change(change, threshold) == Some(TradeSide::Up),
        !threshold.at_most(change) && change.at_most(threshold.opposite()) ==> side_of_change(
            change,
            threshold,
        ) == Some(TradeSide::Down),
        change.below(threshold) && threshold.opposite().below(change) ==> side_of_change(
            change,
            threshold,
        ) is None,
        change.nan() || threshold.nan() ==> side_of_change(change, threshold) is None,
        side_of_change(change, threshold) == Some(TradeSide::Up) && change.at_most(other)
            ==> side_of_change(other, threshold) == Some(TradeSide::Up),
        side_of_change(change, threshold) == Some(TradeSide::Down) && other.at_most(change)
            ==> side_of_change(other, threshold) == Some(TradeSide::Down),
{
}

/// What a signal is judged by: the symbol's prices now and a lookback ago, and its threshold.
#[derive(Debug, Clone, Copy, PartialEq, Eq, Structural)]
pub struct SignalInput {
    pub prices: PriceMove,
    pub threshold: Binary64,
    pub lookback_secs: u64,
}

/// Every lookback in milliseconds is a `u64`.
pub open spec fn lookbacks_fit(entries: Seq<(String, SymbolMomentumConfig)>) -> bool {
    forall|i: int|
        0 <= i < entries.len() ==> (#[trigger] entries[i]).1.lookback_secs * 1000 <= u64::MAX
}

/// What a signal of a symbol with this threshold is judged by.
pub open spec fn signal_input(
    momentum: Option<SymbolMomentumConfig>,
    points: Seq<binance::PricePoint>,
    now_ms: int,
) -> Option<SignalInput> {
    match momentum {
        Some(m) => match binance::price_move(points, m.lookback_secs * 1000, now_ms) {
            Some(prices) => Some(
                SignalInput {
                    prices,
                    threshold: m.price_change_usd,
                    lookback_secs: m.lookback_secs,
                },
            ),
            None => None,
        },
        None => None,
    }
}

/// A signal is judged by the price of the last point and the price of the last of the leading
/// points that came no later than a lookback before now, and no earlier than time zero, for falls
/// as for rises; and by the threshold of the symbol. There is nothing to judge where the history
/// is empty or its first point came later.
pub proof fn law_momentum_compares_latest_with_lookback(
    m: SymbolMomentumConfig,
    points: Seq<binance::PricePoint>,
    now_ms: int,
) -> (n: int)
    ensures
        signal_input(None, points, now_ms) is None,
        0 <= n <= points.len(),
        forall|i: int|
            0 <= i < n ==> (#[trigger] points[i]).0 <= (if now_ms > m.lookback_secs * 1000 {
                now_ms - m.lookback_secs * 1000
            } else {
                0
            }),
        n < points.len() ==> points[n].0 > (if now_ms > m.lookback_secs * 1000 {
            now_ms - m.lookback_secs * 1000
        } else {
            0
        }),
        n == 0 ==> signal_input(Some(m), points, now_ms) is None,
        n > 0 ==> signal_input(Some(m), points, now_ms) is Some && signal_input(
            Some(m),
            points,
            now_ms,
        )->0.prices.current == points[points.len() - 1].1 && signal_input(
            Some(m),
            points,
            now_ms,
        )->0.prices.reference == points[n - 1].1 && signal_input(
            Some(m),
            points,
            now_ms,
        )->0.threshold == m.price_change_usd && signal_input(
            Some(m),
            points,
            now_ms,
        )->0.lookback_secs == m.lookback_secs,
{
    let target: int = if now_ms > m.lookback_secs * 1000 {
        now_ms - m.lookback_secs * 1000
    } else {
        0
    };
    let n = lemma_leading_points(points, target);
    binance::law_move_compares_latest_with_lookback(
        points,
        m.lookback_secs * 1000,
        now_ms,
        target,
        n,
    );
    n
}

/// The leading points that came no later than a time.
proof fn lemma_leading_points(points: Seq<binance::PricePoint>, target: int) -> (n: int)
    ensures
        0 <= n <= points.len(),
        forall|i: int| 0 <= i < n ==> (#[trigger] points[i]).0 <= target,
        n < points.len() ==> points[n].0 > target,
    decreases points.len(),
{
    if points.len() == 0 {
        0
    } else {
        let front = points.drop_last();
        let k = lemma_leading_points(front, target);
        if k == front.len() && points.last().0 <= target {
            assert forall|i: int| 0 <= i < points.len() implies (#[trigger] points[i]).0
                <= target by {
                if i < k {
                    assert(front[i] == points[i]);
                }
            }
            points.len() as int
        } else {
            assert forall|i: int| 0 <= i < k implies (#[trigger] points[i]).0 <= target by {
                assert(front[i] == points[i]);
            }
            k
        }
    }
}

/// The threshold of a key is the one that the configuration holds for it, if it holds one.
pub proof fn law_thresholds_are_configured(config: Config, key: Seq<char>)
    ensures
        threshold_for(config, key) is Some <==> config.strategy.momentum@.contains_key(key),
        threshold_for(config, key) is Some ==> threshold_for(config, key)->0
            == config.strategy.momentum@[key],
{
}

/// The threshold that a configuration has for a key.
pub open spec fn threshold_for(config: Config, key: Seq<char>) -> Option<SymbolMomentumConfig> {
    if config.strategy.momentum@.contains_key(key) {
        Some(config.strategy.momentum@[key])
    } else {
        None
    }
}

/// What a signal of a symbol is judged by when a tick of it came. `None` where the symbol has no
/// threshold or its history does not reach back so far.
pub fn measure_momentum(
    config: &Config,
    history: &PriceHistory,
    symbol: &str,
    timestamp_ms: u64,
) -> (r: Option<SignalInput>)
    requires
        config.wf(),
        history.wf(),
        lookbacks_fit(config.strategy.momentum.entries()),
    ensures
        r == signal_input(
            threshold_for(*config, text::lowercase(symbol@)),
            history.points(symbol@),
            timestamp_ms as int,
        ),
        text::ascii(symbol@) ==> r == signal_input(
            threshold_for(*config, text::ascii_lowercase(symbol@)),
            history.points(symbol@),
            timestamp_ms as int,
        ),
        !config.strategy.momentum@.contains_key(text::lowercase(symbol@)) ==> r is None,
        r matches Some(input) ==> config.strategy.momentum@.contains_key(text::lowercase(symbol@))
            && input.threshold == config.strategy.momentum@[text::lowercase(
            symbol@,
        )].price_change_usd && input.lookback_secs == config.strategy.momentum@[text::lowercase(
            symbol@,
        )].lookback_secs && history.points(symbol@).len() > 0 && input.prices.current
            == history.points(symbol@).last().1 && (exists|k: int|
            0 <= k < history.points(symbol@).len() && input.prices.reference == (
            #[trigger] history.points(symbol@)[k]).1 && (forall|i: int|
                0 <= i <= k ==> (#[trigger] history.points(symbol@)[i]).0 <= (if timestamp_ms
                    > input.lookback_secs * 1000 {
                    timestamp_ms - input.lookback_secs * 1000
                } else {
                    0
                })) && (k + 1 < history.points(symbol@).len() ==> history.points(symbol@)[k + 1].0 > (
            if timestamp_ms > input.lookback_secs * 1000 {
                timestamp_ms - input.lookback_secs * 1000
            } else {
                0
            }))),
        config.strategy.momentum@.contains_key(text::lowercase(symbol@)) ==> (r is None <==> (
        history.points(symbol@).len() == 0 || history.points(symbol@)[0].0 > (if timestamp_ms
            > config.strategy.momentum@[text::lowercase(symbol@)].lookback_secs * 1000 {
            timestamp_ms - config.strategy.momentum@[text::lowercase(symbol@)].lookback_secs * 1000
        } else {
            0
        }))),
{
    proof {
        if config.strategy.momentum@.contains_key(text::lowercase(symbol@)) {
            let points = history.points(symbol@);
            let n = law_momentum_compares_latest_with_lookback(
                config.strategy.momentum@[text::lowercase(symbol@)],
                points,
                timestamp_ms as int,
            );
            if n > 0 {
                assert(points[n - 1].1 == signal_input(
                    Some(config.strategy.momentum@[text::lowercase(symbol@)]),
                    points,
                    timestamp_ms as int,
                )->0.prices.reference);
            }
        }
    }
    match config.momentum_for(symbol) {
        Some(m) => {
            proof {
                let map = config.strategy.momentum;
                let key = text::lowercase(symbol@);
                assert(map.holds(key));
                let i = map.place(key);
                assert(map.key_at(i) == key);
                map.lemma_entry(i);
                assert(map.entries()[i].1.lookback_secs * 1000 <= u64::MAX);
            }
            let lookback_ms: u64 = m.lookback_secs * 1000;
            match history.price_change(symbol, lookback_ms, timestamp_ms) {
                Some(prices) => Some(
                    SignalInput {
                        prices,
                        threshold: m.price_change_usd,
                        lookback_secs: m.lookback_secs,
                    },
                ),
                None => None,
            }
        },
        None => None,
    }
}

/// The nanoseconds of a second.
pub const NANOS_PER_SEC: u64 = 1_000_000_000;

/// The cooldown that followed the last signal is over.
pub open spec fn cooled_down(last_ns: Option<u64>, now_ns: int, cooldown_secs: int) -> bool {
    last_ns matches Some(last) ==> (if now_ns > last {
        now_ns - last
    } else {
        0
    }) >= cooldown_secs * NANOS_PER_SEC
}

/// When each symbol had its last signal, in nanoseconds of a clock that never goes back.
pub struct SignalGate {
    last_signal: StringHashMap<u64>,
}

impl View for SignalGate {
    type V = Map<Seq<char>, u64>;

    closed spec fn view(&self) -> Map<Seq<char>, u64> {
        self.last_signal@
    }
}

/// The last signal of a symbol.
pub open spec fn last_signal(gate: Map<Seq<char>, u64>, symbol: Seq<char>) -> Option<u64> {
    if gate.contains_key(symbol) {
        Some(gate[symbol])
    } else {
        None
    }
}

impl SignalGate {
    pub fn new() -> (r: SignalGate)
        ensures
            r@ == Map::<Seq<char>, u64>::empty(),
    {
        SignalGate { last_signal: StringHashMap::new() }
    }

    /// Whether the cooldown of a symbol is over.
    pub fn is_ready(&self, symbol: &str, now_ns: u64, cooldown_secs: u64) -> (r: bool)
        ensures
            r == cooled_down(last_signal(self@, symbol@), now_ns as int, cooldown_secs as int),
    {
        match self.last_signal.get(symbol) {
            Some(last) => {
                let elapsed: u64 = now_ns.saturating_sub(*last);
                let cooldown: u128 = cooldown_secs as u128 * NANOS_PER_SEC as u128;
                (elapsed as u128) >= cooldown
            },
            None => true,
        }
    }

    /// Lets a signal pass where the cooldown of its symbol is over, and notes it then.
    pub fn pass(&mut self, symbol: &str, now_ns: u64, cooldown_secs: u64) -> (r: bool)
        ensures
            r == cooled_down(
                last_signal(old(self)@, symbol@),
                now_ns as int,
                cooldown_secs as int,
            ),
            final(self)@ == (if r {
                old(self)@.insert(symbol@, now_ns)
            } else {
                old(self)@
            }),
    {
        if !self.is_ready(symbol, now_ns, cooldown_secs) {
            return false;
        }
        self.last_signal.insert(symbol.to_owned(), now_ns);
        true
    }
}

/// Two signals of a symbol that both pass are at least the cooldown apart. Without a cooldown this
/// asks that the second is not the earlier one.
pub proof fn law_signals_keep_cooldown(
    gate: Map<Seq<char>, u64>,
    symbol: Seq<char>,
    first_ns: u64,
    second_ns: u64,
    cooldown_secs: int,
)
    requires
        cooldown_secs > 0 || (cooldown_secs == 0 && first_ns <= second_ns),
        cooled_down(
            last_signal(gate.insert(symbol, first_ns), symbol),
            second_ns as int,
            cooldown_secs,
        ),
    ensures
        second_ns - first_ns >= cooldown_secs * NANOS_PER_SEC,
{
    assert(cooldown_secs > 0 ==> cooldown_secs * NANOS_PER_SEC > 0);
}

/// The first signal of a symbol passes; a later one passes exactly where the cooldown, in seconds
/// of a thousand million nanoseconds, has gone by since the last.
pub proof fn law_cooldown_is_over_in_time(last_ns: u64, now_ns: int, cooldown_secs: int)
    requires
        cooldown_secs >= 0,
    ensures
        cooled_down(None, now_ns, cooldown_secs),
        cooled_down(Some(last_ns), now_ns, 0),
        now_ns - last_ns >= cooldown_secs * 1_000_000_000 ==> cooled_down(
            Some(last_ns),
            now_ns,
            cooldown_secs,
        ),
        now_ns - last_ns < cooldown_secs * 1_000_000_000 && cooldown_secs > 0 ==> !cooled_down(
            Some(last_ns),
            now_ns,
            cooldown_secs,
        ),
{
}

/// The signals of one symbol do not hold up those of another.
pub proof fn law_cooldowns_are_per_symbol(
    gate: Map<Seq<char>, u64>,
    symbol: Seq<char>,
    other: Seq<char>,
    now_ns: u64,
)
    requires
        symbol != other,
    ensures
        last_signal(gate.insert(symbol, now_ns), other) == last_signal(gate, other),
{
}

/// A signal of a symbol is acted on in the market `slug`: the market takes an order and the
/// cooldown of the symbol is over.
pub open spec fn acts_on_signal(
    cache: trade_cache::CacheView,
    gate: Map<Seq<char>, u64>,
    symbol: Seq<char>,
    slug: Seq<char>,
    now_ns: int,
    cooldown_secs: int,
) -> bool {
    !cache.blocked(slug) && cooled_down(last_signal(gate, symbol), now_ns, cooldown_secs)
}

/// A signal is acted on exactly where no order was placed in its market, none is being placed
/// there, and the symbol's cooldown is over.
pub proof fn law_signals_are_acted_on(
    cache: trade_cache::CacheView,
    gate: Map<Seq<char>, u64>,
    symbol: Seq<char>,
    slug: Seq<char>,
    now_ns: int,
    cooldown_secs: int,
)
    requires
        cooldown_secs >= 0,
    ensures
        cache.attempted.contains(slug) || cache.pending.contains(slug) ==> !acts_on_signal(
            cache,
            gate,
            symbol,
            slug,
            now_ns,
            cooldown_secs,
        ),
        !cache.attempted.contains(slug) && !cache.pending.contains(slug) && !gate.contains_key(
            symbol,
        ) ==> acts_on_signal(cache, gate, symbol, slug, now_ns, cooldown_secs),
        !cache.attempted.contains(slug) && !cache.pending.contains(slug) && gate.contains_key(
            symbol,
        ) && now_ns >= gate[symbol] ==> (acts_on_signal(
            cache,
            gate,
            symbol,
            slug,
            now_ns,
            cooldown_secs,
        ) <==> now_ns - gate[symbol] >= cooldown_secs * 1_000_000_000),
{
}

/// Whether a signal of a symbol is acted on, in the symbol's market of the period. Then it is
/// noted and counted; otherwise nothing changes.
pub fn accept_signal(
    gate: &mut SignalGate,
    cache: &TradedMarketsCache,
    tracker: &mut PerformanceTracker,
    symbol: &str,
    period_start: i64,
    now_ns: u64,
    cooldown_secs: u64,
) -> (r: bool)
    requires
        old(tracker).wf(),
        old(tracker)@.stats.total_signals < u64::MAX,
    ensures
        r == acts_on_signal(
            cache@,
            old(gate)@,
            symbol@,
            discovery::slug_5m(symbol@, period_start as int),
            now_ns as int,
            cooldown_secs as int,
        ),
        text::ascii(symbol@) ==> r == acts_on_signal(
            cache@,
            old(gate)@,
            symbol@,
            discovery::slug_of(text::ascii_lowercase(symbol@), period_start as int),
            now_ns as int,
            cooldown_secs as int,
        ),
        final(gate)@ == (if r {
            old(gate)@.insert(symbol@, now_ns)
        } else {
            old(gate)@
        }),
        final(tracker).wf(),
        final(tracker).log_file() == old(tracker).log_file(),
        final(tracker)@.trades == old(tracker)@.trades,
        final(tracker)@.stats == (if r {
            PerformanceStats {
                total_signals: (old(tracker)@.stats.total_signals + 1) as u64,
                ..old(tracker)@.stats
            }
        } else {
            old(tracker)@.stats
        }),
{
    let slug = discovery::build_5m_slug(symbol, period_start);
    if cache.is_blocked(slug.as_str()) {
        return false;
    }
    if !gate.pass(symbol, now_ns, cooldown_secs) {
        return false;
    }
    tracker.record_signal();
    true
}

// ---------------------------------------------------------------------------------------------
// Trades.
// ---------------------------------------------------------------------------------------------

/// Why a trade failed.
#[derive(Debug)]
pub enum TradeError {
    MarketNotInRegistry { slug: String },
    NoLiveAsk { side: TradeSide },
    NoOrderId,
}

impl TradeError {
    pub open spec fn text(&self) -> Seq<char> {
        match self {
            TradeError::MarketNotInRegistry { slug } => "Market not in registry: "@ + slug@,
            TradeError::NoLiveAsk { side } => "No live ask for "@ + side.label()
                + " token — cannot place at current ask"@,
            TradeError::NoOrderId => "No order_id returned"@,
        }
    }

    /// The error as a sentence.
    pub fn message(&self) -> (r: String)
        ensures
            r@ == self.text(),
    {
        let mut out = String::new();
        match self {
            TradeError::MarketNotInRegistry { slug } => {
                out.append("Market not in registry: ");
                out.append(slug.as_str());
            },
            TradeError::NoLiveAsk { side } => {
                out.append("No live ask for ");
                out.append(side.as_str());
                out.append(" token — cannot place at current ask");
            },
            TradeError::NoOrderId => {
                out.append("No order_id returned");
            },
        }
        assert(out@ =~= self.text());
        out
    }
}

/// The token that a signal buys.
pub open spec fn token_of(market: SymbolMarketTokens, side: TradeSide) -> String {
    match side {
        TradeSide::Up => market.up_token,
        TradeSide::Down => market.down_token,
    }
}

/// An attempt to trade in a market, from the time when the market was marked as pending.
#[derive(Debug)]
pub struct TradeAttempt {
    pub symbol: String,
    pub side: TradeSide,
    pub period_start: i64,
    pub slug: String,
}

/// An attempt whose token and ask are known.
#[derive(Debug)]
pub struct ChosenTrade {
    pub attempt: TradeAttempt,
    pub condition_id: String,
    pub token_id: String,
    pub ask: Binary64,
}

/// What becomes of an attempt, given its market and the current asks.
#[derive(Debug)]
pub enum Choice {
    Failed(TradeError),
    /// The ask is above the highest that is paid.
    Skipped { ask: Binary64 },
    /// Buy at this ask.
    Chosen(ChosenTrade),
}

/// The market of a key in the registry.
pub open spec fn market_for(registry: MarketTokenRegistry, key: Seq<char>) -> Option<
    SymbolMarketTokens,
> {
    if registry.markets@.contains_key(key) {
        Some(registry.markets@[key])
    } else {
        None
    }
}

/// The ask above zero that a token has.
pub open spec fn live_ask(asks: Map<Seq<char>, Binary64>, token: Seq<char>) -> Option<Binary64> {
    if asks.contains_key(token) && asks[token].positive() {
        Some(asks[token])
    } else {
        None
    }
}

/// `r` is what becomes of an attempt in `market`: it fails where there is no market or no live
/// ask; it is skipped where the ask is above `max_ask`; else it buys its side's token at its ask.
pub open spec fn is_choice(
    r: Choice,
    attempt: TradeAttempt,
    market: Option<SymbolMarketTokens>,
    asks: Map<Seq<char>, Binary64>,
    max_ask: Binary64,
) -> bool {
    match market {
        None => r matches Choice::Failed(TradeError::MarketNotInRegistry { slug }) && slug@
            == attempt.slug@,
        Some(m) => match live_ask(asks, token_of(m, attempt.side)@) {
            None => r == Choice::Failed(TradeError::NoLiveAsk { side: attempt.side }),
            Some(ask) => if max_ask.below(ask) {
                r == (Choice::Skipped { ask })
            } else {
                r matches Choice::Chosen(t) && t.attempt == attempt && t.condition_id@
                    == m.condition_id@ && t.token_id@ == token_of(m, attempt.side)@ && t.ask == ask
            },
        },
    }
}

/// What becomes of an attempt in a market.
pub fn decide_in_market(
    attempt: TradeAttempt,
    market: Option<&SymbolMarketTokens>,
    store: &AskPriceStore,
    max_ask: Binary64,
) -> (r: Choice)
    ensures
        is_choice(
            r,
            attempt,
            (match market {
                Some(m) => Some(*m),
                None => None,
            }),
            store@,
            max_ask,
        ),
{
    let m = match market {
        Some(m) => m,
        None => {
            return Choice::Failed(TradeError::MarketNotInRegistry { slug: attempt.slug });
        },
    };
    let token = match attempt.side {
        TradeSide::Up => &m.up_token,
        TradeSide::Down => &m.down_token,
    };
    match store.get_ask(token.as_str()) {
        Some(ask) => {
            if !ask.is_positive() {
                Choice::Failed(TradeError::NoLiveAsk { side: attempt.side })
            } else if max_ask.lt(ask) {
                Choice::Skipped { ask }
            } else {
                Choice::Chosen(
                    ChosenTrade {
                        attempt,
                        condition_id: m.condition_id.clone(),
                        token_id: token.clone(),
                        ask,
                    },
                )
            }
        },
        None => Choice::Failed(TradeError::NoLiveAsk { side: attempt.side }),
    }
}

/// A buy is made at the ask of its token, which is above zero and not above the highest that is
/// paid. Where the limit is no lower than the ask, the ask fills it at once.
pub proof fn law_buy_is_at_an_acceptable_ask(
    t: ChosenTrade,
    attempt: TradeAttempt,
    market: Option<SymbolMarketTokens>,
    asks: Map<Seq<char>, Binary64>,
    max_ask: Binary64,
    limit: Binary64,
)
    requires
        is_choice(Choice::Chosen(t), attempt, market, asks, max_ask),
    ensures
        asks.contains_key(t.token_id@) && asks[t.token_id@] == t.ask,
        t.ask.positive(),
        !max_ask.below(t.ask),
        t.ask.at_most(limit) ==> performance::fills(t.ask, limit),
{
}

/// Where the market is known and the token of the attempt's side has an ask above zero that is not
/// above the highest that is paid, that token is bought at that ask, however low it is. It is
/// skipped only where the ask is above the highest that is paid; it fails only where there is no
/// market, or no ask above zero.
pub proof fn law_acceptable_ask_is_bought(
    r: Choice,
    attempt: TradeAttempt,
    market: Option<SymbolMarketTokens>,
    asks: Map<Seq<char>, Binary64>,
    max_ask: Binary64,
    token: Seq<char>,
)
    requires
        is_choice(r, attempt, market, asks, max_ask),
        market is Some && attempt.side == TradeSide::Up ==> token == market->0.up_token@,
        market is Some && attempt.side == TradeSide::Down ==> token == market->0.down_token@,
    ensures
        market is Some && asks.contains_key(token) && (Binary64 { bits: 0 }).below(asks[token])
            && !max_ask.below(asks[token]) ==> r is Chosen && r->Chosen_0.ask == asks[token]
            && r->Chosen_0.token_id@ == token && r->Chosen_0.condition_id@
            == market->0.condition_id@ && r->Chosen_0.attempt == attempt,
        r is Chosen ==> market is Some && asks.contains_key(token) && r->Chosen_0.ask == asks[token]
            && (Binary64 { bits: 0 }).below(asks[token]) && !max_ask.below(asks[token]),
        r is Skipped ==> market is Some && asks.contains_key(token) && (Binary64 {
            bits: 0,
        }).below(asks[token]) && max_ask.below(asks[token]) && r->Skipped_ask == asks[token],
        market is Some && asks.contains_key(token) && (Binary64 { bits: 0 }).below(asks[token])
            && max_ask.below(asks[token]) ==> r is Skipped,
        r is Failed <==> market is None || !asks.contains_key(token) || !(Binary64 {
            bits: 0,
        }).below(asks[token]),
        market is None ==> r->Failed_0 is MarketNotInRegistry && r->Failed_0->slug@
            == attempt.slug@,
        r is Failed && market is Some ==> r->Failed_0 == (TradeError::NoLiveAsk {
            side: attempt.side,
        }),
{
}

/// The market of a key is the one that the registry holds for it, if it holds one.
pub proof fn law_markets_are_registered(registry: MarketTokenRegistry, key: Seq<char>)
    ensures
        market_for(registry, key) is Some <==> registry.markets@.contains_key(key),
        market_for(registry, key) is Some ==> market_for(registry, key)->0
            == registry.markets@[key],
{
}

/// How an attempt ended.
#[derive(Debug, Clone, Copy, PartialEq, Eq, Structural)]
pub enum TradeOutcome {
    Failed,
    Skipped,
    /// An order was placed, or simulated.
    Placed,
}

/// What the end of an attempt does to the cache: a market where an order was placed takes no
/// other, and any other market is opened again.
pub open spec fn conclusion(slug: Seq<char>, outcome: TradeOutcome) -> CacheOp {
    match outcome {
        TradeOutcome::Placed => CacheOp::MarkAttempted(slug),
        TradeOutcome::Failed | TradeOutcome::Skipped => CacheOp::ReleasePending(slug),
    }
}

impl TradeAttempt {
    /// The slug is that of the symbol's market in the period.
    pub open spec fn wf(&self) -> bool {
        self.slug@ == discovery::slug_5m(self.symbol@, self.period_start as int)
    }

    /// Begins an attempt, where the market takes an order: it is then marked as pending.
    pub fn begin(
        cache: &mut TradedMarketsCache,
        symbol: &str,
        side: TradeSide,
        period_start: i64,
    ) -> (r: Option<TradeAttempt>)
        ensures
            r is None <==> old(cache)@.blocked(
                discovery::slug_5m(symbol@, period_start as int),
            ),
            r is None ==> final(cache)@ == old(cache)@,
            r matches Some(attempt) ==> attempt.wf() && attempt.symbol@ == symbol@ && attempt.side
                == side && attempt.period_start == period_start && final(cache)@ == old(
                cache,
            )@.after(CacheOp::MarkPending(attempt.slug@)),
            text::ascii(symbol@) ==> (r matches Some(attempt) ==> attempt.slug@
                == discovery::slug_of(text::ascii_lowercase(symbol@), period_start as int)),
    {
        let slug = discovery::build_5m_slug(symbol, period_start);
        if cache.is_blocked(slug.as_str()) {
            return None;
        }
        cache.mark_pending(slug.as_str());
        Some(TradeAttempt { symbol: symbol.to_owned(), side, period_start, slug })
    }

    /// Gives the attempt up, where the markets of its period could not be had.
    pub fn abandon(self, cache: &mut TradedMarketsCache)
        ensures
            final(cache)@ == old(cache)@.after(conclusion(self.slug@, TradeOutcome::Failed)),
    {
        cache.release_pending(self.slug.as_str());
    }

    /// Decides what to buy, given the registry and the asks; the symbol is looked up in
    /// lowercase. An attempt that fails or is skipped is over.
    pub fn decide(
        self,
        registry: &MarketTokenRegistry,
        store: &AskPriceStore,
        settings: &StrategyConfig,
        cache: &mut TradedMarketsCache,
    ) -> (r: Choice)
        requires
            registry.wf(),
        ensures
            is_choice(
                r,
                self,
                market_for(*registry, text::lowercase(self.symbol@)),
                store@,
                settings.max_ask_price,
            ),
            text::ascii(self.symbol@) ==> is_choice(
                r,
                self,
                market_for(*registry, text::ascii_lowercase(self.symbol@)),
                store@,
                settings.max_ask_price,
            ),
            final(cache)@ == (match r {
                Choice::Failed(_) => old(cache)@.after(
                    conclusion(self.slug@, TradeOutcome::Failed),
                ),
                Choice::Skipped { .. } => old(cache)@.after(
                    conclusion(self.slug@, TradeOutcome::Skipped),
                ),
                Choice::Chosen(_) => old(cache)@,
            }),
    {
        let slug = self.slug.clone();
        let market = registry.get(self.symbol.as_str());
        let r = decide_in_market(self, market, store, settings.max_ask_price);
        match &r {
            Choice::Failed(_) => cache.release_pending(slug.as_str()),
            Choice::Skipped { .. } => cache.release_pending(slug.as_str()),
            Choice::Chosen(_) => {},
        }
        r
    }
}

/// A trade that is registered and about to be ordered.
#[derive(Debug)]
pub struct RegisteredTrade {
    pub attempt: TradeAttempt,
    pub trade_id: u64,
    pub token_id: String,
    pub limit_price: Binary64,
    pub simulation: bool,
}

impl ChosenTrade {
    /// Registers the trade, of as many shares as the settings say. `limit_price` is the ask in
    /// whole cents and `cost_usd` is the number of shares times it.
    pub fn register(
        self,
        tracker: &mut PerformanceTracker,
        settings: &StrategyConfig,
        limit_price: Binary64,
        cost_usd: Binary64,
    ) -> (r: RegisteredTrade)
        requires
            old(tracker).wf(),
            old(tracker)@.trades.len() + 2 <= u64::MAX,
        ensures
            r.trade_id == old(tracker)@.trades.len() + 1,
            is_registered(r, self, *settings, limit_price),
            final(tracker).wf(),
            final(tracker).log_file() == old(tracker).log_file(),
            final(tracker)@.stats == old(tracker)@.stats,
            final(tracker)@.trades.len() == old(tracker)@.trades.len() + 1,
            final(tracker)@.trades.drop_last() == old(tracker)@.trades,
            final(tracker)@.awaits_fill(r.trade_id as int),
            is_record(final(tracker)@.trade(r.trade_id as int), self, r, *settings, cost_usd),
    {
        let slug = self.attempt.slug.clone();
        let symbol = self.attempt.symbol.clone();
        let token_id = self.token_id.clone();
        let trade_id = tracker.register_trade(
            slug,
            symbol,
            self.attempt.side,
            self.condition_id,
            token_id,
            limit_price,
            settings.trade_shares,
            cost_usd,
            settings.simulation_mode,
        );
        assert(tracker@.trades.drop_last() =~= old(tracker)@.trades);
        RegisteredTrade {
            attempt: self.attempt,
            trade_id,
            token_id: self.token_id,
            limit_price,
            simulation: settings.simulation_mode,
        }
    }
}

/// `r` is the trade that `chosen` became when it was registered.
pub open spec fn is_registered(
    r: RegisteredTrade,
    chosen: ChosenTrade,
    settings: StrategyConfig,
    limit_price: Binary64,
) -> bool {
    &&& r.attempt == chosen.attempt
    &&& r.token_id == chosen.token_id
    &&& r.limit_price == limit_price
    &&& r.simulation == settings.simulation_mode
}

/// `record` is the record of the registered trade `r` that `chosen` became.
pub open spec fn is_record(
    record: TradeRecord,
    chosen: ChosenTrade,
    r: RegisteredTrade,
    settings: StrategyConfig,
    cost_usd: Binary64,
) -> bool {
    &&& record.id == r.trade_id
    &&& record.slug@ == chosen.attempt.slug@
    &&& record.symbol@ == chosen.attempt.symbol@
    &&& record.side == chosen.attempt.side
    &&& record.condition_id@ == chosen.condition_id@
    &&& record.token_id@ == chosen.token_id@
    &&& record.limit_price == r.limit_price
    &&& record.size == settings.trade_shares
    &&& record.cost_usd == cost_usd
    &&& record.simulation == r.simulation
    &&& record.fill_status == FillStatus::Pending
    &&& record.fill_ask is None
    &&& record.resolution is None
    &&& record.pnl is None
}

// ---------------------------------------------------------------------------------------------
// Orders.
// ---------------------------------------------------------------------------------------------

/// A limit buy, good until it is cancelled.
pub open spec fn is_limit_buy(
    order: OrderRequest,
    token_id: Seq<char>,
    size: Seq<char>,
    price: Seq<char>,
) -> bool {
    &&& order.token_id@ == token_id
    &&& order.side@ == "BUY"@
    &&& order.size@ == size
    &&& order.price@ == price
    &&& order.order_type@ == "GTC"@
}

/// A trade whose order was placed, or simulated: it has no order id then.
#[derive(Debug)]
pub struct PlacedTrade {
    pub trade: RegisteredTrade,
    pub order_id: Option<String>,
    /// The market has to be recorded as one that takes no further order.
    pub record_market: bool,
}

/// A trade whose order is on its way.
#[derive(Debug)]
pub struct OpenOrder {
    trade: RegisteredTrade,
}

/// What follows the registration of a trade.
#[derive(Debug)]
pub enum Submission {
    /// The trade is simulated: no order is sent.
    Simulated(PlacedTrade),
    /// Send this order.
    Send(OrderRequest, OpenOrder),
}

/// `r` is what follows the registration of a trade: nothing is sent in a simulation, and a limit
/// buy of its token otherwise.
pub open spec fn is_submission(
    r: Submission,
    trade: RegisteredTrade,
    size: Seq<char>,
    price: Seq<char>,
) -> bool {
    match r {
        Submission::Simulated(placed) => trade.simulation && placed.trade == trade
            && placed.order_id is None,
        Submission::Send(order, open) => !trade.simulation && open.trade() == trade && is_limit_buy(
            order,
            trade.token_id@,
            size,
            price,
        ),
    }
}

impl RegisteredTrade {
    /// What follows the registration: the order to send, with size and price as they are written
    /// in it; no order in a simulation, whose market takes no other trade from now on.
    pub fn submit(self, size: String, price: String, cache: &mut TradedMarketsCache) -> (r:
        Submission)
        ensures
            is_submission(r, self, size@, price@),
            r matches Submission::Simulated(placed) ==> placed.record_market == !old(
                cache,
            )@.attempted.contains(self.attempt.slug@) && final(cache)@ == old(cache)@.after(
                conclusion(self.attempt.slug@, TradeOutcome::Placed),
            ),
            r is Send ==> final(cache)@ == old(cache)@,
    {
        if self.simulation {
            let record_market = cache.mark_attempted(self.attempt.slug.as_str());
            Submission::Simulated(PlacedTrade { trade: self, order_id: None, record_market })
        } else {
            let order = OrderRequest {
                token_id: self.token_id.clone(),
                side: "BUY".to_owned(),
                size,
                price,
                order_type: "GTC".to_owned(),
            };
            Submission::Send(order, OpenOrder { trade: self })
        }
    }
}

impl OpenOrder {
    /// The trade of the order.
    pub closed spec fn trade(&self) -> RegisteredTrade {
        self.trade
    }

    /// Ends the attempt with the order id of the reply, if it has one. Without it the trade has
    /// failed.
    pub fn on_reply(self, order_id: Option<String>, cache: &mut TradedMarketsCache) -> (r: Result<
        PlacedTrade,
        TradeError,
    >)
        ensures
            r is Ok <==> order_id is Some,
            r matches Ok(placed) ==> placed.trade == self.trade() && placed.order_id == order_id
                && placed.record_market == !old(cache)@.attempted.contains(
                self.trade().attempt.slug@,
            ) && final(cache)@ == old(cache)@.after(
                conclusion(self.trade().attempt.slug@, TradeOutcome::Placed),
            ),
            r matches Err(e) ==> e == TradeError::NoOrderId && final(cache)@ == old(cache)@.after(
                conclusion(self.trade().attempt.slug@, TradeOutcome::Failed),
            ),
    {
        match order_id {
            Some(id) => {
                let record_market = cache.mark_attempted(self.trade.attempt.slug.as_str());
                Ok(PlacedTrade { trade: self.trade, order_id: Some(id), record_market })
            },
            None => {
                cache.release_pending(self.trade.attempt.slug.as_str());
                Err(TradeError::NoOrderId)
            },
        }
    }

    /// Ends the attempt of an order that was refused.
    pub fn on_refusal(self, cache: &mut TradedMarketsCache)
        ensures
            final(cache)@ == old(cache)@.after(
                conclusion(self.trade().attempt.slug@, TradeOutcome::Failed),
            ),
    {
        cache.release_pending(self.trade.attempt.slug.as_str());
    }
}

// ---------------------------------------------------------------------------------------------
// What a trade depends on.
// ---------------------------------------------------------------------------------------------

/// A trade is registered as it was chosen: the same symbol, side, market, condition and token, at
/// the given limit, with the shares and the mode of the settings and the given cost. Nothing has
/// become of it yet.
pub proof fn law_trade_is_registered_as_chosen(
    record: TradeRecord,
    chosen: ChosenTrade,
    r: RegisteredTrade,
    settings: StrategyConfig,
    limit_price: Binary64,
    cost_usd: Binary64,
)
    requires
        is_registered(r, chosen, settings, limit_price),
        is_record(record, chosen, r, settings, cost_usd),
    ensures
        record.id == r.trade_id,
        record.slug@ == chosen.attempt.slug@ && record.symbol@ == chosen.attempt.symbol@,
        record.side == chosen.attempt.side,
        record.condition_id@ == chosen.condition_id@ && record.token_id@ == chosen.token_id@,
        record.limit_price == limit_price && record.cost_usd == cost_usd,
        record.size == settings.trade_shares && record.simulation == settings.simulation_mode,
        record.fill_status == FillStatus::Pending,
        record.fill_ask is None && record.resolution is None && record.pnl is None,
        r.attempt == chosen.attempt && r.token_id@ == chosen.token_id@,
        r.limit_price == limit_price && r.simulation == settings.simulation_mode,
{
}

/// A simulated trade sends nothing. Any other sends a buy of its own token in the given size at the
/// given price, good until it is cancelled.
pub proof fn law_live_trade_sends_its_order(
    r: Submission,
    trade: RegisteredTrade,
    size: Seq<char>,
    price: Seq<char>,
)
    requires
        is_submission(r, trade, size, price),
    ensures
        trade.simulation ==> r is Simulated && r->Simulated_0.trade == trade
            && r->Simulated_0.order_id is None,
        !trade.simulation ==> r is Send && r->Send_0.token_id@ == trade.token_id@ && r->Send_0.size@
            == size && r->Send_0.price@ == price && r->Send_0.side@ == "BUY"@
            && r->Send_0.order_type@ == "GTC"@ && r->Send_1.trade() == trade,
{
}

/// The settings agree but for the limit price and the trade amount.
pub open spec fn same_used_settings(a: StrategyConfig, b: StrategyConfig) -> bool {
    b == (StrategyConfig {
        limit_price: b.limit_price,
        trade_amount_usd: b.trade_amount_usd,
        ..a
    })
}

/// Two attempts at the same.
pub open spec fn same_attempt(a: TradeAttempt, b: TradeAttempt) -> bool {
    a.symbol@ == b.symbol@ && a.side == b.side && a.period_start == b.period_start && a.slug@
        == b.slug@
}

/// Two buys of the same token at the same ask.
pub open spec fn same_chosen(a: ChosenTrade, b: ChosenTrade) -> bool {
    same_attempt(a.attempt, b.attempt) && a.condition_id@ == b.condition_id@ && a.token_id@
        == b.token_id@ && a.ask == b.ask
}

/// Two choices of the same.
pub open spec fn same_choice(a: Choice, b: Choice) -> bool {
    match (a, b) {
        (Choice::Failed(e), Choice::Failed(f)) => match (e, f) {
            (
                TradeError::MarketNotInRegistry { slug: s },
                TradeError::MarketNotInRegistry { slug: t },
            ) => s@ == t@,
            (TradeError::NoLiveAsk { side: s }, TradeError::NoLiveAsk { side: t }) => s == t,
            (TradeError::NoOrderId, TradeError::NoOrderId) => true,
            _ => false,
        },
        (Choice::Skipped { ask: p }, Choice::Skipped { ask: q }) => p == q,
        (Choice::Chosen(t), Choice::Chosen(u)) => same_chosen(t, u),
        _ => false,
    }
}

/// Two registered trades that are the same.
pub open spec fn same_registered(a: RegisteredTrade, b: RegisteredTrade) -> bool {
    same_attempt(a.attempt, b.attempt) && a.trade_id == b.trade_id && a.token_id@ == b.token_id@
        && a.limit_price == b.limit_price && a.simulation == b.simulation
}

/// Two records of the same trade.
pub open spec fn same_record(a: TradeRecord, b: TradeRecord) -> bool {
    &&& a.id == b.id
    &&& a.slug@ == b.slug@
    &&& a.symbol@ == b.symbol@
    &&& a.side == b.side
    &&& a.condition_id@ == b.condition_id@
    &&& a.token_id@ == b.token_id@
    &&& a.limit_price == b.limit_price
    &&& a.size == b.size
    &&& a.cost_usd == b.cost_usd
    &&& a.simulation == b.simulation
    &&& a.fill_status == b.fill_status
    &&& a.fill_ask == b.fill_ask
    &&& a.resolution == b.resolution
    &&& a.pnl == b.pnl
}

/// Two submissions that send the same order, or none.
pub open spec fn same_submission(a: Submission, b: Submission) -> bool {
    match (a, b) {
        (Submission::Simulated(p), Submission::Simulated(q)) => same_registered(p.trade, q.trade)
            && p.order_id is None && q.order_id is None,
        (Submission::Send(o, x), Submission::Send(p, y)) => same_registered(x.trade(), y.trade())
            && is_limit_buy(p, o.token_id@, o.size@, o.price@) && is_limit_buy(
            o,
            p.token_id@,
            p.size@,
            p.price@,
        ),
        _ => false,
    }
}

/// The market, the asks and the highest ask that is paid fix what becomes of an attempt.
pub proof fn law_choice_is_determined(
    a: Choice,
    b: Choice,
    attempt: TradeAttempt,
    market: Option<SymbolMarketTokens>,
    asks: Map<Seq<char>, Binary64>,
    max_ask: Binary64,
)
    requires
        is_choice(a, attempt, market, asks, max_ask),
        is_choice(b, attempt, market, asks, max_ask),
    ensures
        same_choice(a, b),
{
}

/// The limit price and the trade amount of the settings do not influence what becomes of an
/// attempt.
pub proof fn law_unused_settings_keep_the_choice(
    settings: StrategyConfig,
    other: StrategyConfig,
    a: Choice,
    b: Choice,
    attempt: TradeAttempt,
    market: Option<SymbolMarketTokens>,
    asks: Map<Seq<char>, Binary64>,
)
    requires
        same_used_settings(settings, other),
        is_choice(a, attempt, market, asks, settings.max_ask_price),
        is_choice(b, attempt, market, asks, other.max_ask_price),
    ensures
        same_choice(a, b),
{
    law_choice_is_determined(a, b, attempt, market, asks, settings.max_ask_price);
}

/// The limit price and the trade amount of the settings do not influence a buy either. Registered
/// under the same number, with the same limit and cost, it has the same record, with the shares of
/// the settings as its size, and sends the same order.
pub proof fn law_unused_settings_keep_the_order(
    settings: StrategyConfig,
    other: StrategyConfig,
    chosen: (ChosenTrade, ChosenTrade),
    trades: (RegisteredTrade, RegisteredTrade),
    records: (TradeRecord, TradeRecord),
    submissions: (Submission, Submission),
    limit_price: Binary64,
    cost_usd: Binary64,
    size: Seq<char>,
    price: Seq<char>,
)
    requires
        same_used_settings(settings, other),
        same_chosen(chosen.0, chosen.1),
        trades.0.trade_id == trades.1.trade_id,
        is_registered(trades.0, chosen.0, settings, limit_price),
        is_registered(trades.1, chosen.1, other, limit_price),
        is_record(records.0, chosen.0, trades.0, settings, cost_usd),
        is_record(records.1, chosen.1, trades.1, other, cost_usd),
        is_submission(submissions.0, trades.0, size, price),
        is_submission(submissions.1, trades.1, size, price),
    ensures
        same_registered(trades.0, trades.1),
        same_record(records.0, records.1),
        records.0.size == settings.trade_shares,
        same_submission(submissions.0, submissions.1),
{
}

/// An attempt that was begun in an open market leaves the cache as it was, unless an order was
/// placed; then the market, and no other, has joined those that take no further order.
pub proof fn law_attempt_leaves_no_trace_unless_placed(
    cache: trade_cache::CacheView,
    slug: Seq<char>,
    outcome: TradeOutcome,
)
    requires
        !cache.blocked(slug),
    ensures
        outcome != TradeOutcome::Placed ==> cache.after(CacheOp::MarkPending(slug)).after(
            conclusion(slug, outcome),
        ) == cache,
        outcome == TradeOutcome::Placed ==> cache.after(CacheOp::MarkPending(slug)).after(
            conclusion(slug, outcome),
        ).attempted == cache.attempted.insert(slug) && cache.after(
            CacheOp::MarkPending(slug),
        ).after(conclusion(slug, outcome)).pending == cache.pending,
{
    let done = cache.after(CacheOp::MarkPending(slug)).after(conclusion(slug, outcome));
    assert(done.pending =~= cache.pending);
}

/// No second attempt begins in a market while an attempt there is under way, which no one but it
/// releases, nor ever once it has placed an order, whatever happens in the meantime.
pub proof fn law_one_order_per_market(
    cache: trade_cache::CacheView,
    slug: Seq<char>,
    meanwhile: Seq<CacheOp>,
    later: Seq<CacheOp>,
)
    requires
        forall|i: int|
            0 <= i < meanwhile.len() ==> #[trigger] meanwhile[i] != CacheOp::ReleasePending(slug),
    ensures
        cache.after(CacheOp::MarkPending(slug)).after_all(meanwhile).blocked(slug),
        cache.after(CacheOp::MarkPending(slug)).after_all(meanwhile).after(
            conclusion(slug, TradeOutcome::Placed),
        ).after_all(later).blocked(slug),
{
    let under_way = cache.after(CacheOp::MarkPending(slug));
    trade_cache::law_blocked_until_released(under_way, meanwhile, slug);
    trade_cache::law_attempted_stays_blocked(
        under_way.after_all(meanwhile).after(conclusion(slug, TradeOutcome::Placed)),
        later,
        slug,
    );
}

// ---------------------------------------------------------------------------------------------
// The log of trades.
// ---------------------------------------------------------------------------------------------

/// The amounts in a line about a buy, already rendered.
#[derive(Debug, Clone)]
pub struct BuyAmounts {
    pub size: String,
    pub limit_price: String,
    pub notional: String,
    pub spot: String,
    pub change: String,
    pub ask: Option<String>,
}

/// The line about a buy.
pub open spec fn buy_line(
    simulation: bool,
    upper: Seq<char>,
    side: TradeSide,
    amounts: BuyAmounts,
    slug: Seq<char>,
    order_id: Option<Seq<char>>,
    timestamp_ms: int,
) -> Seq<char> {
    "BUY ["@ + (if simulation {
        "SIM"@
    } else {
        "LIVE"@
    }) + "] "@ + upper + " "@ + side.label() + " "@ + amounts.size@ + " shares @ $"@
        + amounts.limit_price@ + " ($"@ + amounts.notional@ + " notional) slug="@ + slug
        + " spot=$"@ + amounts.spot@ + " change=$"@ + amounts.change@ + (match amounts.ask {
        Some(ask) => " ask=$"@ + ask@,
        None => Seq::empty(),
    }) + (match order_id {
        Some(id) => " order_id="@ + id,
        None => Seq::empty(),
    }) + " @ "@ + text::decimal(timestamp_ms)
}

/// The line about a buy that failed.
pub open spec fn failed_buy_line(
    upper: Seq<char>,
    side: TradeSide,
    spot: Seq<char>,
    change: Seq<char>,
    error: Seq<char>,
    timestamp_ms: int,
) -> Seq<char> {
    "BUY [FAILED] "@ + upper + " "@ + side.label() + " spot=$"@ + spot + " change=$"@ + change
        + " error=\""@ + error + "\" @ "@ + text::decimal(timestamp_ms)
}

/// The line about a buy, the symbol given in uppercase.
pub fn render_buy_line(
    simulation: bool,
    upper: &str,
    side: TradeSide,
    amounts: &BuyAmounts,
    slug: &str,
    order_id: &Option<String>,
    timestamp_ms: u64,
) -> (r: String)
    ensures
        r@ == buy_line(
            simulation,
            upper@,
            side,
            *amounts,
            slug@,
            text::opt_view(*order_id),
            timestamp_ms as int,
        ),
{
    let mut out = String::new();
    out.append("BUY [");
    out.append(
        if simulation {
            "SIM"
        } else {
            "LIVE"
        },
    );
    out.append("] ");
    out.append(upper);
    out.append(" ");
    out.append(side.as_str());
    out.append(" ");
    out.append(amounts.size.as_str());
    out.append(" shares @ $");
    out.append(amounts.limit_price.as_str());
    out.append(" ($");
    out.append(amounts.notional.as_str());
    out.append(" notional) slug=");
    out.append(slug);
    out.append(" spot=$");
    out.append(amounts.spot.as_str());
    out.append(" change=$");
    out.append(amounts.change.as_str());
    match &amounts.ask {
        Some(ask) => {
            out.append(" ask=$");
            out.append(ask.as_str());
        },
        None => {},
    }
    match order_id {
        Some(id) => {
            out.append(" order_id=");
            out.append(id.as_str());
        },
        None => {},
    }
    out.append(" @ ");
    text::push_decimal_u64(&mut out, timestamp_ms);
    assert(out@ =~= buy_line(
        simulation,
        upper@,
        side,
        *amounts,
        slug@,
        text::opt_view(*order_id),
        timestamp_ms as int,
    ));
    out
}

/// The line about a buy of a symbol.
pub fn trade_log_line(
    simulation: bool,
    symbol: &str,
    side: TradeSide,
    amounts: &BuyAmounts,
    slug: &str,
    order_id: &Option<String>,
    timestamp_ms: u64,
) -> (r: String)
    ensures
        r@ == buy_line(
            simulation,
            text::uppercase(symbol@),
            side,
            *amounts,
            slug@,
            text::opt_view(*order_id),
            timestamp_ms as int,
        ),
        text::ascii(symbol@) ==> r@ == buy_line(
            simulation,
            text::ascii_uppercase(symbol@),
            side,
            *amounts,
            slug@,
            text::opt_view(*order_id),
            timestamp_ms as int,
        ),
{
    let upper = symbol.to_uppercase();
    render_buy_line(simulation, upper.as_str(), side, amounts, slug, order_id, timestamp_ms)
}

/// The line about a buy of a symbol that failed.
pub fn failed_trade_log_line(
    symbol: &str,
    side: TradeSide,
    spot: &str,
    change: &str,
    error: &str,
    timestamp_ms: u64,
) -> (r: String)
    ensures
        r@ == failed_buy_line(
            text::uppercase(symbol@),
            side,
            spot@,
            change@,
            error@,
            timestamp_ms as int,
        ),
        text::ascii(symbol@) ==> r@ == failed_buy_line(
            text::ascii_uppercase(symbol@),
            side,
            spot@,
            change@,
            error@,
            timestamp_ms as int,
        ),
{
    let upper = symbol.to_uppercase();
    let mut out = String::new();
    out.append("BUY [FAILED] ");
    out.append(upper.as_str());
    out.append(" ");
    out.append(side.as_str());
    out.append(" spot=$");
    out.append(spot);
    out.append(" change=$");
    out.append(change);
    out.append(" error=\"");
    out.append(error);
    out.append("\" @ ");
    text::push_decimal_u64(&mut out, timestamp_ms);
    assert(out@ =~= failed_buy_line(upper@, side, spot@, change@, error@, timestamp_ms as int));
    out
}

/// A line about a buy says, in this order, the mode, the symbol, the side, the amounts, the market,
/// the ask and the order where there are any, and the time.
pub proof fn law_buy_line_says_it_all(
    simulation: bool,
    mode: Seq<char>,
    upper: Seq<char>,
    side: TradeSide,
    amounts: BuyAmounts,
    ask: Seq<char>,
    slug: Seq<char>,
    order_id: Option<Seq<char>>,
    order: Seq<char>,
    timestamp_ms: nat,
)
    requires
        simulation ==> mode == "SIM"@,
        !simulation ==> mode == "LIVE"@,
        amounts.ask is None ==> ask.len() == 0,
        amounts.ask is Some ==> ask == " ask=$"@ + amounts.ask->0@,
        order_id is None ==> order.len() == 0,
        order_id is Some ==> order == " order_id="@ + order_id->0,
    ensures
        buy_line(simulation, upper, side, amounts, slug, order_id, timestamp_ms as int) == "BUY ["@
            + mode + "] "@ + upper + " "@ + side.label() + " "@ + amounts.size@ + " shares @ $"@
            + amounts.limit_price@ + " ($"@ + amounts.notional@ + " notional) slug="@ + slug
            + " spot=$"@ + amounts.spot@ + " change=$"@ + amounts.change@ + ask + order + " @ "@
            + text::decimal(timestamp_ms as int),
{
    if amounts.ask is None {
        assert(ask =~= Seq::<char>::empty());
    }
    if order_id is None {
        assert(order =~= Seq::<char>::empty());
    }
}

/// A line about a failed buy says, in this order, the symbol, the side, the prices, the error and
/// the time.
pub proof fn law_failed_buy_line_says_it_all(
    upper: Seq<char>,
    side: TradeSide,
    spot: Seq<char>,
    change: Seq<char>,
    error: Seq<char>,
    timestamp_ms: nat,
)
    ensures
        failed_buy_line(upper, side, spot, change, error, timestamp_ms as int) == "BUY [FAILED] "@
            + upper + " "@ + side.label() + " spot=$"@ + spot + " change=$"@ + change
            + " error=\""@ + error + "\" @ "@ + text::decimal(timestamp_ms as int),
{
}

/// The last signal of a symbol is the one that was noted for it, if one was.
pub proof fn law_last_signal_is_the_noted_one(gate: Map<Seq<char>, u64>, symbol: Seq<char>)
    ensures
        last_signal(gate, symbol) is Some <==> gate.contains_key(symbol),
        gate.contains_key(symbol) ==> last_signal(gate, symbol) == Some(gate[symbol]),
{
}

/// Momentum can be measured where every lookback in milliseconds is a `u64`.
pub proof fn law_lookbacks_that_fit(entries: Seq<(String, SymbolMomentumConfig)>)
    ensures
        lookbacks_fit(entries) <==> forall|i: int|
            0 <= i < entries.len() ==> (#[trigger] entries[i]).1.lookback_secs
                <= 18_446_744_073_709_551,
{
}

/// The errors of a trade name the market or the side.
pub proof fn law_trade_errors_name_their_cause(slug: String, side: TradeSide)
    ensures
        (TradeError::MarketNotInRegistry { slug }).text() == "Market not in registry: "@ + slug@,
        (TradeError::NoLiveAsk { side }).text() == "No live ask for "@ + side.label()
            + " token — cannot place at current ask"@,
        TradeError::NoOrderId.text() == "No order_id returned"@,
{
}

} // verus!
