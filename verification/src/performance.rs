//! Fill detection, resolution tracking and statistics of the trades.

use crate::binary64::Binary64;
use crate::models::TradeSide;
use crate::text;
use vstd::prelude::*;

verus! {

// ---------------------------------------------------------------------------------------------
// Trades and statistics.
// ---------------------------------------------------------------------------------------------

#[derive(Debug, Clone, Copy, PartialEq, Eq, Structural)]
pub enum FillStatus {
    Pending,
    Filled,
    Unfilled,
}

#[derive(Debug, Clone, Copy, PartialEq, Eq, Structural)]
pub enum Resolution {
    Win,
    Lose,
}

/// A limit buy and what became of it.
#[derive(Debug, Clone)]
pub struct TradeRecord {
    pub id: u64,
    pub slug: String,
    pub symbol: String,
    pub side: TradeSide,
    pub condition_id: String,
    pub token_id: String,
    pub limit_price: Binary64,
    pub size: Binary64,
    pub cost_usd: Binary64,
    pub simulation: bool,
    pub fill_status: FillStatus,
    pub fill_ask: Option<Binary64>,
    pub resolution: Option<Resolution>,
    pub pnl: Option<Binary64>,
}

/// Counts over all trades.
#[derive(Debug, Clone, Copy, PartialEq, Eq, Structural)]
pub struct PerformanceStats {
    pub total_signals: u64,
    pub filled_trades: u64,
    pub unfilled_trades: u64,
    pub pending_resolution: u64,
    pub resolved_wins: u64,
    pub resolved_losses: u64,
    pub cumulative_pnl: Binary64,
}

/// A rate as a fraction.
#[derive(Debug, Clone, Copy, PartialEq, Eq, Structural)]
pub struct Rate {
    pub numerator: u64,
    pub denominator: u64,
}

/// `part` of `whole` as a fraction; zero of nothing is zero.
pub open spec fn rate_of(part: int, whole: int) -> (int, int) {
    if whole == 0 {
        (0, 1)
    } else {
        (part, whole)
    }
}

impl Default for PerformanceStats {
    fn default() -> (r: PerformanceStats)
        ensures
            r == no_stats(),
    {
        PerformanceStats {
            total_signals: 0,
            filled_trades: 0,
            unfilled_trades: 0,
            pending_resolution: 0,
            resolved_wins: 0,
            resolved_losses: 0,
            cumulative_pnl: Binary64::from_bits(0),
        }
    }
}

/// The statistics of no trade.
pub open spec fn no_stats() -> PerformanceStats {
    PerformanceStats {
        total_signals: 0,
        filled_trades: 0,
        unfilled_trades: 0,
        pending_resolution: 0,
        resolved_wins: 0,
        resolved_losses: 0,
        cumulative_pnl: Binary64 { bits: 0 },
    }
}

impl PerformanceStats {
    /// The filled trades out of the signals; zero where there was no signal.
    pub fn fill_rate(&self) -> (r: Rate)
        ensures
            (r.numerator as int, r.denominator as int) == rate_of(
                self.filled_trades as int,
                self.total_signals as int,
            ),
    {
        if self.total_signals == 0 {
            Rate { numerator: 0, denominator: 1 }
        } else {
            Rate { numerator: self.filled_trades, denominator: self.total_signals }
        }
    }

    /// The wins out of the resolved trades; zero where none is resolved.
    pub fn win_rate(&self) -> (r: Rate)
        requires
            self.resolved_wins + self.resolved_losses <= u64::MAX,
        ensures
            (r.numerator as int, r.denominator as int) == rate_of(
                self.resolved_wins as int,
                self.resolved_wins + self.resolved_losses,
            ),
    {
        let resolved: u64 = self.resolved_wins + self.resolved_losses;
        if resolved == 0 {
            Rate { numerator: 0, denominator: 1 }
        } else {
            Rate { numerator: self.resolved_wins, denominator: resolved }
        }
    }
}

// ---------------------------------------------------------------------------------------------
// The model of the tracker.
// ---------------------------------------------------------------------------------------------

/// The trades in the order of their registration, and the statistics.
pub struct TrackerView {
    pub trades: Seq<TradeRecord>,
    pub stats: PerformanceStats,
}

/// One where the condition holds, otherwise zero.
pub open spec fn one_if(condition: bool) -> int {
    if condition {
        1
    } else {
        0
    }
}

/// How many trades are such.
pub open spec fn count(trades: Seq<TradeRecord>, such: spec_fn(TradeRecord) -> bool) -> nat
    decreases trades.len(),
{
    if trades.len() == 0 {
        0
    } else {
        (count(trades.drop_last(), such) + one_if(such(trades.last()))) as nat
    }
}

pub open spec fn is_pending() -> spec_fn(TradeRecord) -> bool {
    |t: TradeRecord| t.fill_status == FillStatus::Pending
}

pub open spec fn is_filled() -> spec_fn(TradeRecord) -> bool {
    |t: TradeRecord| t.fill_status == FillStatus::Filled
}

pub open spec fn is_unfilled() -> spec_fn(TradeRecord) -> bool {
    |t: TradeRecord| t.fill_status == FillStatus::Unfilled
}

pub open spec fn is_unresolved() -> spec_fn(TradeRecord) -> bool {
    |t: TradeRecord| t.fill_status == FillStatus::Filled && t.resolution is None
}

pub open spec fn is_won() -> spec_fn(TradeRecord) -> bool {
    |t: TradeRecord| t.resolution == Some(Resolution::Win)
}

pub open spec fn is_lost() -> spec_fn(TradeRecord) -> bool {
    |t: TradeRecord| t.resolution == Some(Resolution::Lose)
}

/// Only a filled trade is resolved, and a resolved trade has a profit or loss.
pub open spec fn consistent(t: TradeRecord) -> bool {
    &&& t.resolution is Some ==> t.fill_status == FillStatus::Filled
    &&& t.pnl is Some <==> t.resolution is Some
    &&& t.fill_status == FillStatus::Filled ==> t.fill_ask is Some
    &&& t.fill_status == FillStatus::Pending ==> t.fill_ask is None
}

impl TrackerView {
    /// The trades are numbered from 1, each is consistent, and the statistics count them.
    pub open spec fn wf(self) -> bool {
        &&& forall|i: int| 0 <= i < self.trades.len() ==> (#[trigger] self.trades[i]).id == i + 1
        &&& forall|i: int| 0 <= i < self.trades.len() ==> consistent(#[trigger] self.trades[i])
        &&& self.stats.filled_trades == count(self.trades, is_filled())
        &&& self.stats.unfilled_trades == count(self.trades, is_unfilled())
        &&& self.stats.pending_resolution == count(self.trades, is_unresolved())
        &&& self.stats.resolved_wins == count(self.trades, is_won())
        &&& self.stats.resolved_losses == count(self.trades, is_lost())
    }

    pub open spec fn has(self, id: int) -> bool {
        1 <= id <= self.trades.len()
    }

    pub open spec fn trade(self, id: int) -> TradeRecord {
        self.trades[id - 1]
    }

    /// The trade is there and waits for its fill.
    pub open spec fn awaits_fill(self, id: int) -> bool {
        self.has(id) && self.trade(id).fill_status == FillStatus::Pending
    }

    /// The trade is there, filled, and waits for its market's resolution.
    pub open spec fn awaits_resolution(self, id: int) -> bool {
        self.has(id) && self.trade(id).fill_status == FillStatus::Filled && self.trade(
            id,
        ).resolution is None
    }

    pub open spec fn with_trade(self, id: int, t: TradeRecord, stats: PerformanceStats) -> TrackerView {
        TrackerView { trades: self.trades.update(id - 1, t), stats }
    }

    /// After the trade was filled at `ask`. Nothing changes unless it waited for its fill.
    pub open spec fn filled(self, id: int, ask: Binary64) -> TrackerView {
        if self.awaits_fill(id) {
            self.with_trade(
                id,
                TradeRecord {
                    fill_status: FillStatus::Filled,
                    fill_ask: Some(ask),
                    ..self.trade(id)
                },
                PerformanceStats {
                    filled_trades: (self.stats.filled_trades + 1) as u64,
                    pending_resolution: (self.stats.pending_resolution + 1) as u64,
                    ..self.stats
                },
            )
        } else {
            self
        }
    }

    /// After the trade was given up. Nothing changes unless it waited for its fill.
    pub open spec fn unfilled(self, id: int, last_ask: Option<Binary64>) -> TrackerView {
        if self.awaits_fill(id) {
            self.with_trade(
                id,
                TradeRecord {
                    fill_status: FillStatus::Unfilled,
                    fill_ask: last_ask,
                    ..self.trade(id)
                },
                PerformanceStats {
                    unfilled_trades: (self.stats.unfilled_trades + 1) as u64,
                    ..self.stats
                },
            )
        } else {
            self
        }
    }

    /// What a trade earned: `win_pnl` where it won, otherwise its cost is lost.
    pub open spec fn pnl_of(self, id: int, won: bool, win_pnl: Binary64) -> Binary64 {
        if won {
            win_pnl
        } else {
            self.trade(id).cost_usd.opposite()
        }
    }

    /// After the trade's market was resolved. Nothing changes unless it waited for that.
    pub open spec fn resolved(
        self,
        id: int,
        won: bool,
        win_pnl: Binary64,
        cumulative_pnl: Binary64,
    ) -> TrackerView {
        if self.awaits_resolution(id) {
            self.with_trade(
                id,
                TradeRecord {
                    resolution: Some(
                        if won {
                            Resolution::Win
                        } else {
                            Resolution::Lose
                        },
                    ),
                    pnl: Some(self.pnl_of(id, won, win_pnl)),
                    ..self.trade(id)
                },
                PerformanceStats {
                    pending_resolution: (self.stats.pending_resolution - 1) as u64,
                    resolved_wins: (self.stats.resolved_wins + one_if(won)) as u64,
                    resolved_losses: (self.stats.resolved_losses + one_if(!won)) as u64,
                    cumulative_pnl,
                    ..self.stats
                },
            )
        } else {
            self
        }
    }
}

// ---------------------------------------------------------------------------------------------
// Counting.
// ---------------------------------------------------------------------------------------------

proof fn lemma_count_bound(trades: Seq<TradeRecord>, such: spec_fn(TradeRecord) -> bool)
    ensures
        count(trades, such) <= trades.len(),
    decreases trades.len(),
{
    if trades.len() > 0 {
        lemma_count_bound(trades.drop_last(), such);
    }
}

proof fn lemma_count_push(
    trades: Seq<TradeRecord>,
    t: TradeRecord,
    such: spec_fn(TradeRecord) -> bool,
)
    ensures
        count(trades.push(t), such) == count(trades, such) + one_if(such(t)),
{
    assert(trades.push(t).drop_last() =~= trades);
}

/// Replacing a trade changes a count by that trade alone.
proof fn lemma_count_update(
    trades: Seq<TradeRecord>,
    i: int,
    t: TradeRecord,
    such: spec_fn(TradeRecord) -> bool,
)
    requires
        0 <= i < trades.len(),
    ensures
        count(trades.update(i, t), such) == count(trades, such) - one_if(such(trades[i])) + one_if(such(t)),
    decreases trades.len(),
{
    let updated = trades.update(i, t);
    if i == trades.len() - 1 {
        assert(updated.drop_last() =~= trades.drop_last());
    } else {
        assert(updated.drop_last() =~= trades.drop_last().update(i, t));
        lemma_count_update(trades.drop_last(), i, t, such);
        assert(updated.last() == trades.last());
    }
}

/// Where a trade is not such, not all trades are.
proof fn lemma_count_gap(trades: Seq<TradeRecord>, i: int, such: spec_fn(TradeRecord) -> bool)
    requires
        0 <= i < trades.len(),
    ensures
        !such(trades[i]) ==> count(trades, such) < trades.len(),
        such(trades[i]) ==> count(trades, such) > 0,
    decreases trades.len(),
{
    lemma_count_bound(trades.drop_last(), such);
    if i < trades.len() - 1 {
        lemma_count_gap(trades.drop_last(), i, such);
    }
}

/// The effect of replacing a trade on all counts.
proof fn lemma_counts_update(v: TrackerView, id: int, t: TradeRecord)
    requires
        v.has(id),
    ensures
        ({
            let after = v.trades.update(id - 1, t);
            let before = v.trade(id);
            &&& count(after, is_filled()) == count(v.trades, is_filled()) - one_if(is_filled()(before)) + one_if(is_filled()(t))
            &&& count(after, is_unfilled()) == count(v.trades, is_unfilled()) - one_if(is_unfilled()(before)) + one_if(is_unfilled()(t))
            &&& count(after, is_unresolved()) == count(v.trades, is_unresolved()) - one_if(is_unresolved()(before)) + one_if(is_unresolved()(t))
            &&& count(after, is_won()) == count(v.trades, is_won()) - one_if(is_won()(before)) + one_if(is_won()(t))
            &&& count(after, is_lost()) == count(v.trades, is_lost()) - one_if(is_lost()(before)) + one_if(is_lost()(t))
        }),
{
    lemma_count_update(v.trades, id - 1, t, is_filled());
    lemma_count_update(v.trades, id - 1, t, is_unfilled());
    lemma_count_update(v.trades, id - 1, t, is_unresolved());
    lemma_count_update(v.trades, id - 1, t, is_won());
    lemma_count_update(v.trades, id - 1, t, is_lost());
}

/// Every trade is pending, filled or unfilled, and every filled trade is unresolved, won or lost:
/// the statistics add up.
pub proof fn law_stats_add_up(v: TrackerView)
    requires
        v.wf(),
    ensures
        count(v.trades, is_pending()) + v.stats.filled_trades + v.stats.unfilled_trades
            == v.trades.len(),
        v.stats.pending_resolution + v.stats.resolved_wins + v.stats.resolved_losses
            == v.stats.filled_trades,
{
    lemma_partition(v.trades);
}

proof fn lemma_partition(trades: Seq<TradeRecord>)
    requires
        forall|i: int| 0 <= i < trades.len() ==> consistent(#[trigger] trades[i]),
    ensures
        count(trades, is_pending()) + count(trades, is_filled()) + count(trades, is_unfilled())
            == trades.len(),
        count(trades, is_unresolved()) + count(trades, is_won()) + count(trades, is_lost())
            == count(trades, is_filled()),
    decreases trades.len(),
{
    if trades.len() > 0 {
        let front = trades.drop_last();
        assert forall|i: int| 0 <= i < front.len() implies consistent(#[trigger] front[i]) by {
            assert(front[i] == trades[i]);
        }
        lemma_partition(front);
        let t = trades[trades.len() - 1];
        assert(consistent(t));
        match t.resolution {
            Some(Resolution::Win) => {
                assert(is_won()(t) && !is_lost()(t));
            },
            Some(Resolution::Lose) => {
                assert(is_lost()(t) && !is_won()(t));
            },
            None => {},
        }
    }
}

/// The statistics have room for one more trade of each kind.
proof fn lemma_room(v: TrackerView, id: int)
    requires
        v.wf(),
        v.has(id),
    ensures
        v.awaits_fill(id) ==> v.stats.filled_trades < v.trades.len() && v.stats.unfilled_trades
            < v.trades.len() && v.stats.pending_resolution < v.trades.len(),
        v.awaits_resolution(id) ==> 0 < v.stats.pending_resolution && v.stats.resolved_wins
            < v.trades.len() && v.stats.resolved_losses < v.trades.len(),
{
    lemma_count_gap(v.trades, id - 1, is_filled());
    lemma_count_gap(v.trades, id - 1, is_unfilled());
    lemma_count_gap(v.trades, id - 1, is_unresolved());
    lemma_count_gap(v.trades, id - 1, is_won());
    lemma_count_gap(v.trades, id - 1, is_lost());
}

/// A fill keeps the numbering, the consistency and the counts.
proof fn lemma_filled_keeps_wf(v: TrackerView, id: int, ask: Binary64)
    requires
        v.wf(),
        v.trades.len() <= u64::MAX,
    ensures
        v.filled(id, ask).wf(),
{
    if v.awaits_fill(id) {
        let after = v.filled(id, ask);
        lemma_room(v, id);
        lemma_counts_update(v, id, after.trade(id));
        lemma_others_kept(v, after, id);
    }
}

/// Giving a trade up keeps the numbering, the consistency and the counts.
proof fn lemma_unfilled_keeps_wf(v: TrackerView, id: int, last_ask: Option<Binary64>)
    requires
        v.wf(),
        v.trades.len() <= u64::MAX,
    ensures
        v.unfilled(id, last_ask).wf(),
{
    if v.awaits_fill(id) {
        let after = v.unfilled(id, last_ask);
        lemma_room(v, id);
        lemma_counts_update(v, id, after.trade(id));
        lemma_others_kept(v, after, id);
    }
}

/// A resolution keeps the numbering, the consistency and the counts.
proof fn lemma_resolved_keeps_wf(
    v: TrackerView,
    id: int,
    won: bool,
    win_pnl: Binary64,
    cumulative_pnl: Binary64,
)
    requires
        v.wf(),
        v.trades.len() <= u64::MAX,
    ensures
        v.resolved(id, won, win_pnl, cumulative_pnl).wf(),
{
    if v.awaits_resolution(id) {
        let after = v.resolved(id, won, win_pnl, cumulative_pnl);
        lemma_room(v, id);
        lemma_counts_update(v, id, after.trade(id));
        lemma_others_kept(v, after, id);
    }
}

/// Replacing one consistent trade by another of the same number keeps numbering and consistency.
proof fn lemma_others_kept(v: TrackerView, after: TrackerView, id: int)
    requires
        v.wf(),
        v.has(id),
        after.trades == v.trades.update(id - 1, after.trade(id)),
        after.trade(id).id == v.trade(id).id,
        consistent(after.trade(id)),
    ensures
        forall|i: int| 0 <= i < after.trades.len() ==> (#[trigger] after.trades[i]).id == i + 1,
        forall|i: int| 0 <= i < after.trades.len() ==> consistent(#[trigger] after.trades[i]),
{
    assert forall|i: int| 0 <= i < after.trades.len() implies (#[trigger] after.trades[i]).id == i
        + 1 && consistent(after.trades[i]) by {
        assert(v.trades[i].id == i + 1);
        assert(consistent(v.trades[i]));
    }
}

/// A trade is filled or given up once: what comes second changes nothing.
pub proof fn law_fill_is_final(
    v: TrackerView,
    id: int,
    ask: Binary64,
    again: Binary64,
    last_ask: Option<Binary64>,
)
    ensures
        v.filled(id, ask).filled(id, again) == v.filled(id, ask),
        v.awaits_fill(id) ==> v.filled(id, ask).unfilled(id, last_ask) == v.filled(id, ask),
        v.awaits_fill(id) ==> v.unfilled(id, last_ask).filled(id, ask) == v.unfilled(id, last_ask),
        v.unfilled(id, last_ask).unfilled(id, Some(ask)) == v.unfilled(id, last_ask),
{
}

/// A trade is resolved once: a second resolution changes nothing, whatever it says.
pub proof fn law_resolution_is_final(
    v: TrackerView,
    id: int,
    won: bool,
    win_pnl: Binary64,
    cumulative_pnl: Binary64,
    won_again: bool,
    win_pnl_again: Binary64,
    cumulative_again: Binary64,
)
    ensures
        v.resolved(id, won, win_pnl, cumulative_pnl).resolved(
            id,
            won_again,
            win_pnl_again,
            cumulative_again,
        ) == v.resolved(id, won, win_pnl, cumulative_pnl),
{
}

/// A trade that was given up, or still waits for its fill, is never resolved.
pub proof fn law_only_fills_resolve(
    v: TrackerView,
    id: int,
    won: bool,
    win_pnl: Binary64,
    cumulative_pnl: Binary64,
)
    requires
        v.has(id),
        v.trade(id).fill_status != FillStatus::Filled,
    ensures
        v.resolved(id, won, win_pnl, cumulative_pnl) == v,
{
}

/// What happens to one trade leaves every other trade as it is.
pub proof fn law_other_trades_untouched(
    v: TrackerView,
    id: int,
    other: int,
    ask: Binary64,
    last_ask: Option<Binary64>,
    won: bool,
    win_pnl: Binary64,
    cumulative_pnl: Binary64,
)
    requires
        v.has(other),
        id != other,
    ensures
        v.filled(id, ask).trade(other) == v.trade(other),
        v.unfilled(id, last_ask).trade(other) == v.trade(other),
        v.resolved(id, won, win_pnl, cumulative_pnl).trade(other) == v.trade(other),
{
}

// ---------------------------------------------------------------------------------------------
// The tracker.
// ---------------------------------------------------------------------------------------------

/// What is needed to settle a trade whose market is resolved.
#[derive(Debug, Clone, Copy, PartialEq, Eq, Structural)]
pub struct Settlement {
    pub size: Binary64,
    pub cost_usd: Binary64,
    pub cumulative_pnl: Binary64,
}

impl Settlement {
    /// What the trade earned: `win_pnl`, which is the size less the cost, where it won; otherwise
    /// its cost is lost.
    pub fn pnl(self, won: bool, win_pnl: Binary64) -> (r: Binary64)
        ensures
            r == (if won {
                win_pnl
            } else {
                self.cost_usd.opposite()
            }),
    {
        if won {
            win_pnl
        } else {
            self.cost_usd.neg()
        }
    }
}

/// All trades since the start, and their statistics.
pub struct PerformanceTracker {
    next_id: u64,
    trades: Vec<TradeRecord>,
    stats: PerformanceStats,
    log_path: Option<String>,
}

impl View for PerformanceTracker {
    type V = TrackerView;

    closed spec fn view(&self) -> TrackerView {
        TrackerView { trades: self.trades@, stats: self.stats }
    }
}

/// The numbers and conditions of the filled trades whose markets are not resolved.
pub open spec fn unresolved_trades(trades: Seq<TradeRecord>) -> Seq<(u64, Seq<char>)>
    decreases trades.len(),
{
    if trades.len() == 0 {
        Seq::empty()
    } else {
        let front = unresolved_trades(trades.drop_last());
        if is_unresolved()(trades.last()) {
            front.push((trades.last().id, trades.last().condition_id@))
        } else {
            front
        }
    }
}

pub open spec fn id_text_views(v: Seq<(u64, String)>) -> Seq<(u64, Seq<char>)> {
    Seq::new(v.len(), |i: int| (v[i].0, v[i].1@))
}

impl PerformanceTracker {
    pub closed spec fn wf(&self) -> bool {
        self.next_id == self.trades@.len() + 1 && self@.wf()
    }

    /// Where the events are logged.
    pub closed spec fn log_file(&self) -> Option<String> {
        self.log_path
    }

    /// The numbering, the consistency and the counts hold of every tracker.
    pub proof fn law_tracker_is_consistent(&self)
        requires
            self.wf(),
        ensures
            self@.wf(),
    {
    }

    /// A tracker without trades.
    pub fn new(log_path: Option<String>) -> (r: PerformanceTracker)
        ensures
            r.wf(),
            r@.trades == Seq::<TradeRecord>::empty(),
            r@.stats == no_stats(),
            r.log_file() == log_path,
    {
        PerformanceTracker {
            next_id: 1,
            trades: Vec::new(),
            stats: PerformanceStats::default(),
            log_path,
        }
    }

    /// The statistics.
    pub fn stats(&self) -> (r: &PerformanceStats)
        ensures
            *r == self@.stats,
    {
        &self.stats
    }

    /// Where the events are logged.
    pub fn log_path(&self) -> (r: &Option<String>)
        ensures
            *r == self.log_file(),
    {
        &self.log_path
    }

    /// Counts a signal.
    pub fn record_signal(&mut self)
        requires
            old(self).wf(),
            old(self)@.stats.total_signals < u64::MAX,
        ensures
            final(self).wf(),
            final(self)@.trades == old(self)@.trades,
            final(self)@.stats == (PerformanceStats {
                total_signals: (old(self)@.stats.total_signals + 1) as u64,
                ..old(self)@.stats
            }),
            final(self).log_file() == old(self).log_file(),
    {
        self.stats.total_signals = self.stats.total_signals + 1;
    }

    /// Registers a trade that waits for its fill. Gives its number.
    pub fn register_trade(
        &mut self,
        slug: String,
        symbol: String,
        side: TradeSide,
        condition_id: String,
        token_id: String,
        limit_price: Binary64,
        size: Binary64,
        cost_usd: Binary64,
        simulation: bool,
    ) -> (r: u64)
        requires
            old(self).wf(),
            old(self)@.trades.len() + 2 <= u64::MAX,
        ensures
            final(self).wf(),
            r == old(self)@.trades.len() + 1,
            final(self)@.trades == old(self)@.trades.push(
                (TradeRecord {
                    id: r,
                    slug,
                    symbol,
                    side,
                    condition_id,
                    token_id,
                    limit_price,
                    size,
                    cost_usd,
                    simulation,
                    fill_status: FillStatus::Pending,
                    fill_ask: None,
                    resolution: None,
                    pnl: None,
                }),
            ),
            final(self)@.stats == old(self)@.stats,
            final(self).log_file() == old(self).log_file(),
    {
        let id = self.next_id;
        self.next_id = self.next_id + 1;
        let trade = TradeRecord {
            id,
            slug,
            symbol,
            side,
            condition_id,
            token_id,
            limit_price,
            size,
            cost_usd,
            simulation,
            fill_status: FillStatus::Pending,
            fill_ask: None,
            resolution: None,
            pnl: None,
        };
        proof {
            lemma_count_push(self.trades@, trade, is_filled());
            lemma_count_push(self.trades@, trade, is_unfilled());
            lemma_count_push(self.trades@, trade, is_unresolved());
            lemma_count_push(self.trades@, trade, is_won());
            lemma_count_push(self.trades@, trade, is_lost());
        }
        self.trades.push(trade);
        id
    }

    /// The position of a trade.
    fn find(&self, trade_id: u64) -> (r: Option<usize>)
        requires
            self.wf(),
        ensures
            match r {
                Some(i) => self@.has(trade_id as int) && i == trade_id - 1,
                None => !self@.has(trade_id as int),
            },
    {
        let mut i: usize = 0;
        while i < self.trades.len()
            invariant
                self.wf(),
                0 <= i <= self.trades@.len(),
                forall|j: int| 0 <= j < i ==> (#[trigger] self@.trades[j]).id != trade_id,
            decreases self.trades@.len() - i,
        {
            assert(self@.trades[i as int].id == i + 1);
            if self.trades[i].id == trade_id {
                return Some(i);
            }
            i = i + 1;
        }
        proof {
            if self@.has(trade_id as int) {
                assert(self@.trades[trade_id - 1].id == trade_id);
            }
        }
        None
    }

    /// A trade.
    pub fn trade(&self, trade_id: u64) -> (r: Option<&TradeRecord>)
        requires
            self.wf(),
        ensures
            match r {
                Some(t) => self@.has(trade_id as int) && *t == self@.trade(trade_id as int),
                None => !self@.has(trade_id as int),
            },
    {
        match self.find(trade_id) {
            Some(i) => Some(&self.trades[i]),
            None => None,
        }
    }

    /// The trade was filled at `ask`. `true` where it waited for that; otherwise nothing changes.
    pub fn mark_filled(&mut self, trade_id: u64, ask: Binary64) -> (r: bool)
        requires
            old(self).wf(),
        ensures
            final(self).wf(),
            r == old(self)@.awaits_fill(trade_id as int),
            final(self)@ == old(self)@.filled(trade_id as int, ask),
            final(self).log_file() == old(self).log_file(),
    {
        let ghost before = self@;
        match self.find(trade_id) {
            Some(i) => {
                if self.trades[i].fill_status != FillStatus::Pending {
                    return false;
                }
                proof {
                    lemma_room(before, trade_id as int);
                    lemma_filled_keeps_wf(before, trade_id as int, ask);
                }
                self.trades[i].fill_status = FillStatus::Filled;
                self.trades[i].fill_ask = Some(ask);
                self.stats.filled_trades = self.stats.filled_trades + 1;
                self.stats.pending_resolution = self.stats.pending_resolution + 1;
                assert(self@.trades =~= before.filled(trade_id as int, ask).trades);
                true
            },
            None => false,
        }
    }

    /// The trade was given up, the ask last seen being `last_ask`. `true` where it waited for its
    /// fill; otherwise nothing changes.
    pub fn mark_unfilled(&mut self, trade_id: u64, last_ask: Option<Binary64>) -> (r: bool)
        requires
            old(self).wf(),
        ensures
            final(self).wf(),
            r == old(self)@.awaits_fill(trade_id as int),
            final(self)@ == old(self)@.unfilled(trade_id as int, last_ask),
            final(self).log_file() == old(self).log_file(),
    {
        let ghost before = self@;
        match self.find(trade_id) {
            Some(i) => {
                if self.trades[i].fill_status != FillStatus::Pending {
                    return false;
                }
                proof {
                    lemma_room(before, trade_id as int);
                    lemma_unfilled_keeps_wf(before, trade_id as int, last_ask);
                }
                self.trades[i].fill_status = FillStatus::Unfilled;
                self.trades[i].fill_ask = last_ask;
                self.stats.unfilled_trades = self.stats.unfilled_trades + 1;
                assert(self@.trades =~= before.unfilled(trade_id as int, last_ask).trades);
                true
            },
            None => false,
        }
    }

    /// What is needed to settle a trade; `None` unless it waits for its market's resolution.
    pub fn settlement(&self, trade_id: u64) -> (r: Option<Settlement>)
        requires
            self.wf(),
        ensures
            r is Some <==> self@.awaits_resolution(trade_id as int),
            r matches Some(s) ==> s.size == self@.trade(trade_id as int).size && s.cost_usd
                == self@.trade(trade_id as int).cost_usd && s.cumulative_pnl
                == self@.stats.cumulative_pnl,
    {
        match self.find(trade_id) {
            Some(i) => {
                let t = &self.trades[i];
                if t.fill_status != FillStatus::Filled || t.resolution.is_some() {
                    None
                } else {
                    Some(
                        Settlement {
                            size: t.size,
                            cost_usd: t.cost_usd,
                            cumulative_pnl: self.stats.cumulative_pnl,
                        },
                    )
                }
            },
            None => None,
        }
    }

    /// The trade's market was resolved. `win_pnl` is what the trade earns if it won, its size less
    /// its cost, and `cumulative_pnl` the sum of all earnings with this one. `true` where the
    /// trade waited for that; otherwise nothing changes.
    pub fn resolve_trade(
        &mut self,
        trade_id: u64,
        won: bool,
        win_pnl: Binary64,
        cumulative_pnl: Binary64,
    ) -> (r: bool)
        requires
            old(self).wf(),
        ensures
            final(self).wf(),
            r == old(self)@.awaits_resolution(trade_id as int),
            final(self)@ == old(self)@.resolved(trade_id as int, won, win_pnl, cumulative_pnl),
            r && won ==> final(self)@.trades[trade_id - 1].pnl == Some(win_pnl),
            r && !won ==> final(self)@.trades[trade_id - 1].pnl == Some(
                old(self)@.trades[trade_id - 1].cost_usd.opposite(),
            ),
            final(self).log_file() == old(self).log_file(),
    {
        let ghost before = self@;
        match self.find(trade_id) {
            Some(i) => {
                if self.trades[i].fill_status != FillStatus::Filled
                    || self.trades[i].resolution.is_some() {
                    return false;
                }
                proof {
                    lemma_room(before, trade_id as int);
                    lemma_resolved_keeps_wf(
                        before,
                        trade_id as int,
                        won,
                        win_pnl,
                        cumulative_pnl,
                    );
                }
                let pnl = if won {
                    win_pnl
                } else {
                    self.trades[i].cost_usd.neg()
                };
                self.trades[i].resolution = Some(
                    if won {
                        Resolution::Win
                    } else {
                        Resolution::Lose
                    },
                );
                self.trades[i].pnl = Some(pnl);
                self.stats.pending_resolution = self.stats.pending_resolution.saturating_sub(1);
                if won {
                    self.stats.resolved_wins = self.stats.resolved_wins + 1;
                } else {
                    self.stats.resolved_losses = self.stats.resolved_losses + 1;
                }
                self.stats.cumulative_pnl = cumulative_pnl;
                assert(self@.trades =~= before.resolved(
                    trade_id as int,
                    won,
                    win_pnl,
                    cumulative_pnl,
                ).trades);
                true
            },
            None => false,
        }
    }

    /// The filled trades whose markets are not resolved, each with its condition.
    pub fn filled_pending_resolution(&self) -> (r: Vec<(u64, String)>)
        requires
            self.wf(),
        ensures
            id_text_views(r@) == unresolved_trades(self@.trades),
    {
        let mut out: Vec<(u64, String)> = Vec::new();
        let ghost all = self@.trades;
        let mut i: usize = 0;
        assert(all.take(0) =~= Seq::<TradeRecord>::empty());
        assert(id_text_views(out@) =~= Seq::<(u64, Seq<char>)>::empty());
        while i < self.trades.len()
            invariant
                0 <= i <= self.trades@.len(),
                all == self.trades@,
                id_text_views(out@) == unresolved_trades(all.take(i as int)),
            decreases self.trades@.len() - i,
        {
            let ghost before = id_text_views(out@);
            proof {
                assert(all.take(i + 1).drop_last() =~= all.take(i as int));
                assert(all.take(i + 1).last() == all[i as int]);
            }
            let t = &self.trades[i];
            if t.fill_status == FillStatus::Filled && t.resolution.is_none() {
                out.push((t.id, t.condition_id.clone()));
                assert(id_text_views(out@) =~= before.push((t.id, t.condition_id@)));
            }
            i = i + 1;
        }
        assert(all.take(i as int) =~= all);
        out
    }

    /// The token of a trade.
    pub fn token_id_for(&self, trade_id: u64) -> (r: Option<String>)
        requires
            self.wf(),
        ensures
            r is Some <==> self@.has(trade_id as int),
            r matches Some(token) ==> token@ == self@.trade(trade_id as int).token_id@,
    {
        match self.find(trade_id) {
            Some(i) => Some(self.trades[i].token_id.clone()),
            None => None,
        }
    }

    /// Whether the trade is there and filled.
    pub fn is_filled(&self, trade_id: u64) -> (r: bool)
        requires
            self.wf(),
        ensures
            r == (self@.has(trade_id as int) && self@.trade(trade_id as int).fill_status
                == FillStatus::Filled),
    {
        match self.find(trade_id) {
            Some(i) => self.trades[i].fill_status == FillStatus::Filled,
            None => false,
        }
    }
}

/// The trades that the resolution poller asks about are those that wait for a resolution.
pub proof fn law_poller_asks_about_unresolved(v: TrackerView, id: u64)
    requires
        v.wf(),
    ensures
        (exists|i: int|
            0 <= i < unresolved_trades(v.trades).len() && (#[trigger] unresolved_trades(
                v.trades,
            )[i]).0 == id) <==> v.awaits_resolution(id as int),
{
    lemma_unresolved(v.trades, id, v.trades.len() as int);
    assert(v.trades.take(v.trades.len() as int) =~= v.trades);
}

proof fn lemma_unresolved(trades: Seq<TradeRecord>, id: u64, n: int)
    requires
        0 <= n <= trades.len(),
        forall|i: int| 0 <= i < trades.len() ==> (#[trigger] trades[i]).id == i + 1,
    ensures
        (exists|i: int|
            0 <= i < unresolved_trades(trades.take(n)).len() && (#[trigger] unresolved_trades(
                trades.take(n),
            )[i]).0 == id) <==> (1 <= id <= n && is_unresolved()(trades[id - 1])),
    decreases n,
{
    if n > 0 {
        lemma_unresolved(trades, id, n - 1);
        assert(trades.take(n).drop_last() =~= trades.take(n - 1));
        let front = unresolved_trades(trades.take(n - 1));
        let all = unresolved_trades(trades.take(n));
        let last = trades[n - 1];
        assert(trades.take(n).last() == last);
        if is_unresolved()(last) {
            assert(all == front.push((last.id, last.condition_id@)));
            assert(all[front.len() as int].0 == n);
            if exists|i: int| 0 <= i < front.len() && (#[trigger] front[i]).0 == id {
                let i = choose|i: int| 0 <= i < front.len() && (#[trigger] front[i]).0 == id;
                assert(all[i].0 == id);
            }
            if exists|i: int| 0 <= i < all.len() && (#[trigger] all[i]).0 == id {
                let i = choose|i: int| 0 <= i < all.len() && (#[trigger] all[i]).0 == id;
                if i < front.len() {
                    assert(front[i].0 == id);
                }
            }
        } else {
            assert(all == front);
        }
    }
}

/// Whether a trade won: the winning token is the one that was bought.
pub fn has_won(winner_token_id: &str, token_id: &str) -> (r: bool)
    ensures
        r == (winner_token_id@ == token_id@),
{
    text::same_text(winner_token_id, token_id)
}

// ---------------------------------------------------------------------------------------------
// Watching an order.
// ---------------------------------------------------------------------------------------------

/// A limit buy at `limit_price` fills against `best_ask`.
pub open spec fn fills(best_ask: Binary64, limit_price: Binary64) -> bool {
    best_ask.positive() && best_ask.at_most(limit_price)
}

/// Whether a limit buy at `limit_price` would fill against `best_ask`.
pub fn would_fill_at_ask(best_ask: Binary64, limit_price: Binary64) -> (r: bool)
    ensures
        r == fills(best_ask, limit_price),
{
    best_ask.is_positive() && best_ask.le(limit_price)
}

/// A buy at a lower limit fills only where one at a higher limit does.
pub proof fn law_higher_limit_fills_too(ask: Binary64, limit: Binary64, higher: Binary64)
    requires
        fills(ask, limit),
        limit.at_most(higher),
    ensures
        fills(ask, higher),
{
}

/// What a poll of the ask decides.
#[derive(Debug, Clone, Copy, PartialEq, Eq, Structural)]
pub enum WatchStep {
    /// The order filled at this ask.
    Filled(Binary64),
    /// Look again later.
    Wait,
    /// The window is over without a fill; the ask last seen.
    Expired(Option<Binary64>),
}

/// The ask that was seen last.
pub open spec fn last_seen(polls: Seq<Option<Binary64>>) -> Option<Binary64>
    decreases polls.len(),
{
    if polls.len() == 0 {
        None
    } else if polls.last() is Some {
        polls.last()
    } else {
        last_seen(polls.drop_last())
    }
}

/// No ask that was seen fills the order.
pub open spec fn none_fills(polls: Seq<Option<Binary64>>, limit_price: Binary64) -> bool {
    forall|i: int|
        0 <= i < polls.len() && (#[trigger] polls[i]) is Some ==> !fills(polls[i]->0, limit_price)
}

/// The watch over an order: the ask is polled until it fills the order or the window is over.
pub struct OrderWatch {
    limit_price: Binary64,
    last_ask: Option<Binary64>,
    polls: Ghost<Seq<Option<Binary64>>>,
}

impl OrderWatch {
    /// The limit of the order.
    pub closed spec fn limit(&self) -> Binary64 {
        self.limit_price
    }

    /// What the polls found so far.
    pub closed spec fn polls(&self) -> Seq<Option<Binary64>> {
        self.polls@
    }

    pub closed spec fn wf(&self) -> bool {
        self.last_ask == last_seen(self.polls@)
    }

    pub fn new(limit_price: Binary64) -> (r: OrderWatch)
        ensures
            r.wf(),
            r.limit() == limit_price,
            r.polls() == Seq::<Option<Binary64>>::empty(),
    {
        OrderWatch { limit_price, last_ask: None, polls: Ghost(Seq::empty()) }
    }

    /// The ask was polled. A fill counts even when the window is over by then. An order is given
    /// up only where no ask that was seen fills it, and with the ask that was seen last.
    pub fn on_poll(&mut self, ask: Option<Binary64>, window_over: bool) -> (r: WatchStep)
        requires
            old(self).wf(),
        ensures
            final(self).wf(),
            final(self).limit() == old(self).limit(),
            final(self).polls() == old(self).polls().push(ask),
            r == (if ask is Some && fills(ask->0, old(self).limit()) {
                WatchStep::Filled(ask->0)
            } else if window_over {
                WatchStep::Expired(last_seen(old(self).polls().push(ask)))
            } else {
                WatchStep::Wait
            }),
            none_fills(old(self).polls(), old(self).limit()) && !(r is Filled) ==> none_fills(
                final(self).polls(),
                final(self).limit(),
            ),
    {
        proof {
            assert(self.polls@.push(ask).drop_last() =~= self.polls@);
        }
        self.polls = Ghost(self.polls@.push(ask));
        match ask {
            Some(a) => {
                self.last_ask = Some(a);
                if would_fill_at_ask(a, self.limit_price) {
                    return WatchStep::Filled(a);
                }
            },
            None => {},
        }
        if window_over {
            WatchStep::Expired(self.last_ask)
        } else {
            WatchStep::Wait
        }
    }
}

/// The window of a live order is over. `true` where the order is to be cancelled: then the trade
/// is given up. A trade that is filled by now is left as it is.
pub fn expire_live_order(
    tracker: &mut PerformanceTracker,
    trade_id: u64,
    last_ask: Option<Binary64>,
) -> (r: bool)
    requires
        old(tracker).wf(),
    ensures
        final(tracker).wf(),
        final(tracker).log_file() == old(tracker).log_file(),
        final(tracker)@ == old(tracker)@.unfilled(trade_id as int, last_ask),
        r == !(old(tracker)@.has(trade_id as int) && old(tracker)@.trade(
            trade_id as int,
        ).fill_status == FillStatus::Filled),
{
    if tracker.is_filled(trade_id) {
        return false;
    }
    tracker.mark_unfilled(trade_id, last_ask);
    true
}

// ---------------------------------------------------------------------------------------------
// The log.
// ---------------------------------------------------------------------------------------------

/// The front of a line about a trade: the event, the trade's number, symbol and side.
pub open spec fn event_head(event: Seq<char>, id: int, upper: Seq<char>, side: TradeSide) -> Seq<
    char,
> {
    event + " id="@ + text::decimal(id) + " "@ + upper + " "@ + side.label()
}

/// The line about a fill.
pub open spec fn fill_line(
    id: int,
    upper: Seq<char>,
    side: TradeSide,
    ask: Seq<char>,
    limit: Seq<char>,
    slug: Seq<char>,
) -> Seq<char> {
    event_head("FILL"@, id, upper, side) + " ask=$"@ + ask + " limit=$"@ + limit + " slug="@ + slug
}

/// How the ask last seen is told.
pub open spec fn ask_note(last_ask: Option<Seq<char>>) -> Seq<char> {
    match last_ask {
        Some(ask) => "last ask $"@ + ask,
        None => "no ask"@,
    }
}

/// The line about a trade that was given up.
pub open spec fn no_fill_line(
    id: int,
    upper: Seq<char>,
    side: TradeSide,
    last_ask: Option<Seq<char>>,
    limit: Seq<char>,
    slug: Seq<char>,
) -> Seq<char> {
    event_head("NO_FILL"@, id, upper, side) + " "@ + ask_note(last_ask) + " limit=$"@ + limit
        + " slug="@ + slug
}

/// The line about a resolution.
pub open spec fn resolved_line(
    id: int,
    upper: Seq<char>,
    side: TradeSide,
    won: bool,
    pnl: Seq<char>,
    cumulative: Seq<char>,
    slug: Seq<char>,
) -> Seq<char> {
    event_head("RESOLVED"@, id, upper, side) + " "@ + (if won {
        "WIN"@
    } else {
        "LOSE"@
    }) + " pnl=$"@ + pnl + " cumulative=$"@ + cumulative + " slug="@ + slug
}

fn push_event_head(out: &mut String, event: &str, id: u64, upper: &str, side: TradeSide)
    ensures
        final(out)@ == old(out)@ + event_head(event@, id as int, upper@, side),
{
    out.append(event);
    out.append(" id=");
    text::push_decimal_u64(out, id);
    out.append(" ");
    out.append(upper);
    out.append(" ");
    out.append(side.as_str());
    assert(out@ =~= old(out)@ + event_head(event@, id as int, upper@, side));
}

impl TradeRecord {
    /// The log line about the fill of this trade, the ask and the limit already rendered.
    pub fn fill_log_line(&self, ask: &str, limit: &str) -> (r: String)
        ensures
            r@ == fill_line(
                self.id as int,
                text::uppercase(self.symbol@),
                self.side,
                ask@,
                limit@,
                self.slug@,
            ),
            text::ascii(self.symbol@) ==> r@ == fill_line(
                self.id as int,
                text::ascii_uppercase(self.symbol@),
                self.side,
                ask@,
                limit@,
                self.slug@,
            ),
    {
        let upper = self.symbol.to_uppercase();
        let mut out = String::new();
        push_event_head(&mut out, "FILL", self.id, upper.as_str(), self.side);
        out.append(" ask=$");
        out.append(ask);
        out.append(" limit=$");
        out.append(limit);
        out.append(" slug=");
        out.append(self.slug.as_str());
        assert(out@ =~= fill_line(self.id as int, upper@, self.side, ask@, limit@, self.slug@));
        out
    }

    /// The log line about giving this trade up, the ask last seen and the limit already rendered.
    pub fn no_fill_log_line(&self, last_ask: Option<String>, limit: &str) -> (r: String)
        ensures
            r@ == no_fill_line(
                self.id as int,
                text::uppercase(self.symbol@),
                self.side,
                text::opt_view(last_ask),
                limit@,
                self.slug@,
            ),
            text::ascii(self.symbol@) ==> r@ == no_fill_line(
                self.id as int,
                text::ascii_uppercase(self.symbol@),
                self.side,
                text::opt_view(last_ask),
                limit@,
                self.slug@,
            ),
    {
        let upper = self.symbol.to_uppercase();
        let mut out = String::new();
        push_event_head(&mut out, "NO_FILL", self.id, upper.as_str(), self.side);
        out.append(" ");
        match &last_ask {
            Some(ask) => {
                out.append("last ask $");
                out.append(ask.as_str());
            },
            None => {
                out.append("no ask");
            },
        }
        out.append(" limit=$");
        out.append(limit);
        out.append(" slug=");
        out.append(self.slug.as_str());
        assert(out@ =~= no_fill_line(
            self.id as int,
            upper@,
            self.side,
            text::opt_view(last_ask),
            limit@,
            self.slug@,
        ));
        out
    }

    /// The log line about the resolution of this trade's market, the amounts already rendered.
    pub fn resolved_log_line(&self, won: bool, pnl: &str, cumulative: &str) -> (r: String)
        ensures
            r@ == resolved_line(
                self.id as int,
                text::uppercase(self.symbol@),
                self.side,
                won,
                pnl@,
                cumulative@,
                self.slug@,
            ),
            text::ascii(self.symbol@) ==> r@ == resolved_line(
                self.id as int,
                text::ascii_uppercase(self.symbol@),
                self.side,
                won,
                pnl@,
                cumulative@,
                self.slug@,
            ),
    {
        let upper = self.symbol.to_uppercase();
        let mut out = String::new();
        push_event_head(&mut out, "RESOLVED", self.id, upper.as_str(), self.side);
        out.append(" ");
        out.append(
            if won {
                "WIN"
            } else {
                "LOSE"
            },
        );
        out.append(" pnl=$");
        out.append(pnl);
        out.append(" cumulative=$");
        out.append(cumulative);
        out.append(" slug=");
        out.append(self.slug.as_str());
        assert(out@ =~= resolved_line(
            self.id as int,
            upper@,
            self.side,
            won,
            pnl@,
            cumulative@,
            self.slug@,
        ));
        out
    }
}

// ---------------------------------------------------------------------------------------------
// What becomes of a trade.
// ---------------------------------------------------------------------------------------------

/// A fill turns a pending trade into a filled one at its ask and changes nothing else of it. One
/// more trade is filled and one more waits for its resolution.
pub proof fn law_fill_is_recorded(v: TrackerView, id: int, ask: Binary64)
    requires
        1 <= id <= v.trades.len(),
        v.trades[id - 1].fill_status == FillStatus::Pending,
        v.stats.filled_trades < u64::MAX,
        v.stats.pending_resolution < u64::MAX,
    ensures
        v.filled(id, ask).trades.len() == v.trades.len(),
        v.filled(id, ask).trades[id - 1].fill_status == FillStatus::Filled,
        v.filled(id, ask).trades[id - 1].fill_ask == Some(ask),
        same_order(v.filled(id, ask).trades[id - 1], v.trades[id - 1]),
        v.filled(id, ask).trades[id - 1].resolution == v.trades[id - 1].resolution,
        v.filled(id, ask).trades[id - 1].pnl == v.trades[id - 1].pnl,
        v.filled(id, ask).stats.filled_trades == v.stats.filled_trades + 1,
        v.filled(id, ask).stats.pending_resolution == v.stats.pending_resolution + 1,
        v.filled(id, ask).stats.total_signals == v.stats.total_signals,
        v.filled(id, ask).stats.unfilled_trades == v.stats.unfilled_trades,
        v.filled(id, ask).stats.resolved_wins == v.stats.resolved_wins,
        v.filled(id, ask).stats.resolved_losses == v.stats.resolved_losses,
        v.filled(id, ask).stats.cumulative_pnl == v.stats.cumulative_pnl,
{
}

/// Giving a pending trade up makes it unfilled, with the ask last seen, and changes nothing else
/// of it. One more trade is unfilled.
pub proof fn law_giving_up_is_recorded(v: TrackerView, id: int, last_ask: Option<Binary64>)
    requires
        1 <= id <= v.trades.len(),
        v.trades[id - 1].fill_status == FillStatus::Pending,
        v.stats.unfilled_trades < u64::MAX,
    ensures
        v.unfilled(id, last_ask).trades.len() == v.trades.len(),
        v.unfilled(id, last_ask).trades[id - 1].fill_status == FillStatus::Unfilled,
        v.unfilled(id, last_ask).trades[id - 1].fill_ask == last_ask,
        same_order(v.unfilled(id, last_ask).trades[id - 1], v.trades[id - 1]),
        v.unfilled(id, last_ask).trades[id - 1].resolution == v.trades[id - 1].resolution,
        v.unfilled(id, last_ask).trades[id - 1].pnl == v.trades[id - 1].pnl,
        v.unfilled(id, last_ask).stats.unfilled_trades == v.stats.unfilled_trades + 1,
        v.unfilled(id, last_ask).stats.total_signals == v.stats.total_signals,
        v.unfilled(id, last_ask).stats.filled_trades == v.stats.filled_trades,
        v.unfilled(id, last_ask).stats.pending_resolution == v.stats.pending_resolution,
        v.unfilled(id, last_ask).stats.resolved_wins == v.stats.resolved_wins,
        v.unfilled(id, last_ask).stats.resolved_losses == v.stats.resolved_losses,
        v.unfilled(id, last_ask).stats.cumulative_pnl == v.stats.cumulative_pnl,
{
}

/// A filled trade that is resolved as lost has lost its own cost, whatever it would have won; one
/// that is resolved as won has earned what it would win. Nothing else of it changes. It waits for
/// its resolution no longer, counts as won or lost, and the earnings are the given sum.
pub proof fn law_resolution_books_the_result(
    v: TrackerView,
    id: int,
    won: bool,
    win_pnl: Binary64,
    cumulative_pnl: Binary64,
)
    requires
        1 <= id <= v.trades.len(),
        v.trades[id - 1].fill_status == FillStatus::Filled,
        v.trades[id - 1].resolution is None,
        0 < v.stats.pending_resolution,
        v.stats.resolved_wins < u64::MAX,
        v.stats.resolved_losses < u64::MAX,
    ensures
        ({
            let after = v.resolved(id, won, win_pnl, cumulative_pnl);
            let cost = v.trades[id - 1].cost_usd;
            &&& after.trades.len() == v.trades.len()
            &&& won ==> after.trades[id - 1].pnl == Some(win_pnl)
            &&& !won ==> after.trades[id - 1].pnl is Some
            &&& !won && cost.bits < 0x8000_0000_0000_0000 ==> after.trades[id - 1].pnl->0.bits
                == cost.bits + 0x8000_0000_0000_0000
            &&& !won && cost.bits >= 0x8000_0000_0000_0000 ==> after.trades[id - 1].pnl->0.bits
                == cost.bits - 0x8000_0000_0000_0000
            &&& won ==> after.trades[id - 1].resolution == Some(Resolution::Win)
            &&& !won ==> after.trades[id - 1].resolution == Some(Resolution::Lose)
            &&& same_order(after.trades[id - 1], v.trades[id - 1])
            &&& after.trades[id - 1].fill_status == FillStatus::Filled
            &&& after.trades[id - 1].fill_ask == v.trades[id - 1].fill_ask
            &&& after.stats.cumulative_pnl == cumulative_pnl
            &&& after.stats.pending_resolution == v.stats.pending_resolution - 1
            &&& won ==> after.stats.resolved_wins == v.stats.resolved_wins + 1
                && after.stats.resolved_losses == v.stats.resolved_losses
            &&& !won ==> after.stats.resolved_losses == v.stats.resolved_losses + 1
                && after.stats.resolved_wins == v.stats.resolved_wins
            &&& after.stats.total_signals == v.stats.total_signals
            &&& after.stats.filled_trades == v.stats.filled_trades
            &&& after.stats.unfilled_trades == v.stats.unfilled_trades
        }),
{
}

/// Two records of one order: what was ordered, where and at what price.
pub open spec fn same_order(a: TradeRecord, b: TradeRecord) -> bool {
    &&& a.id == b.id
    &&& a.slug == b.slug
    &&& a.symbol == b.symbol
    &&& a.side == b.side
    &&& a.condition_id == b.condition_id
    &&& a.token_id == b.token_id
    &&& a.limit_price == b.limit_price
    &&& a.size == b.size
    &&& a.cost_usd == b.cost_usd
    &&& a.simulation == b.simulation
}

/// A trade that is not there, or not pending, is neither filled nor given up; one that is not
/// there, not filled or resolved already is not resolved. Nothing changes then.
pub proof fn law_late_events_change_nothing(
    v: TrackerView,
    id: int,
    ask: Binary64,
    last_ask: Option<Binary64>,
    won: bool,
    win_pnl: Binary64,
    cumulative_pnl: Binary64,
)
    ensures
        id < 1 || id > v.trades.len() || v.trades[id - 1].fill_status != FillStatus::Pending
            ==> v.filled(id, ask) == v && v.unfilled(id, last_ask) == v,
        id < 1 || id > v.trades.len() || v.trades[id - 1].fill_status != FillStatus::Filled
            || v.trades[id - 1].resolution is Some ==> v.resolved(id, won, win_pnl, cumulative_pnl)
            == v,
{
}

/// A trade waits for its fill while it is pending, and for its resolution while it is filled and
/// not resolved.
pub proof fn law_what_trades_wait_for(v: TrackerView, id: int)
    ensures
        v.awaits_fill(id) <==> 1 <= id <= v.trades.len() && v.trades[id - 1].fill_status
            == FillStatus::Pending,
        v.awaits_resolution(id) <==> 1 <= id <= v.trades.len() && v.trades[id - 1].fill_status
            == FillStatus::Filled && v.trades[id - 1].resolution is None,
        v.has(id) <==> 1 <= id <= v.trades.len(),
        v.trade(id) == v.trades[id - 1],
{
}

/// The statistics count the trades: each trade that comes counts once, under its own status.
pub proof fn law_trades_are_counted(trades: Seq<TradeRecord>, t: TradeRecord)
    ensures
        count(Seq::<TradeRecord>::empty(), is_filled()) == 0,
        count(Seq::<TradeRecord>::empty(), is_unfilled()) == 0,
        count(Seq::<TradeRecord>::empty(), is_unresolved()) == 0,
        count(Seq::<TradeRecord>::empty(), is_won()) == 0,
        count(Seq::<TradeRecord>::empty(), is_lost()) == 0,
        count(trades.push(t), is_filled()) - count(trades, is_filled()) == (if t.fill_status
            == FillStatus::Filled {
            1int
        } else {
            0
        }),
        count(trades.push(t), is_unfilled()) - count(trades, is_unfilled()) == (if t.fill_status
            == FillStatus::Unfilled {
            1int
        } else {
            0
        }),
        count(trades.push(t), is_unresolved()) - count(trades, is_unresolved()) == (if t.fill_status
            == FillStatus::Filled && t.resolution is None {
            1int
        } else {
            0
        }),
        count(trades.push(t), is_won()) - count(trades, is_won()) == (if t.resolution == Some(
            Resolution::Win,
        ) {
            1int
        } else {
            0
        }),
        count(trades.push(t), is_lost()) - count(trades, is_lost()) == (if t.resolution == Some(
            Resolution::Lose,
        ) {
            1int
        } else {
            0
        }),
{
    lemma_count_push(trades, t, is_filled());
    lemma_count_push(trades, t, is_unfilled());
    lemma_count_push(trades, t, is_unresolved());
    lemma_count_push(trades, t, is_won());
    lemma_count_push(trades, t, is_lost());
}

/// A tracker numbers its trades from one on, resolves only what is filled, and has in its
/// statistics how many are filled, unfilled, unresolved, won and lost.
pub proof fn law_tracker_counts_its_trades(v: TrackerView, i: int)
    requires
        v.wf(),
        0 <= i < v.trades.len(),
    ensures
        v.trades[i].id == i + 1,
        v.trades[i].resolution is Some ==> v.trades[i].fill_status == FillStatus::Filled,
        v.trades[i].pnl is Some <==> v.trades[i].resolution is Some,
        v.stats.filled_trades == count(v.trades, is_filled()),
        v.stats.unfilled_trades == count(v.trades, is_unfilled()),
        v.stats.pending_resolution == count(v.trades, is_unresolved()),
        v.stats.resolved_wins == count(v.trades, is_won()),
        v.stats.resolved_losses == count(v.trades, is_lost()),
{
    assert(consistent(v.trades[i]));
}

/// A rate is the part over the whole, and zero where there is no whole.
pub proof fn law_rates_are_fractions(part: int, whole: int)
    ensures
        whole != 0 ==> rate_of(part, whole).0 == part && rate_of(part, whole).1 == whole,
        rate_of(part, 0).0 == 0 && rate_of(part, 0).1 != 0,
{
}

/// The poller is told of a trade that waits for its resolution by its own number and condition,
/// behind those that were registered before it, and of no other trade.
pub proof fn law_poller_is_told_number_and_condition(trades: Seq<TradeRecord>, t: TradeRecord)
    ensures
        unresolved_trades(Seq::<TradeRecord>::empty()) == Seq::<(u64, Seq<char>)>::empty(),
        t.fill_status == FillStatus::Filled && t.resolution is None ==> unresolved_trades(
            trades.push(t),
        ) == unresolved_trades(trades).push((t.id, t.condition_id@)),
        t.fill_status != FillStatus::Filled || t.resolution is Some ==> unresolved_trades(
            trades.push(t),
        ) == unresolved_trades(trades),
{
    assert(trades.push(t).drop_last() =~= trades);
}

/// An order fills against every ask above zero that is no higher than its limit, and against no
/// other.
pub proof fn law_fills_up_to_the_limit(ask: Binary64, limit: Binary64)
    ensures
        (Binary64 { bits: 0 }).below(ask) && ask.at_most(limit) ==> fills(ask, limit),
        ask.at_most(Binary64 { bits: 0 }) ==> !fills(ask, limit),
        limit.below(ask) ==> !fills(ask, limit),
        ask.nan() || limit.nan() ==> !fills(ask, limit),
{
}

/// The ask last seen is that of the last poll that found one.
pub proof fn law_last_seen_is_the_last_found(polls: Seq<Option<Binary64>>, i: int)
    requires
        -1 <= i < polls.len(),
        i >= 0 ==> polls[i] is Some,
        forall|j: int| i < j < polls.len() ==> (#[trigger] polls[j]) is None,
    ensures
        i >= 0 ==> last_seen(polls) == polls[i],
        i == -1 ==> last_seen(polls) is None,
    decreases polls.len(),
{
    if polls.len() > 0 {
        let last = polls.len() - 1;
        assert(polls[last] == polls.last());
        if i < last {
            let front = polls.drop_last();
            assert forall|j: int| i < j < front.len() implies (#[trigger] front[j]) is None by {
                assert(polls[j] == front[j]);
            }
            law_last_seen_is_the_last_found(front, i);
        }
    }
}

/// The lines of the log say, in this order, the event, the trade's number, symbol and side, its
/// prices or its result, and its market.
pub proof fn law_log_lines_say_it_all(
    id: nat,
    upper: Seq<char>,
    side: TradeSide,
    ask: Seq<char>,
    limit: Seq<char>,
    pnl: Seq<char>,
    cumulative: Seq<char>,
    slug: Seq<char>,
)
    ensures
        fill_line(id as int, upper, side, ask, limit, slug) == "FILL"@ + " id="@ + text::decimal(
            id as int,
        ) + " "@ + upper + " "@ + side.label() + " ask=$"@ + ask + " limit=$"@ + limit + " slug="@
            + slug,
        no_fill_line(id as int, upper, side, Some(ask), limit, slug) == "NO_FILL"@ + " id="@
            + text::decimal(id as int) + " "@ + upper + " "@ + side.label() + " "@ + (
        "last ask $"@ + ask) + " limit=$"@ + limit + " slug="@ + slug,
        no_fill_line(id as int, upper, side, None, limit, slug) == "NO_FILL"@ + " id="@
            + text::decimal(id as int) + " "@ + upper + " "@ + side.label() + " "@ + "no ask"@
            + " limit=$"@ + limit + " slug="@ + slug,
        resolved_line(id as int, upper, side, true, pnl, cumulative, slug) == "RESOLVED"@ + " id="@
            + text::decimal(id as int) + " "@ + upper + " "@ + side.label() + " "@ + "WIN"@
            + " pnl=$"@ + pnl + " cumulative=$"@ + cumulative + " slug="@ + slug,
        resolved_line(id as int, upper, side, false, pnl, cumulative, slug) == "RESOLVED"@
            + " id="@ + text::decimal(id as int) + " "@ + upper + " "@ + side.label() + " "@
            + "LOSE"@ + " pnl=$"@ + pnl + " cumulative=$"@ + cumulative + " slug="@ + slug,
{
}

} // verus!
