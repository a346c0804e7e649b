//! Live crypto prices from the Binance `bookTicker` streams, and the price history that momentum
//! is measured on.

use crate::binary64::Binary64;
use crate::text;
use crate::text_map::TextMap;
use vstd::prelude::*;

verus! {

// ---------------------------------------------------------------------------------------------
// Symbols and streams.
// ---------------------------------------------------------------------------------------------

/// The Binance pair of a lowercase symbol.
pub open spec fn pair_of(lowered: Seq<char>) -> Seq<char> {
    lowered + "usdt"@
}

/// The symbol of a lowercase Binance pair.
pub open spec fn symbol_of(lowered_pair: Seq<char>) -> Seq<char> {
    text::without_suffix(lowered_pair, "usdt"@)
}

/// The Binance pair of a symbol: `btc` becomes `btcusdt`.
pub fn to_binance_pair(symbol: &str) -> (r: String)
    ensures
        r@ == pair_of(text::lowercase(symbol@)),
        text::ascii(symbol@) ==> r@ == pair_of(text::ascii_lowercase(symbol@)),
{
    let mut out = symbol.to_lowercase();
    out.append("usdt");
    out
}

/// The symbol of a Binance pair: `BTCUSDT` becomes `btc`. A pair in another currency is its own
/// symbol.
pub fn from_binance_pair(pair: &str) -> (r: String)
    ensures
        r@ == symbol_of(text::lowercase(pair@)),
        text::ascii(pair@) ==> r@ == symbol_of(text::ascii_lowercase(pair@)),
{
    let lowered = pair.to_lowercase();
    text::strip_suffix(lowered.as_str(), "usdt")
}

/// A symbol in ASCII comes back from its pair, in lowercase, whatever the case of the pair.
pub proof fn law_symbol_round_trip(symbol: Seq<char>)
    requires
        text::ascii(symbol),
    ensures
        text::ascii(pair_of(text::ascii_lowercase(symbol))),
        symbol_of(text::ascii_lowercase(pair_of(text::ascii_lowercase(symbol))))
            == text::ascii_lowercase(symbol),
        symbol_of(
            text::ascii_lowercase(text::ascii_uppercase(pair_of(text::ascii_lowercase(symbol)))),
        ) == text::ascii_lowercase(symbol),
{
    reveal_strlit("usdt");
    let lowered = text::ascii_lowercase(symbol);
    let pair = pair_of(lowered);
    assert forall|i: int| 0 <= i < pair.len() implies (#[trigger] pair[i] as int) < 128 by {
        if i < symbol.len() {
            assert((symbol[i] as int) < 128);
        }
    }
    assert forall|i: int| 0 <= i < pair.len() implies text::ascii_lowercase(pair)[i] == pair[i]
        && text::ascii_lowercase(text::ascii_uppercase(pair))[i] == pair[i] by {
        if i < symbol.len() {
            assert((symbol[i] as int) < 128);
            assert(pair[i] == text::ascii_lower_char(symbol[i]));
        }
    }
    assert(text::ascii_lowercase(pair) =~= pair);
    assert(text::ascii_lowercase(text::ascii_uppercase(pair)) =~= pair);
    assert(pair.subrange(pair.len() - 4, pair.len() as int) =~= "usdt"@);
    assert(pair.take(pair.len() - 4) =~= lowered);
}

/// Where the combined streams are served.
pub open spec fn stream_base() -> Seq<char> {
    "wss://stream.binance.com:9443/stream"@
}

/// The name of a pair's `bookTicker` stream.
pub open spec fn stream_name(pair: Seq<char>) -> Seq<char> {
    pair + "@bookTicker"@
}

/// The names of the streams of the symbols.
pub open spec fn stream_names(symbols: Seq<String>) -> Seq<Seq<char>> {
    Seq::new(symbols.len(), |i: int| stream_name(pair_of(text::lowercase(symbols[i]@))))
}

/// The names of the streams of symbols in ASCII.
pub open spec fn ascii_stream_names(symbols: Seq<String>) -> Seq<Seq<char>> {
    Seq::new(symbols.len(), |i: int| stream_name(pair_of(text::ascii_lowercase(symbols[i]@))))
}

/// The address of the combined streams of these names.
pub open spec fn stream_address(names: Seq<Seq<char>>) -> Seq<char> {
    stream_base() + "?streams="@ + text::joined(names, "/"@)
}

/// Renders the address of the combined streams of these names.
pub fn render_stream_address(names: &Vec<String>) -> (r: String)
    ensures
        r@ == stream_address(text::views(names@)),
{
    let mut out = String::new();
    out.append("wss://stream.binance.com:9443/stream");
    out.append("?streams=");
    let streams = text::join(names, "/");
    out.append(streams.as_str());
    assert(out@ =~= stream_address(text::views(names@)));
    out
}

/// Why the feed could not be set up.
#[derive(Debug, Clone, Copy, PartialEq, Eq, Structural)]
pub enum FeedError {
    InvalidUrl,
}

impl FeedError {
    pub open spec fn text(self) -> Seq<char> {
        "Invalid Binance WebSocket URL"@
    }

    /// The error as a sentence.
    pub fn message(self) -> (r: &'static str)
        ensures
            r@ == self.text(),
    {
        match self {
            FeedError::InvalidUrl => "Invalid Binance WebSocket URL",
        }
    }
}

/// The error of `url::Url::parse`. Nothing is known of what it holds.
#[verifier::external_type_specification]
#[verifier::external_body]
pub struct ExUrlParseError(url::ParseError);

/// The normalized form of the URL that a text writes, as `url::Url::parse` gives it; `None` where
/// it refuses the text.
pub uninterp spec fn parsed_url(address: Seq<char>) -> Option<Seq<char>>;

/// `url::Url::parse`, with the URL taken as text.
#[verifier::external_body]
fn parse_url(address: &str) -> (r: Result<String, url::ParseError>)
    ensures
        match r {
            Ok(u) => parsed_url(address@) == Some(u@),
            Err(_) => parsed_url(address@) is None,
        },
{
    url::Url::parse(address).map(String::from)
}

/// `r` is the URL that an address writes, or the error where it writes none.
pub open spec fn is_url_of(r: Result<String, FeedError>, address: Seq<char>) -> bool {
    match r {
        Ok(u) => parsed_url(address) == Some(u@),
        Err(FeedError::InvalidUrl) => parsed_url(address) is None,
    }
}

/// The address to connect to for the streams of the symbols.
pub fn build_stream_url(symbols: &Vec<String>) -> (r: Result<String, FeedError>)
    ensures
        is_url_of(r, stream_address(stream_names(symbols@))),
        (forall|i: int| 0 <= i < symbols@.len() ==> text::ascii(#[trigger] symbols@[i]@))
            ==> is_url_of(r, stream_address(ascii_stream_names(symbols@))),
{
    let mut names: Vec<String> = Vec::new();
    let mut i: usize = 0;
    while i < symbols.len()
        invariant
            0 <= i <= symbols@.len(),
            names@.len() == i,
            forall|j: int| 0 <= j < i ==> (#[trigger] names@[j])@ == stream_names(symbols@)[j],
            forall|j: int|
                0 <= j < i && text::ascii(symbols@[j]@) ==> (#[trigger] names@[j])@
                    == ascii_stream_names(symbols@)[j],
        decreases symbols@.len() - i,
    {
        let mut name = to_binance_pair(symbols[i].as_str());
        name.append("@bookTicker");
        names.push(name);
        i = i + 1;
    }
    proof {
        assert(text::views(names@) =~= stream_names(symbols@));
        if forall|i: int| 0 <= i < symbols@.len() ==> text::ascii(#[trigger] symbols@[i]@) {
            assert(text::views(names@) =~= ascii_stream_names(symbols@));
        }
    }
    let address = render_stream_address(&names);
    match parse_url(address.as_str()) {
        Ok(u) => Ok(u),
        Err(_) => Err(FeedError::InvalidUrl),
    }
}

// ---------------------------------------------------------------------------------------------
// Ticks.
// ---------------------------------------------------------------------------------------------

/// The price of a symbol: the middle of its best bid and ask.
#[derive(Debug, Clone)]
pub struct PriceTick {
    pub symbol: String,
    pub price: Binary64,
    pub timestamp_ms: u64,
}

/// A quote that gives no price: a bid or an ask that is not above zero, or an ask below the bid.
pub open spec fn bad_quote(bid: Binary64, ask: Binary64) -> bool {
    let zero = Binary64 { bits: 0 };
    bid.at_most(zero) || ask.at_most(zero) || ask.below(bid)
}

/// The tick that a quote of a Binance pair gives, `mid` being the middle of `bid` and `ask`.
pub fn tick_from_quote(
    pair: &str,
    bid: Binary64,
    ask: Binary64,
    mid: Binary64,
    timestamp_ms: u64,
) -> (r: Option<PriceTick>)
    ensures
        r is None <==> bad_quote(bid, ask),
        r is None <==> bid.at_most(Binary64 { bits: 0 }) || ask.at_most(Binary64 { bits: 0 })
            || ask.below(bid),
        (Binary64 { bits: 0 }).below(bid) && bid.at_most(ask) ==> r is Some,
        r matches Some(tick) ==> tick.symbol@ == symbol_of(text::lowercase(pair@)) && (text::ascii(
            pair@,
        ) ==> tick.symbol@ == symbol_of(text::ascii_lowercase(pair@))) && tick.price == mid
            && tick.timestamp_ms == timestamp_ms,
{
    let zero = Binary64::from_bits(0);
    if bid.le(zero) || ask.le(zero) || ask.lt(bid) {
        return None;
    }
    Some(PriceTick { symbol: from_binance_pair(pair), price: mid, timestamp_ms })
}

/// What came over the WebSocket of the price feed.
#[derive(Debug, Clone, Copy, PartialEq, Eq, Structural)]
pub enum FeedFrame {
    Text,
    Ping,
    Pong,
    Close,
    ReadError,
    Other,
}

/// What the price feed does with a frame.
#[derive(Debug, Clone, Copy, PartialEq, Eq, Structural)]
pub enum FeedStep {
    /// Read a tick from the text and hand it on.
    Decode,
    Ignore,
    /// End the feed, to be connected again.
    Stop,
}

/// What the price feed does with a frame: texts are read, a close or a read error ends the feed.
pub fn feed_step(frame: FeedFrame) -> (r: FeedStep)
    ensures
        r == FeedStep::Decode <==> frame == FeedFrame::Text,
        r == FeedStep::Stop <==> frame == FeedFrame::Close || frame == FeedFrame::ReadError,
{
    match frame {
        FeedFrame::Text => FeedStep::Decode,
        FeedFrame::Close => FeedStep::Stop,
        FeedFrame::ReadError => FeedStep::Stop,
        FeedFrame::Ping => FeedStep::Ignore,
        FeedFrame::Pong => FeedStep::Ignore,
        FeedFrame::Other => FeedStep::Ignore,
    }
}

// ---------------------------------------------------------------------------------------------
// History.
// ---------------------------------------------------------------------------------------------

/// A symbol's history is cleared when no tick came for longer than this.
pub const PRICE_GAP_RESET_MS: u64 = 4_000;

/// A price and the time in milliseconds at which it was seen.
pub type PricePoint = (u64, Binary64);

/// The prices of a symbol now and some time ago.
#[derive(Debug, Clone, Copy, PartialEq, Eq, Structural)]
pub struct PriceMove {
    pub current: Binary64,
    pub reference: Binary64,
}

/// The history that is left when the next tick comes at `ts`: none after a gap.
pub open spec fn after_gap(buf: Seq<PricePoint>, ts: int) -> Seq<PricePoint> {
    if buf.len() > 0 && ts - buf.last().0 > PRICE_GAP_RESET_MS {
        Seq::empty()
    } else {
        buf
    }
}

/// The points that are not older than `cutoff`, in their order.
pub open spec fn not_older(buf: Seq<PricePoint>, cutoff: int) -> Seq<PricePoint> {
    buf.filter(|p: PricePoint| p.0 >= cutoff)
}

/// The history after a tick.
pub open spec fn pushed(buf: Seq<PricePoint>, point: PricePoint, max_age_ms: int) -> Seq<
    PricePoint,
> {
    not_older(after_gap(buf, point.0 as int).push(point), point.0 - max_age_ms)
}

/// How many points at the front of the history are no later than `target`.
pub open spec fn leading(buf: Seq<PricePoint>, target: int) -> nat
    decreases buf.len(),
{
    if buf.len() == 0 || buf[0].0 > target {
        0
    } else {
        1 + leading(buf.skip(1), target)
    }
}

/// The time `lookback` milliseconds before `now`, and no earlier than time zero.
pub open spec fn lookback_time(now: int, lookback: int) -> int {
    if now > lookback {
        now - lookback
    } else {
        0
    }
}

/// The last price, and the last of the leading prices that are at least `lookback` old.
pub open spec fn price_move(buf: Seq<PricePoint>, lookback: int, now: int) -> Option<PriceMove> {
    let n = leading(buf, lookback_time(now, lookback));
    if n == 0 {
        None
    } else {
        Some(PriceMove { current: buf.last().1, reference: buf[n - 1].1 })
    }
}

/// In-memory price history for momentum calculation.
pub struct PriceHistory {
    entries: TextMap<Vec<PricePoint>>,
    max_age_ms: u64,
}

impl PriceHistory {
    pub closed spec fn wf(&self) -> bool {
        self.entries.wf()
    }

    /// The points of a symbol, in the order in which they came.
    pub closed spec fn points(&self, symbol: Seq<char>) -> Seq<PricePoint> {
        if self.entries@.contains_key(symbol) {
            self.entries@[symbol]@
        } else {
            Seq::empty()
        }
    }

    /// How old a point can be, in milliseconds.
    pub closed spec fn max_age_ms(&self) -> int {
        self.max_age_ms as int
    }

    /// An empty history of points that are at most `max_age_secs` old.
    pub fn new(max_age_secs: u64) -> (r: PriceHistory)
        requires
            max_age_secs * 1000 <= u64::MAX,
        ensures
            r.wf(),
            r.max_age_ms() == max_age_secs * 1000,
            forall|symbol: Seq<char>| #[trigger] r.points(symbol) == Seq::<PricePoint>::empty(),
    {
        PriceHistory { entries: TextMap::new(), max_age_ms: max_age_secs * 1000 }
    }

    /// Adds a tick to its symbol's history. After a gap the history begins anew, and points that
    /// have grown too old are dropped.
    pub fn push(&mut self, tick: &PriceTick)
        requires
            old(self).wf(),
        ensures
            final(self).wf(),
            final(self).max_age_ms() == old(self).max_age_ms(),
            final(self).points(tick.symbol@) == pushed(
                old(self).points(tick.symbol@),
                (tick.timestamp_ms, tick.price),
                old(self).max_age_ms(),
            ),
            forall|symbol: Seq<char>|
                symbol != tick.symbol@ ==> #[trigger] final(self).points(symbol) == old(self).points(symbol),
    {
        let ghost before = *self;
        let ghost key = tick.symbol@;
        let point: PricePoint = (tick.timestamp_ms, tick.price);
        match self.entries.position(tick.symbol.as_str()) {
            Some(i) => {
                let updated = updated_points(self.entries.value_at(i), point, self.max_age_ms);
                let ghost after = updated@;
                *self.entries.value_mut(i) = updated;
                proof {
                    let e = self.entries;
                    let b = before.entries;
                    assert forall|j: int| 0 <= j < e.entries().len() implies #[trigger] e.key_at(j)
                        == b.key_at(j) by {}
                    crate::text_map::lemma_same_keys(e, b);
                    e.lemma_entry(i as int);
                    assert forall|symbol: Seq<char>| symbol != key implies #[trigger] self.points(
                        symbol,
                    ) == before.points(symbol) by {
                        assert(e.holds(symbol) == b.holds(symbol));
                        if e.holds(symbol) {
                            let j = e.place(symbol);
                            assert(e.key_at(j) == symbol);
                            assert(j != i);
                            e.lemma_entry(j);
                            b.lemma_entry(j);
                        }
                    }
                }
            },
            None => {
                let empty: Vec<PricePoint> = Vec::new();
                let updated = updated_points(&empty, point, self.max_age_ms);
                self.entries.insert(tick.symbol.clone(), updated);
            },
        }
    }

    /// The last price of a symbol and its price `lookback_ms` before `now_ms`: the last of the
    /// leading prices that are no later. `None` where the history does not reach back so far.
    pub fn price_change(&self, symbol: &str, lookback_ms: u64, now_ms: u64) -> (r: Option<
        PriceMove,
    >)
        requires
            self.wf(),
        ensures
            r == price_move(self.points(symbol@), lookback_ms as int, now_ms as int),
    {
        match self.entries.get(symbol) {
            Some(buf) => {
                let target: u64 = now_ms.saturating_sub(lookback_ms);
                let n = count_leading(buf, target);
                if n == 0 {
                    None
                } else {
                    let last = buf.len() - 1;
                    Some(PriceMove { current: buf[last].1, reference: buf[n - 1].1 })
                }
            },
            None => None,
        }
    }
}

/// A symbol's points after a tick.
fn updated_points(buf: &Vec<PricePoint>, point: PricePoint, max_age_ms: u64) -> (r: Vec<PricePoint>)
    ensures
        r@ == pushed(buf@, point, max_age_ms as int),
{
    let cutoff: u64 = point.0.saturating_sub(max_age_ms);
    let gap = buf.len() > 0 && point.0.saturating_sub(buf[buf.len() - 1].0) > PRICE_GAP_RESET_MS;
    let ghost kept = after_gap(buf@, point.0 as int);
    let ghost recent = |p: PricePoint| p.0 >= point.0 - max_age_ms;
    let mut out: Vec<PricePoint> = Vec::new();
    proof {
        reveal(Seq::filter);
        assert(kept.take(0) =~= Seq::<PricePoint>::empty());
        assert(kept.take(0).filter(recent) =~= Seq::<PricePoint>::empty());
    }
    if !gap {
        let mut i: usize = 0;
        while i < buf.len()
            invariant
                0 <= i <= buf@.len(),
                kept == buf@,
                recent == (|p: PricePoint| p.0 >= point.0 - max_age_ms),
                cutoff == (if point.0 > max_age_ms { point.0 - max_age_ms } else { 0 }),
                out@ == kept.take(i as int).filter(recent),
            decreases buf@.len() - i,
        {
            proof {
                reveal(Seq::filter);
                assert(kept.take(i + 1).drop_last() =~= kept.take(i as int));
            }
            if buf[i].0 >= cutoff {
                out.push(buf[i]);
            }
            i = i + 1;
        }
        assert(kept.take(i as int) =~= kept);
    } else {
        assert(kept.take(0) =~= kept);
    }
    out.push(point);
    proof {
        reveal(Seq::filter);
        assert(kept.push(point).drop_last() =~= kept);
    }
    out
}

/// How many points at the front are no later than `target`.
fn count_leading(buf: &Vec<PricePoint>, target: u64) -> (r: usize)
    ensures
        r == leading(buf@, target as int),
        r <= buf@.len(),
{
    let mut n: usize = 0;
    assert(buf@.skip(0) =~= buf@);
    while n < buf.len()
        invariant
            0 <= n <= buf@.len(),
            leading(buf@, target as int) == n + leading(buf@.skip(n as int), target as int),
        decreases buf@.len() - n,
    {
        assert(buf@.skip(n as int).skip(1) =~= buf@.skip(n + 1));
        if buf[n].0 > target {
            return n;
        }
        n = n + 1;
    }
    n
}

// ---------------------------------------------------------------------------------------------
// What holds of a history.
// ---------------------------------------------------------------------------------------------

/// The points stand in the order of their times.
pub open spec fn in_time_order(buf: Seq<PricePoint>) -> bool {
    forall|i: int, j: int| 0 <= i <= j < buf.len() ==> (#[trigger] buf[i]).0 <= (#[trigger] buf[j]).0
}

/// No two neighbouring points are farther apart than a gap.
pub open spec fn gapless(buf: Seq<PricePoint>) -> bool {
    forall|i: int|
        0 < i < buf.len() ==> (#[trigger] buf[i]).0 - buf[i - 1].0 <= PRICE_GAP_RESET_MS
}

/// Dropping the points older than a time from points in time order drops them from the front.
proof fn lemma_not_older_is_tail(buf: Seq<PricePoint>, cutoff: int) -> (k: int)
    requires
        in_time_order(buf),
    ensures
        0 <= k <= buf.len(),
        not_older(buf, cutoff) == buf.skip(k),
        forall|i: int| 0 <= i < k ==> (#[trigger] buf[i]).0 < cutoff,
        forall|i: int| k <= i < buf.len() ==> (#[trigger] buf[i]).0 >= cutoff,
    decreases buf.len(),
{
    reveal(Seq::filter);
    if buf.len() == 0 {
        assert(not_older(buf, cutoff) =~= buf.skip(0));
        0
    } else {
        let front = buf.drop_last();
        let k = lemma_not_older_is_tail(front, cutoff);
        assert forall|i: int| 0 <= i < front.len() implies #[trigger] buf[i] == front[i] by {}
        if buf.last().0 >= cutoff {
            assert(not_older(buf, cutoff) =~= buf.skip(k));
            k
        } else {
            if k < front.len() {
                assert(front[k].0 >= cutoff);
                assert(buf[k].0 <= buf[buf.len() - 1].0);
            }
            assert(not_older(buf, cutoff) =~= buf.skip(buf.len() as int));
            buf.len() as int
        }
    }
}

/// After a tick the history ends in that tick and holds no point older than the age limit,
/// whatever the times of the points before it.
pub proof fn law_push_ends_in_tick(buf: Seq<PricePoint>, point: PricePoint, max_age_ms: int)
    requires
        max_age_ms >= 0,
    ensures
        pushed(buf, point, max_age_ms).len() > 0,
        pushed(buf, point, max_age_ms).last() == point,
        forall|i: int|
            0 <= i < pushed(buf, point, max_age_ms).len() ==> (#[trigger] pushed(
                buf,
                point,
                max_age_ms,
            )[i]).0 >= point.0 - max_age_ms,
{
    reveal(Seq::filter);
    let all = after_gap(buf, point.0 as int).push(point);
    let recent = |p: PricePoint| p.0 >= point.0 - max_age_ms;
    assert(all.drop_last() =~= after_gap(buf, point.0 as int));
    assert forall|i: int| 0 <= i < all.filter(recent).len() implies (#[trigger] all.filter(
        recent,
    )[i]).0 >= point.0 - max_age_ms by {
        all.lemma_filter_pred(recent, i);
    }
}

/// Ticks that come in time order keep the history in time order and without gaps: momentum is
/// never measured across an outage of the feed. What the tick leaves of the history is its end.
pub proof fn law_push_keeps_order(buf: Seq<PricePoint>, point: PricePoint, max_age_ms: int)
    requires
        max_age_ms >= 0,
        in_time_order(buf),
        gapless(buf),
        buf.len() > 0 ==> buf.last().0 <= point.0,
    ensures
        in_time_order(pushed(buf, point, max_age_ms)),
        gapless(pushed(buf, point, max_age_ms)),
        exists|k: int|
            0 <= k <= buf.len() && pushed(buf, point, max_age_ms) == #[trigger] buf.skip(k).push(
                point,
            ),
{
    let kept = after_gap(buf, point.0 as int);
    let all = kept.push(point);
    assert forall|i: int, j: int| 0 <= i <= j < all.len() implies (#[trigger] all[i]).0 <= (
    #[trigger] all[j]).0 by {
        if j == kept.len() && i < j {
            assert(kept[i].0 <= kept[kept.len() - 1].0);
        }
    }
    assert(gapless(all)) by {
        assert forall|i: int| 0 < i < all.len() implies (#[trigger] all[i]).0 - all[i - 1].0
            <= PRICE_GAP_RESET_MS by {
            if i < kept.len() {
                assert(buf[i].0 - buf[i - 1].0 <= PRICE_GAP_RESET_MS);
            }
        }
    }
    let k = lemma_not_older_is_tail(all, point.0 - max_age_ms);
    let out = pushed(buf, point, max_age_ms);
    assert(out == all.skip(k));
    assert(k < all.len()) by {
        if k == all.len() {
            assert(all[kept.len() as int].0 >= point.0 - max_age_ms);
        }
    }
    assert(gapless(out)) by {
        assert forall|i: int| 0 < i < out.len() implies (#[trigger] out[i]).0 - out[i - 1].0
            <= PRICE_GAP_RESET_MS by {
            assert(out[i] == all[i + k]);
            assert(out[i - 1] == all[i + k - 1]);
        }
    }
    if kept.len() == 0 {
        assert(out =~= buf.skip(buf.len() as int).push(point));
    } else {
        assert(out =~= buf.skip(k).push(point));
    }
}

/// After a gap the history begins anew: it holds the tick alone.
pub proof fn law_gap_clears_history(buf: Seq<PricePoint>, point: PricePoint, max_age_ms: int)
    requires
        max_age_ms >= 0,
        buf.len() > 0,
        point.0 - buf.last().0 > PRICE_GAP_RESET_MS,
    ensures
        pushed(buf, point, max_age_ms) == seq![point],
{
    reveal(Seq::filter);
    let all = Seq::<PricePoint>::empty().push(point);
    assert(all.drop_last() =~= Seq::<PricePoint>::empty());
    assert(pushed(buf, point, max_age_ms) =~= seq![point]);
}

/// In a history in time order, the change is measured from the last point that is at least
/// `lookback` old, and there is none to measure exactly where no point is that old.
pub proof fn law_change_is_from_latest_old_point(buf: Seq<PricePoint>, lookback: int, now: int)
    requires
        in_time_order(buf),
    ensures
        price_move(buf, lookback, now) is None <==> (forall|i: int|
            0 <= i < buf.len() ==> (#[trigger] buf[i]).0 > lookback_time(now, lookback)),
        price_move(buf, lookback, now) matches Some(m) ==> m.current == buf.last().1 && (exists|
            i: int,
        |
            0 <= i < buf.len() && m.reference == (#[trigger] buf[i]).1 && buf[i].0 <= lookback_time(
                now,
                lookback,
            ) && (forall|j: int|
                i < j < buf.len() ==> (#[trigger] buf[j]).0 > lookback_time(now, lookback))),
{
    let target = lookback_time(now, lookback);
    lemma_leading_splits(buf, target);
    let n = leading(buf, target);
    if n == 0 {
        if buf.len() > 0 {
            assert(buf[0].0 > target);
        }
    } else {
        assert(buf[n - 1].0 <= target);
        assert forall|j: int| n - 1 < j < buf.len() implies (#[trigger] buf[j]).0 > target by {
            assert(buf[n as int].0 <= buf[j].0);
        }
    }
}

/// The leading points are no later than `target`, and the point behind them is later.
proof fn lemma_leading_splits(buf: Seq<PricePoint>, target: int)
    ensures
        leading(buf, target) <= buf.len(),
        forall|i: int| 0 <= i < leading(buf, target) ==> (#[trigger] buf[i]).0 <= target,
        leading(buf, target) < buf.len() ==> buf[leading(buf, target) as int].0 > target,
    decreases buf.len(),
{
    if buf.len() > 0 && buf[0].0 <= target {
        let rest = buf.skip(1);
        lemma_leading_splits(rest, target);
        assert forall|i: int| 0 <= i < leading(buf, target) implies (#[trigger] buf[i]).0
            <= target by {
            if i > 0 {
                assert(rest[i - 1] == buf[i]);
            }
        }
    }
}

/// Once a history reaches back a lookback it does so after every tick that follows without a gap,
/// where points are kept for the lookback and a gap more.
pub proof fn law_history_keeps_its_reach(
    buf: Seq<PricePoint>,
    point: PricePoint,
    lookback: int,
    max_age_ms: int,
)
    requires
        in_time_order(buf),
        gapless(buf),
        buf.len() > 0,
        0 <= lookback,
        lookback + PRICE_GAP_RESET_MS <= max_age_ms,
        price_move(buf, lookback, buf.last().0 as int) is Some,
        0 <= point.0 - buf.last().0 <= PRICE_GAP_RESET_MS,
    ensures
        price_move(pushed(buf, point, max_age_ms), lookback, point.0 as int) is Some,
{
    let all = buf.push(point);
    let cutoff = point.0 - max_age_ms;
    assert forall|i: int, j: int| 0 <= i <= j < all.len() implies (#[trigger] all[i]).0 <= (
    #[trigger] all[j]).0 by {
        if j == buf.len() && i < buf.len() {
            assert(buf[i].0 <= buf[buf.len() - 1].0);
        }
    }
    assert(after_gap(buf, point.0 as int) == buf);
    let k = lemma_not_older_is_tail(all, cutoff);
    let last = all.len() - 1;
    assert(all[last] == point);
    assert(k <= last) by {
        if k > last {
            assert(all[last].0 < cutoff);
        }
    }
    let tail = all.skip(k);
    assert(tail[0] == all[k]);
    if k == 0 {
        assert(buf[0].0 <= lookback_time(buf.last().0 as int, lookback));
    } else {
        assert(all[k - 1].0 < cutoff);
        assert(all[k].0 - all[k - 1].0 <= PRICE_GAP_RESET_MS) by {
            if k < buf.len() {
                assert(all[k] == buf[k] && all[k - 1] == buf[k - 1]);
            }
        }
    }
}

// ---------------------------------------------------------------------------------------------
// What holds of quotes, points and addresses.
// ---------------------------------------------------------------------------------------------

/// Every quote with a bid above zero and an ask no lower than its bid gives a price, however small
/// the bid is. A bid or an ask at or below zero, or an ask below the bid, gives none.
pub proof fn law_sound_quotes_give_prices(bid: Binary64, ask: Binary64)
    ensures
        (Binary64 { bits: 0 }).below(bid) && bid.at_most(ask) ==> !bad_quote(bid, ask),
        bid.at_most(Binary64 { bits: 0 }) ==> bad_quote(bid, ask),
        ask.at_most(Binary64 { bits: 0 }) ==> bad_quote(bid, ask),
        ask.below(bid) ==> bad_quote(bid, ask),
        bad_quote(bid, ask) ==> !((Binary64 { bits: 0 }).below(bid) && (Binary64 {
            bits: 0,
        }).below(ask) && bid.at_most(ask)),
        bid.nan() && !ask.at_most(Binary64 { bits: 0 }) ==> !bad_quote(bid, ask),
        ask.nan() && !bid.at_most(Binary64 { bits: 0 }) ==> !bad_quote(bid, ask),
{
}

/// A tick keeps a point of the history exactly where no gap of more than four seconds precedes the
/// tick and the point is no older than the age limit. The tick itself is kept.
pub proof fn law_tick_keeps_young_points(
    buf: Seq<PricePoint>,
    point: PricePoint,
    max_age_ms: int,
    kept: PricePoint,
)
    requires
        max_age_ms >= 0,
    ensures
        pushed(buf, point, max_age_ms).contains(kept) <==> kept == point || (buf.contains(kept)
            && point.0 - buf.last().0 <= 4_000 && kept.0 >= point.0 - max_age_ms),
{
    let before = after_gap(buf, point.0 as int);
    lemma_filter_contains(before.push(point), point.0 - max_age_ms, kept);
    let all = before.push(point);
    assert(all[before.len() as int] == point);
    if before.contains(kept) {
        let i = choose|i: int| 0 <= i < before.len() && before[i] == kept;
        assert(all[i] == kept);
    }
    if all.contains(kept) && kept != point {
        let i = choose|i: int| 0 <= i < all.len() && all[i] == kept;
        assert(before[i] == kept);
    }
}

/// What is not older than a time is what was there and is not older.
proof fn lemma_filter_contains(buf: Seq<PricePoint>, cutoff: int, kept: PricePoint)
    ensures
        not_older(buf, cutoff).contains(kept) <==> buf.contains(kept) && kept.0 >= cutoff,
    decreases buf.len(),
{
    reveal(Seq::filter);
    if buf.len() > 0 {
        let front = buf.drop_last();
        lemma_filter_contains(front, cutoff, kept);
        let last = buf.len() - 1;
        assert(buf[last] == buf.last());
        if front.contains(kept) {
            let i = choose|i: int| 0 <= i < front.len() && front[i] == kept;
            assert(buf[i] == kept);
        }
        if buf.contains(kept) && kept != buf.last() {
            let i = choose|i: int| 0 <= i < buf.len() && buf[i] == kept;
            assert(front[i] == kept);
        }
        let out = not_older(front, cutoff);
        if buf.last().0 >= cutoff {
            assert(not_older(buf, cutoff) =~= out.push(buf.last()));
            assert(out.push(buf.last())[out.len() as int] == buf.last());
            if out.contains(kept) {
                let i = choose|i: int| 0 <= i < out.len() && out[i] == kept;
                assert(out.push(buf.last())[i] == kept);
            }
            if out.push(buf.last()).contains(kept) && kept != buf.last() {
                let i = choose|i: int|
                    0 <= i < out.push(buf.last()).len() && out.push(buf.last())[i] == kept;
                assert(out[i] == kept);
            }
        } else {
            assert(not_older(buf, cutoff) =~= out);
        }
    }
}

/// In a history in time order a tick drops points from the front alone, and as few as the age
/// limit allows: the rest stays as it was, with the tick behind it.
pub proof fn law_tick_drops_old_points_from_the_front(
    buf: Seq<PricePoint>,
    point: PricePoint,
    max_age_ms: int,
    k: int,
)
    requires
        max_age_ms >= 0,
        0 <= k <= buf.len(),
        forall|i: int, j: int|
            0 <= i <= j < buf.len() ==> (#[trigger] buf[i]).0 <= (#[trigger] buf[j]).0,
        buf.len() > 0 ==> 0 <= point.0 - buf.last().0 <= 4_000,
        forall|i: int| 0 <= i < k ==> (#[trigger] buf[i]).0 < point.0 - max_age_ms,
        k < buf.len() ==> buf[k].0 >= point.0 - max_age_ms,
    ensures
        pushed(buf, point, max_age_ms) == buf.skip(k).push(point),
{
    let all = buf.push(point);
    let cutoff = point.0 - max_age_ms;
    assert(after_gap(buf, point.0 as int) =~= buf);
    assert forall|i: int, j: int| 0 <= i <= j < all.len() implies (#[trigger] all[i]).0 <= (
    #[trigger] all[j]).0 by {
        if j == buf.len() && i < j {
            assert(buf[i].0 <= buf[buf.len() - 1].0);
        }
    }
    let m = lemma_not_older_is_tail(all, cutoff);
    assert(m == k) by {
        if m < k {
            assert(all[m].0 >= cutoff);
            assert(buf[m].0 < cutoff);
        }
        if m > k {
            assert(all[k].0 < cutoff);
            if k < buf.len() {
                assert(buf[k].0 >= cutoff);
            }
        }
    }
    assert(all.skip(k) =~= buf.skip(k).push(point));
}

/// The move is from the last of the leading points that came no later than the lookback before
/// `now`, and no earlier than time zero, to the last point of the history; there is none where
/// the history is empty or its first point came later.
pub proof fn law_move_compares_latest_with_lookback(
    buf: Seq<PricePoint>,
    lookback: int,
    now: int,
    target: int,
    n: int,
)
    requires
        target == (if now > lookback {
            now - lookback
        } else {
            0
        }),
        0 <= n <= buf.len(),
        forall|i: int| 0 <= i < n ==> (#[trigger] buf[i]).0 <= target,
        n < buf.len() ==> buf[n].0 > target,
    ensures
        n == 0 ==> price_move(buf, lookback, now) is None,
        n > 0 ==> price_move(buf, lookback, now) is Some && price_move(
            buf,
            lookback,
            now,
        )->0.current == buf[buf.len() - 1].1 && price_move(buf, lookback, now)->0.reference
            == buf[n - 1].1,
{
    lemma_leading_splits(buf, target);
    let k = leading(buf, target) as int;
    if k < n {
        assert(buf[k].0 <= target);
    }
    if n < k {
        assert(buf[n].0 <= target);
    }
}

/// The pair of a symbol is the symbol and the four letters of the currency; cutting them off
/// gives the symbol, and a pair that does not end in them is its own symbol.
pub proof fn law_pairs_end_in_the_currency(symbol: Seq<char>, pair: Seq<char>)
    ensures
        pair_of(symbol) == symbol + seq!['u', 's', 'd', 't'],
        symbol_of(symbol + seq!['u', 's', 'd', 't']) == symbol,
        pair.len() < 4 || pair.skip(pair.len() - 4) != seq!['u', 's', 'd', 't'] ==> symbol_of(pair)
            == pair,
{
    reveal_strlit("usdt");
    assert("usdt"@ =~= seq!['u', 's', 'd', 't']);
    text::law_suffix_is_cut_off(symbol, "usdt"@);
    if pair.len() < 4 || pair.skip(pair.len() - 4) != seq!['u', 's', 'd', 't'] {
        assert forall|front: Seq<char>| pair != #[trigger] (front + "usdt"@) by {
            if pair == front + "usdt"@ {
                assert(pair.skip(pair.len() - 4) =~= "usdt"@);
            }
        }
        text::law_suffix_is_cut_off(pair, "usdt"@);
    }
}

/// The address of one symbol names its stream; that of more symbols names one stream more for
/// each, behind a slash.
pub proof fn law_address_names_every_stream(symbols: Seq<String>, symbol: String)
    ensures
        stream_address(stream_names(Seq::<String>::empty()))
            == "wss://stream.binance.com:9443/stream"@ + "?streams="@,
        stream_address(stream_names(seq![symbol])) == "wss://stream.binance.com:9443/stream"@
            + "?streams="@ + (text::lowercase(symbol@) + "usdt"@ + "@bookTicker"@),
        symbols.len() > 0 ==> stream_address(stream_names(symbols.push(symbol))) == stream_address(
            stream_names(symbols),
        ) + "/"@ + (text::lowercase(symbol@) + "usdt"@ + "@bookTicker"@),
{
    let name = text::lowercase(symbol@) + "usdt"@ + "@bookTicker"@;
    assert(stream_names(Seq::<String>::empty()) =~= Seq::<Seq<char>>::empty());
    assert(stream_names(seq![symbol]) =~= seq![name]);
    assert(stream_names(symbols.push(symbol)) =~= stream_names(symbols).push(name));
    text::law_parts_are_joined(stream_names(symbols), "/"@, name);
    assert(stream_address(stream_names(Seq::<String>::empty()))
        =~= "wss://stream.binance.com:9443/stream"@ + "?streams="@);
    if symbols.len() > 0 {
        assert(stream_address(stream_names(symbols.push(symbol))) =~= stream_address(
            stream_names(symbols),
        ) + "/"@ + name);
    }
}

/// The same holds of the address of symbols in ASCII.
pub proof fn law_ascii_address_names_every_stream(symbols: Seq<String>, symbol: String)
    ensures
        stream_address(ascii_stream_names(seq![symbol])) == "wss://stream.binance.com:9443/stream"@
            + "?streams="@ + (text::ascii_lowercase(symbol@) + "usdt"@ + "@bookTicker"@),
        symbols.len() > 0 ==> stream_address(ascii_stream_names(symbols.push(symbol)))
            == stream_address(ascii_stream_names(symbols)) + "/"@ + (text::ascii_lowercase(symbol@)
            + "usdt"@ + "@bookTicker"@),
{
    let name = text::ascii_lowercase(symbol@) + "usdt"@ + "@bookTicker"@;
    assert(ascii_stream_names(seq![symbol]) =~= seq![name]);
    assert(ascii_stream_names(symbols.push(symbol)) =~= ascii_stream_names(symbols).push(name));
    text::law_parts_are_joined(ascii_stream_names(symbols), "/"@, name);
    if symbols.len() > 0 {
        assert(stream_address(ascii_stream_names(symbols.push(symbol))) =~= stream_address(
            ascii_stream_names(symbols),
        ) + "/"@ + name);
    }
}

/// Whether a tick keeps the first point of a history depends on that point's age alone, and the
/// point stays in front of what is kept of the others, whatever their times.
pub proof fn law_tick_keeps_the_order(buf: Seq<PricePoint>, point: PricePoint, max_age_ms: int)
    requires
        max_age_ms >= 0,
        buf.len() > 0,
        point.0 - buf.last().0 <= 4_000,
    ensures
        buf[0].0 >= point.0 - max_age_ms ==> pushed(buf, point, max_age_ms) == seq![buf[0]]
            + pushed(buf.skip(1), point, max_age_ms),
        buf[0].0 < point.0 - max_age_ms ==> pushed(buf, point, max_age_ms) == pushed(
            buf.skip(1),
            point,
            max_age_ms,
        ),
        pushed(Seq::<PricePoint>::empty(), point, max_age_ms) == seq![point],
{
    let rest = buf.skip(1);
    let cutoff = point.0 - max_age_ms;
    if rest.len() > 0 {
        assert(rest.last() == buf.last());
    }
    assert(after_gap(rest, point.0 as int) =~= rest);
    assert(buf.push(point) =~= seq![buf[0]] + rest.push(point));
    lemma_not_older_of_first(buf[0], rest.push(point), cutoff);
    reveal(Seq::filter);
    let alone = Seq::<PricePoint>::empty().push(point);
    assert(alone.drop_last() =~= Seq::<PricePoint>::empty());
    assert(not_older(alone, cutoff) =~= seq![point]);
}

/// What is not older than a time, of a point and others behind it.
proof fn lemma_not_older_of_first(first: PricePoint, rest: Seq<PricePoint>, cutoff: int)
    ensures
        not_older(seq![first] + rest, cutoff) == (if first.0 >= cutoff {
            seq![first] + not_older(rest, cutoff)
        } else {
            not_older(rest, cutoff)
        }),
    decreases rest.len(),
{
    reveal(Seq::filter);
    let all = seq![first] + rest;
    if rest.len() == 0 {
        assert(all.drop_last() =~= Seq::<PricePoint>::empty());
        assert(not_older(rest, cutoff) =~= Seq::<PricePoint>::empty());
        assert(not_older(all.drop_last(), cutoff) =~= Seq::<PricePoint>::empty());
        if first.0 >= cutoff {
            assert(not_older(all, cutoff) =~= seq![first] + not_older(rest, cutoff));
        }
    } else {
        let front = rest.drop_last();
        lemma_not_older_of_first(first, front, cutoff);
        assert(all.drop_last() =~= seq![first] + front);
        assert(all.last() == rest.last());
        if first.0 >= cutoff {
            assert(not_older(all, cutoff) =~= seq![first] + not_older(rest, cutoff));
        } else {
            assert(not_older(all, cutoff) =~= not_older(rest, cutoff));
        }
    }
}

/// The URL is the one that the address writes, and the error comes exactly where it writes none.
pub proof fn law_url_is_that_of_the_address(r: Result<String, FeedError>, address: Seq<char>)
    requires
        is_url_of(r, address),
    ensures
        r is Ok <==> parsed_url(address) is Some,
        r is Ok ==> r->Ok_0@ == parsed_url(address)->0,
{
}

} // verus!
