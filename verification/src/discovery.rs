//! 5-minute Up/Down markets: their periods, their slugs and their tokens.

use crate::clock;
use crate::clock::{LocalInstants, MAX_UNIX};
use crate::models::TradeSide;
use crate::text;
use vstd::prelude::*;

verus! {

// ---------------------------------------------------------------------------------------------
// Periods.
// ---------------------------------------------------------------------------------------------

/// The length of a period in seconds.
pub const PERIOD_SECS: i64 = 300;

/// The time at which the window of `minutes` minutes began that a time lies in. The windows are
/// counted from the full hour.
pub open spec fn window_floor(time: int, minutes: int) -> int {
    let minute = (time / 60) % 60;
    time - time % 3600 + (minute - minute % minutes) * 60
}

/// The instant of a wall time that a clock at `now` has shown last: of two the later, once it has
/// come.
pub open spec fn latest_instant(instants: LocalInstants, now: int) -> Option<i64> {
    match instants {
        LocalInstants::Gap => None,
        LocalInstants::Single(t) => Some(t),
        LocalInstants::Ambiguous(first, second) => if second <= now {
            Some(second)
        } else {
            Some(first)
        },
    }
}

/// The instant at which the window of `minutes` minutes began in which New York is at `now`, by
/// its wall time.
pub open spec fn period_start(now: int, minutes: int) -> Option<i64> {
    latest_instant(
        clock::eastern_instants(window_floor(clock::eastern_wall(now), minutes)),
        now,
    )
}

/// The parts of a time: its hour, the minute of that hour and the second of that minute.
proof fn lemma_time_parts(time: int) -> (parts: (int, int, int))
    ensures
        time == 3600 * parts.0 + 60 * parts.1 + parts.2,
        0 <= parts.1 < 60,
        0 <= parts.2 < 60,
        parts.0 == time / 3600,
        parts.1 == (time / 60) % 60,
        time % 3600 == 60 * parts.1 + parts.2,
{
    let hour = time / 3600;
    let rest = time % 3600;
    let minute = rest / 60;
    let second = rest % 60;
    vstd::arithmetic::div_mod::lemma_fundamental_div_mod(time, 3600);
    vstd::arithmetic::div_mod::lemma_fundamental_div_mod(rest, 60);
    assert(time == (60 * hour + minute) * 60 + second);
    vstd::arithmetic::div_mod::lemma_fundamental_div_mod_converse(
        time,
        60,
        60 * hour + minute,
        second,
    );
    vstd::arithmetic::div_mod::lemma_fundamental_div_mod_converse(
        60 * hour + minute,
        60,
        hour,
        minute,
    );
    (hour, minute, second)
}

/// A window begins in the hour of each of its times, no later than that time.
proof fn lemma_window_in_hour(time: int, minutes: int)
    requires
        minutes > 0,
    ensures
        3600 * (time / 3600) <= window_floor(time, minutes) <= time,
        time - 3600 < window_floor(time, minutes),
{
    let (hour, minute, second) = lemma_time_parts(time);
    vstd::arithmetic::div_mod::lemma_mod_bound(minute, minutes);
    vstd::arithmetic::div_mod::lemma_mod_decreases(minute as nat, minutes as nat);
}

/// The windows are the same in every hour.
proof fn lemma_window_of_shifted(time: int, hours: int, minutes: int)
    ensures
        window_floor(time + 3600 * hours, minutes) == window_floor(time, minutes) + 3600 * hours,
{
    let (hour, minute, second) = lemma_time_parts(time);
    let (other_hour, other_minute, other_second) = lemma_time_parts(time + 3600 * hours);
    assert(time + 3600 * hours == (hour + hours) * 3600 + (60 * minute + second));
    vstd::arithmetic::div_mod::lemma_fundamental_div_mod_converse(
        time + 3600 * hours,
        3600,
        hour + hours,
        60 * minute + second,
    );
    assert(other_minute == minute);
}

/// The wall time at which the window of `minutes` minutes began that `wall` lies in.
pub fn window_start(wall: i64, minutes: i64) -> (r: i64)
    requires
        -18000 <= wall <= MAX_UNIX,
        minutes > 0,
    ensures
        r == window_floor(wall as int, minutes as int),
        wall - 3600 < r <= wall,
        -18000 <= r,
{
    let shifted: u64 = (wall + 18000) as u64;
    let minute: u64 = (shifted / 60) % 60;
    let past: u64 = minute % (minutes as u64);
    proof {
        lemma_window_of_shifted(wall as int, 5, minutes as int);
        lemma_window_in_hour(wall + 18000, minutes as int);
        lemma_window_in_hour(wall as int, minutes as int);
        vstd::arithmetic::div_mod::lemma_mod_decreases(minute as nat, minutes as nat);
    }
    let start: u64 = shifted - shifted % 3600 + (minute - past) * 60;
    start as i64 - 18000
}

/// The instant of a wall time that a clock at `now` has shown last.
pub fn shown_last(instants: LocalInstants, now: i64) -> (r: Option<i64>)
    ensures
        r == latest_instant(instants, now as int),
{
    match instants {
        LocalInstants::Gap => None,
        LocalInstants::Single(t) => Some(t),
        LocalInstants::Ambiguous(first, second) => {
            if second <= now {
                Some(second)
            } else {
                Some(first)
            }
        },
    }
}

/// The start of the window of `minutes` minutes in which New York is at `now`. As New York is full
/// hours behind UTC, it is the start of the window of `now` itself.
pub fn period_start_at(now: i64, minutes: i64) -> (r: i64)
    requires
        clock::clock_reading(now as int),
        minutes > 0,
    ensures
        period_start(now as int, minutes as int) == Some(r),
        clock::eastern_wall(r as int) == window_floor(
            clock::eastern_wall(now as int),
            minutes as int,
        ),
        r == window_floor(now as int, minutes as int),
        minutes == 5 ==> r % 300 == 0 && r <= now < r + 300,
{
    let wall = clock::wall_of_unix(now);
    let start = window_start(wall, minutes);
    let instants = clock::unix_of_wall(start);
    proof {
        let behind: int = if wall == now - 18000 {
            5
        } else {
            4
        };
        let began = window_floor(now as int, minutes as int);
        lemma_window_of_shifted(now as int, -behind, minutes as int);
        lemma_window_in_hour(now as int, minutes as int);
        lemma_same_hour(now as int, began);
        assert(clock::eastern_wall(began) == start);
        law_five_minute_boundaries(now as int);
    }
    shown_last(instants, now).unwrap()
}

/// A time between the full hour and a later time of that hour lies in the same hour.
proof fn lemma_same_hour(time: int, earlier: int)
    requires
        3600 * (time / 3600) <= earlier <= time,
    ensures
        earlier / 3600 == time / 3600,
{
    vstd::arithmetic::div_mod::lemma_fundamental_div_mod(time, 3600);
    vstd::arithmetic::div_mod::lemma_fundamental_div_mod_converse(
        earlier,
        3600,
        time / 3600,
        earlier - 3600 * (time / 3600),
    );
}

/// The start of the window of `minutes` minutes in which New York is now.
pub fn period_start_et_unix(minutes: i64) -> (r: i64)
    requires
        minutes > 0,
    ensures
        exists|now: int| #[trigger]
            clock::clock_reading(now) && period_start(now, minutes as int) == Some(r)
                && clock::eastern_wall(r as int) == window_floor(
                clock::eastern_wall(now),
                minutes as int,
            ) && r == window_floor(now, minutes as int) && (minutes == 5 ==> r <= now < r + 300),
        minutes == 5 ==> r % 300 == 0,
{
    let now = clock::utc_now();
    assert(clock::clock_reading(now as int));
    period_start_at(now, minutes)
}

/// The start of the current 5-minute period. It lies on a 5-minute boundary, of the clocks in New
/// York as of UTC, and the period that it starts holds now.
pub fn current_5m_period_start() -> (r: i64)
    ensures
        exists|now: int| #[trigger]
            clock::clock_reading(now) && period_start(now, 5) == Some(r) && clock::eastern_wall(
                r as int,
            ) == window_floor(clock::eastern_wall(now), 5) && r == window_floor(now, 5) && r <= now
                < r + PERIOD_SECS,
        r % 300 == 0,
        clock::eastern_wall(r as int) % 300 == 0,
{
    let r = period_start_et_unix(5);
    proof {
        let now = choose|now: int| #[trigger]
            clock::clock_reading(now) && period_start(now, 5) == Some(r) && clock::eastern_wall(
                r as int,
            ) == window_floor(clock::eastern_wall(now), 5) && r == window_floor(now, 5) && r <= now
                < r + 300;
        law_five_minute_boundaries(clock::eastern_wall(now));
    }
    r
}

/// The windows of five minutes begin at the multiples of 300 seconds, and a time lies in the
/// window that it is assigned to.
pub proof fn law_five_minute_boundaries(time: int)
    ensures
        window_floor(time, 5) == time - time % 300,
        window_floor(time, 5) % 300 == 0,
        window_floor(time, 5) <= time < window_floor(time, 5) + 300,
{
    let (hour, minute, second) = lemma_time_parts(time);
    let past = 60 * (minute % 5) + second;
    vstd::arithmetic::div_mod::lemma_fundamental_div_mod(minute, 5);
    assert(time == (12 * hour + minute / 5) * 300 + past);
    vstd::arithmetic::div_mod::lemma_fundamental_div_mod_converse(
        time,
        300,
        12 * hour + minute / 5,
        past,
    );
    vstd::arithmetic::div_mod::lemma_fundamental_div_mod_converse(
        time - past,
        300,
        12 * hour + minute / 5,
        0,
    );
}

/// The current period holds now: its start is the one 5-minute boundary whose period does, and
/// between one second and five minutes of it are left.
pub proof fn law_period_holds_now(now: int, boundary: int)
    requires
        boundary % 300 == 0,
    ensures
        window_floor(now, 5) % 300 == 0,
        window_floor(now, 5) <= now < window_floor(now, 5) + PERIOD_SECS,
        boundary <= now < boundary + PERIOD_SECS ==> boundary == window_floor(now, 5),
        1 <= remaining(window_floor(now, 5), now) <= PERIOD_SECS,
        remaining(window_floor(now, 5), now) == window_floor(now, 5) + PERIOD_SECS - now,
{
    law_five_minute_boundaries(now);
    vstd::arithmetic::div_mod::lemma_fundamental_div_mod(boundary, 300);
    if boundary <= now < boundary + PERIOD_SECS {
        vstd::arithmetic::div_mod::lemma_fundamental_div_mod_converse(
            now,
            300,
            boundary / 300,
            now - boundary,
        );
    }
}

/// Two times have the same period start exactly where the period of one holds the other.
pub proof fn law_one_start_per_window(now: int, later: int)
    ensures
        window_floor(now, 5) == window_floor(later, 5) <==> window_floor(now, 5) <= later
            < window_floor(now, 5) + PERIOD_SECS,
{
    law_five_minute_boundaries(now);
    law_five_minute_boundaries(later);
    law_period_holds_now(later, window_floor(now, 5));
}

/// The seconds from `now` to the end of the period that began at `start`; zero once it is over.
pub open spec fn remaining(start: int, now: int) -> int {
    if start + PERIOD_SECS > now {
        start + PERIOD_SECS - now
    } else {
        0
    }
}

/// The seconds that are left at `now` of the period that began at `period_start_unix`.
pub fn seconds_remaining_at(period_start_unix: i64, now: i64) -> (r: i64)
    requires
        period_start_unix + PERIOD_SECS <= i64::MAX,
        i64::MIN <= period_start_unix + PERIOD_SECS - now <= i64::MAX,
    ensures
        r == remaining(period_start_unix as int, now as int),
{
    let end: i64 = period_start_unix + PERIOD_SECS;
    let left: i64 = end - now;
    if left > 0 {
        left
    } else {
        0
    }
}

/// The seconds that are left of the period that began at `period_start_unix`.
pub fn seconds_remaining_in_5m_period(period_start_unix: i64) -> (r: i64)
    requires
        i64::MIN + MAX_UNIX <= period_start_unix + PERIOD_SECS <= i64::MAX,
    ensures
        exists|now: int| #[trigger]
            clock::clock_reading(now) && r == remaining(period_start_unix as int, now),
        r >= 0,
{
    let now = clock::utc_now();
    assert(clock::clock_reading(now as int));
    seconds_remaining_at(period_start_unix, now)
}

/// A countdown such as `3m 22s`.
pub open spec fn countdown(secs: int) -> Seq<char> {
    text::decimal(secs / 60) + "m "@ + text::decimal(secs % 60) + "s"@
}

/// Renders a number of seconds as minutes and seconds.
pub fn fmt_countdown(secs: i64) -> (r: String)
    requires
        secs >= 0,
    ensures
        r@ == countdown(secs as int),
{
    let mut out = String::new();
    text::push_decimal_i64(&mut out, secs / 60);
    out.append("m ");
    text::push_decimal_i64(&mut out, secs % 60);
    out.append("s");
    assert(out@ =~= countdown(secs as int));
    out
}

/// The time that is left of the period that began at `period_start_unix`, as a countdown.
pub fn fmt_5m_period_remaining(period_start_unix: i64) -> (r: String)
    requires
        i64::MIN + MAX_UNIX <= period_start_unix + PERIOD_SECS <= i64::MAX,
    ensures
        exists|now: int| #[trigger]
            clock::clock_reading(now) && r@ == countdown(
                remaining(period_start_unix as int, now),
            ),
{
    let left = seconds_remaining_in_5m_period(period_start_unix);
    fmt_countdown(left)
}

// ---------------------------------------------------------------------------------------------
// Slugs.
// ---------------------------------------------------------------------------------------------

/// The slug of a market, from the lowercase symbol and the start of its period.
pub open spec fn slug_of(lowered: Seq<char>, period_start_unix: int) -> Seq<char> {
    lowered + "-updown-5m-"@ + text::decimal(period_start_unix)
}

/// The slug of a symbol's market in a period.
pub open spec fn slug_5m(symbol: Seq<char>, period_start_unix: int) -> Seq<char> {
    slug_of(text::lowercase(symbol), period_start_unix)
}

/// Renders the slug of a market from the lowercase symbol.
pub fn render_slug(lowered: &str, period_start_unix: i64) -> (r: String)
    ensures
        r@ == slug_of(lowered@, period_start_unix as int),
{
    let mut out = String::new();
    out.append(lowered);
    out.append("-updown-5m-");
    text::push_decimal_i64(&mut out, period_start_unix);
    assert(out@ =~= slug_of(lowered@, period_start_unix as int));
    out
}

/// The slug `{symbol}-updown-5m-{timestamp}` of a symbol's market, with the symbol in lowercase.
pub fn build_5m_slug(symbol: &str, period_start_unix: i64) -> (r: String)
    ensures
        r@ == slug_5m(symbol@, period_start_unix as int),
        text::ascii(symbol@) ==> r@ == slug_of(
            text::ascii_lowercase(symbol@),
            period_start_unix as int,
        ),
{
    let lowered = symbol.to_lowercase();
    render_slug(lowered.as_str(), period_start_unix)
}

// ---------------------------------------------------------------------------------------------
// Markets and their tokens.
// ---------------------------------------------------------------------------------------------

/// A token of a market: its id and the outcome that it pays on.
#[derive(Debug, Clone)]
pub struct MarketToken {
    pub token_id: String,
    pub outcome: String,
}

/// What the exchange says of the market of a slug.
#[derive(Debug, Clone)]
pub struct MarketSummary {
    pub active: bool,
    pub closed: bool,
    pub condition_id: String,
}

/// A market that lacks one of its two tokens.
#[derive(Debug, Clone, Copy, PartialEq, Eq, Structural)]
pub enum DiscoveryError {
    UpTokenNotFound,
    DownTokenNotFound,
}

impl DiscoveryError {
    pub open spec fn text(self) -> Seq<char> {
        match self {
            DiscoveryError::UpTokenNotFound => "Up token not found"@,
            DiscoveryError::DownTokenNotFound => "Down token not found"@,
        }
    }

    /// The error as a sentence.
    pub fn message(self) -> (r: &'static str)
        ensures
            r@ == self.text(),
    {
        match self {
            DiscoveryError::UpTokenNotFound => "Up token not found",
            DiscoveryError::DownTokenNotFound => "Down token not found",
        }
    }
}

/// The side that an outcome in uppercase stands for: `1` and what has `UP` in it is Up, of the
/// rest `0` and what has `DOWN` in it is Down.
pub open spec fn outcome_side(upper: Seq<char>) -> Option<TradeSide> {
    if text::contains_part(upper, "UP"@) || upper == "1"@ {
        Some(TradeSide::Up)
    } else if text::contains_part(upper, "DOWN"@) || upper == "0"@ {
        Some(TradeSide::Down)
    } else {
        None
    }
}

/// The side that an outcome in uppercase stands for.
pub fn side_of_outcome(upper: &str) -> (r: Option<TradeSide>)
    ensures
        r == outcome_side(upper@),
{
    if text::contains_text(upper, "UP") || text::same_text(upper, "1") {
        Some(TradeSide::Up)
    } else if text::contains_text(upper, "DOWN") || text::same_text(upper, "0") {
        Some(TradeSide::Down)
    } else {
        None
    }
}

/// The id of the last token of a side, where `uppers[i]` is the outcome of `tokens[i]` in
/// uppercase.
pub open spec fn last_token(
    tokens: Seq<MarketToken>,
    uppers: Seq<Seq<char>>,
    side: TradeSide,
) -> Option<Seq<char>>
    decreases tokens.len(),
{
    if tokens.len() == 0 {
        None
    } else if outcome_side(uppers.last()) == Some(side) {
        Some(tokens.last().token_id@)
    } else {
        last_token(tokens.drop_last(), uppers.drop_last(), side)
    }
}

/// `r` is the Up and the Down token; or which of them is missing, Up before Down.
pub open spec fn tokens_found(
    r: Result<(String, String), DiscoveryError>,
    tokens: Seq<MarketToken>,
    uppers: Seq<Seq<char>>,
) -> bool {
    let up = last_token(tokens, uppers, TradeSide::Up);
    let down = last_token(tokens, uppers, TradeSide::Down);
    match r {
        Ok((u, d)) => up == Some(u@) && down == Some(d@),
        Err(DiscoveryError::UpTokenNotFound) => up is None,
        Err(DiscoveryError::DownTokenNotFound) => up is Some && down is None,
    }
}

/// The outcomes of tokens in uppercase.
pub open spec fn upper_outcomes(tokens: Seq<MarketToken>) -> Seq<Seq<char>> {
    Seq::new(tokens.len(), |i: int| text::uppercase(tokens[i].outcome@))
}

/// The outcomes of tokens in uppercase, where they are ASCII.
pub open spec fn ascii_upper_outcomes(tokens: Seq<MarketToken>) -> Seq<Seq<char>> {
    Seq::new(tokens.len(), |i: int| text::ascii_uppercase(tokens[i].outcome@))
}

/// The Up and the Down token among the tokens of a market, of several the last, where `uppers`
/// holds their outcomes in uppercase.
pub fn pick_tokens(tokens: &Vec<MarketToken>, uppers: &Vec<String>) -> (r: Result<
    (String, String),
    DiscoveryError,
>)
    requires
        tokens@.len() == uppers@.len(),
    ensures
        tokens_found(r, tokens@, text::views(uppers@)),
{
    let ghost outcomes = text::views(uppers@);
    let mut up: Option<String> = None;
    let mut down: Option<String> = None;
    let mut i: usize = 0;
    while i < tokens.len()
        invariant
            0 <= i <= tokens@.len(),
            tokens@.len() == uppers@.len(),
            outcomes == text::views(uppers@),
            text::opt_view(up) == last_token(
                tokens@.take(i as int),
                outcomes.take(i as int),
                TradeSide::Up,
            ),
            text::opt_view(down) == last_token(
                tokens@.take(i as int),
                outcomes.take(i as int),
                TradeSide::Down,
            ),
        decreases tokens@.len() - i,
    {
        proof {
            assert(tokens@.take(i + 1).drop_last() =~= tokens@.take(i as int));
            assert(tokens@.take(i + 1).last() == tokens@[i as int]);
            assert(outcomes.take(i + 1).drop_last() =~= outcomes.take(i as int));
            assert(outcomes.take(i + 1).last() == uppers@[i as int]@);
        }
        match side_of_outcome(uppers[i].as_str()) {
            Some(TradeSide::Up) => {
                up = Some(tokens[i].token_id.clone());
            },
            Some(TradeSide::Down) => {
                down = Some(tokens[i].token_id.clone());
            },
            None => {},
        }
        i = i + 1;
    }
    assert(tokens@.take(i as int) =~= tokens@);
    assert(outcomes.take(i as int) =~= outcomes);
    match up {
        None => Err(DiscoveryError::UpTokenNotFound),
        Some(u) => match down {
            None => Err(DiscoveryError::DownTokenNotFound),
            Some(d) => Ok((u, d)),
        },
    }
}

/// A market has a token of a side exactly where one of its outcomes stands for that side.
pub proof fn law_sides_have_their_tokens(
    tokens: Seq<MarketToken>,
    uppers: Seq<Seq<char>>,
    side: TradeSide,
)
    requires
        tokens.len() == uppers.len(),
    ensures
        last_token(tokens, uppers, side) is Some <==> exists|i: int|
            0 <= i < tokens.len() && outcome_side(#[trigger] uppers[i]) == Some(side),
    decreases tokens.len(),
{
    if tokens.len() > 0 {
        let front = uppers.drop_last();
        law_sides_have_their_tokens(tokens.drop_last(), front, side);
        let last = uppers.len() - 1;
        assert(uppers.last() == uppers[last]);
        if outcome_side(uppers.last()) != Some(side) {
            if exists|i: int| 0 <= i < tokens.len() && outcome_side(#[trigger] uppers[i]) == Some(side) {
                let i = choose|i: int|
                    0 <= i < tokens.len() && outcome_side(#[trigger] uppers[i]) == Some(side);
                assert(front[i] == uppers[i]);
            }
            if exists|i: int| 0 <= i < front.len() && outcome_side(#[trigger] front[i]) == Some(side) {
                let i = choose|i: int|
                    0 <= i < front.len() && outcome_side(#[trigger] front[i]) == Some(side);
                assert(front[i] == uppers[i]);
            }
        }
    }
}

/// Finds markets through a client of the exchange.
#[derive(Debug, Clone)]
pub struct MarketDiscovery<A> {
    api: A,
}

impl<A> MarketDiscovery<A> {
    pub closed spec fn client(&self) -> A {
        self.api
    }

    pub fn new(api: A) -> (r: MarketDiscovery<A>)
        ensures
            r.client() == api,
    {
        MarketDiscovery { api }
    }

    /// The client that was handed over.
    pub fn api(&self) -> (r: &A)
        ensures
            *r == self.client(),
    {
        &self.api
    }

    /// The Up and the Down token among the tokens of a market; of several the last.
    pub fn get_market_tokens(&self, tokens: &Vec<MarketToken>) -> (r: Result<
        (String, String),
        DiscoveryError,
    >)
        ensures
            tokens_found(r, tokens@, upper_outcomes(tokens@)),
            (forall|i: int| 0 <= i < tokens@.len() ==> text::ascii(#[trigger] tokens@[i].outcome@))
                ==> tokens_found(r, tokens@, ascii_upper_outcomes(tokens@)),
    {
        let mut uppers: Vec<String> = Vec::new();
        let mut i: usize = 0;
        while i < tokens.len()
            invariant
                0 <= i <= tokens@.len(),
                uppers@.len() == i,
                forall|j: int|
                    0 <= j < i ==> (#[trigger] uppers@[j])@ == text::uppercase(tokens@[j].outcome@),
                forall|j: int|
                    0 <= j < i && text::ascii(tokens@[j].outcome@) ==> (#[trigger] uppers@[j])@
                        == text::ascii_uppercase(tokens@[j].outcome@),
            decreases tokens@.len() - i,
        {
            uppers.push(tokens[i].outcome.to_uppercase());
            i = i + 1;
        }
        proof {
            assert(text::views(uppers@) =~= upper_outcomes(tokens@));
            if forall|i: int| 0 <= i < tokens@.len() ==> text::ascii(#[trigger] tokens@[i].outcome@) {
                assert(text::views(uppers@) =~= ascii_upper_outcomes(tokens@));
            }
        }
        pick_tokens(tokens, &uppers)
    }

    /// The condition of the market that was found, if it can be traded: it is active and not
    /// closed. A failed lookup, `None`, is a market that cannot be traded.
    pub fn get_5m_market(&self, reply: Option<MarketSummary>) -> (r: Option<String>)
        ensures
            r == (match reply {
                Some(m) => if m.active && !m.closed {
                    Some(m.condition_id)
                } else {
                    None
                },
                None => None,
            }),
    {
        match reply {
            Some(m) => {
                if !m.active || m.closed {
                    None
                } else {
                    Some(m.condition_id)
                }
            },
            None => None,
        }
    }
}

// ---------------------------------------------------------------------------------------------
// What holds of windows, slugs and tokens.
// ---------------------------------------------------------------------------------------------

/// A window of any number of minutes begins on a full minute, that many minutes or a multiple of
/// them after the full hour, and no earlier than it has to: less than its length before each of
/// its times.
pub proof fn law_windows_count_from_the_full_hour(time: int, minutes: int)
    requires
        minutes > 0,
    ensures
        window_floor(time, minutes) <= time < window_floor(time, minutes) + 60 * minutes,
        window_floor(time, minutes) / 3600 == time / 3600,
        window_floor(time, minutes) % 60 == 0,
        ((window_floor(time, minutes) % 3600) / 60) % minutes == 0,
{
    let (hour, minute, second) = lemma_time_parts(time);
    let past = minute % minutes;
    vstd::arithmetic::div_mod::lemma_mod_bound(minute, minutes);
    vstd::arithmetic::div_mod::lemma_mod_decreases(minute as nat, minutes as nat);
    let first = minute - past;
    let floor = window_floor(time, minutes);
    assert(floor == 3600 * hour + 60 * first);
    assert(0 <= first < 60);
    vstd::arithmetic::div_mod::lemma_fundamental_div_mod_converse(floor, 3600, hour, 60 * first);
    vstd::arithmetic::div_mod::lemma_fundamental_div_mod_converse(
        floor,
        60,
        60 * hour + first,
        0,
    );
    vstd::arithmetic::div_mod::lemma_fundamental_div_mod_converse(60 * first, 60, first, 0);
    vstd::arithmetic::div_mod::lemma_fundamental_div_mod(minute, minutes);
    let q = minute / minutes;
    assert(first == minutes * q + 0);
    assert(minutes * q == q * minutes) by (nonlinear_arith);
    vstd::arithmetic::div_mod::lemma_fundamental_div_mod_converse(first, minutes, q, 0);
}

/// Of a wall time that is shown twice, the second time counts from then on and the first before.
pub proof fn law_latest_instant_counts(first: i64, second: i64, now: int)
    ensures
        second <= now ==> latest_instant(LocalInstants::Ambiguous(first, second), now) == Some(
            second,
        ),
        now < second ==> latest_instant(LocalInstants::Ambiguous(first, second), now) == Some(
            first,
        ),
        latest_instant(LocalInstants::Single(first), now) == Some(first),
        latest_instant(LocalInstants::Gap, now) is None,
{
}

/// What is left of a period is the time until five minutes after its start, and nothing from then
/// on.
pub proof fn law_time_left_of_a_period(start: int, now: int)
    ensures
        now < start + 300 ==> now + remaining(start, now) == start + 300,
        now >= start + 300 ==> remaining(start, now) == 0,
{
}

/// A countdown gives full minutes and the seconds beyond them.
pub proof fn law_countdown_reads_minutes_and_seconds(minutes: nat, seconds: nat)
    requires
        seconds < 60,
    ensures
        countdown((60 * minutes + seconds) as int) == text::decimal(minutes as int) + "m "@
            + text::decimal(seconds as int) + "s"@,
{
    vstd::arithmetic::div_mod::lemma_fundamental_div_mod_converse(
        (60 * minutes + seconds) as int,
        60,
        minutes as int,
        seconds as int,
    );
}

/// A slug is the symbol in lowercase, the name of the series and the start of the period.
pub proof fn law_slug_reads(symbol: Seq<char>, lowered: Seq<char>, period_start_unix: int)
    ensures
        slug_of(lowered, period_start_unix) == lowered + "-updown-5m-"@ + text::decimal(
            period_start_unix,
        ),
        slug_5m(symbol, period_start_unix) == text::lowercase(symbol) + "-updown-5m-"@
            + text::decimal(period_start_unix),
{
}

/// An outcome with the letters of Up in it, one behind the other, is Up, and so is a one. Of the
/// rest, one with the letters of Down in it is Down, and so is a zero. Nothing else has a side.
pub proof fn law_outcomes_have_sides(upper: Seq<char>, i: int)
    ensures
        0 <= i < upper.len() - 1 && upper[i] == 'U' && upper[i + 1] == 'P' ==> outcome_side(upper)
            == Some(TradeSide::Up),
        upper == seq!['1'] ==> outcome_side(upper) == Some(TradeSide::Up),
        upper == seq!['0'] ==> outcome_side(upper) == Some(TradeSide::Down),
        0 <= i < upper.len() - 3 && upper[i] == 'D' && upper[i + 1] == 'O' && upper[i + 2] == 'W'
            && upper[i + 3] == 'N' && (forall|k: int|
            0 <= k < upper.len() - 1 && #[trigger] upper[k] == 'U' ==> upper[k + 1] != 'P')
            ==> outcome_side(upper) == Some(TradeSide::Down),
        outcome_side(upper) == Some(TradeSide::Up) ==> upper == seq!['1'] || exists|k: int|
            0 <= k < upper.len() - 1 && #[trigger] upper[k] == 'U' && upper[k + 1] == 'P',
        outcome_side(upper) == Some(TradeSide::Down) ==> upper == seq!['0'] || exists|k: int|
            0 <= k < upper.len() - 3 && #[trigger] upper[k] == 'D' && upper[k + 1] == 'O'
                && upper[k + 2] == 'W' && upper[k + 3] == 'N',
{
    reveal_strlit("UP");
    reveal_strlit("DOWN");
    reveal_strlit("1");
    reveal_strlit("0");
    assert("1"@ =~= seq!['1']);
    assert("0"@ =~= seq!['0']);
    text::law_part_occurs(upper, "UP"@);
    text::law_part_occurs(upper, "DOWN"@);
    if 0 <= i < upper.len() - 1 && upper[i] == 'U' && upper[i + 1] == 'P' {
        assert(text::stands_at(upper, "UP"@, i));
    }
    if 0 <= i < upper.len() - 3 && upper[i] == 'D' && upper[i + 1] == 'O' && upper[i + 2] == 'W'
        && upper[i + 3] == 'N' {
        assert(text::stands_at(upper, "DOWN"@, i));
    }
    if text::contains_part(upper, "UP"@) {
        let k = choose|k: int| text::stands_at(upper, "UP"@, k);
        assert("UP"@[0] == upper[k + 0] && "UP"@[1] == upper[k + 1]);
        assert(upper[k] == 'U');
    }
    if text::contains_part(upper, "DOWN"@) {
        let k = choose|k: int| text::stands_at(upper, "DOWN"@, k);
        assert("DOWN"@[0] == upper[k + 0] && "DOWN"@[1] == upper[k + 1] && "DOWN"@[2] == upper[k
            + 2] && "DOWN"@[3] == upper[k + 3]);
        assert(upper[k] == 'D');
    }
    if upper == seq!['0'] {
        assert(!text::contains_part(upper, "UP"@)) by {
            if text::contains_part(upper, "UP"@) {
                let k = choose|k: int| text::stands_at(upper, "UP"@, k);
            }
        }
        assert(upper[0] == '0');
    }
}

/// Of the tokens of a side the last is taken.
pub proof fn law_last_token_of_a_side_is_taken(
    tokens: Seq<MarketToken>,
    uppers: Seq<Seq<char>>,
    side: TradeSide,
    i: int,
)
    requires
        tokens.len() == uppers.len(),
        0 <= i < tokens.len(),
        outcome_side(uppers[i]) == Some(side),
        forall|j: int| i < j < tokens.len() ==> outcome_side(#[trigger] uppers[j]) != Some(side),
    ensures
        last_token(tokens, uppers, side) == Some(tokens[i].token_id@),
    decreases tokens.len(),
{
    let last = tokens.len() - 1;
    assert(uppers[last] == uppers.last() && tokens[last] == tokens.last());
    if i < last {
        let t = tokens.drop_last();
        let u = uppers.drop_last();
        assert(t[i] == tokens[i] && u[i] == uppers[i]);
        assert forall|j: int| i < j < t.len() implies outcome_side(#[trigger] u[j]) != Some(side) by {
            assert(uppers[j] == u[j]);
        }
        law_last_token_of_a_side_is_taken(t, u, side, i);
    }
}

/// The tokens of a market are the one of the Up side and the one of the Down side, in this order.
/// Without the one of a side it is told which is missing, Up before Down.
pub proof fn law_tokens_are_found_by_side(
    r: Result<(String, String), DiscoveryError>,
    tokens: Seq<MarketToken>,
    uppers: Seq<Seq<char>>,
)
    requires
        tokens_found(r, tokens, uppers),
    ensures
        r is Ok <==> last_token(tokens, uppers, TradeSide::Up) is Some && last_token(
            tokens,
            uppers,
            TradeSide::Down,
        ) is Some,
        r is Ok ==> last_token(tokens, uppers, TradeSide::Up) == Some(r->Ok_0.0@) && last_token(
            tokens,
            uppers,
            TradeSide::Down,
        ) == Some(r->Ok_0.1@),
        last_token(tokens, uppers, TradeSide::Up) is None ==> r == Err::<
            (String, String),
            DiscoveryError,
        >(DiscoveryError::UpTokenNotFound),
        last_token(tokens, uppers, TradeSide::Up) is Some && last_token(
            tokens,
            uppers,
            TradeSide::Down,
        ) is None ==> r == Err::<(String, String), DiscoveryError>(
            DiscoveryError::DownTokenNotFound,
        ),
{
}

/// Each token is judged by its own outcome, in uppercase.
pub proof fn law_tokens_are_judged_by_their_outcomes(tokens: Seq<MarketToken>, i: int)
    requires
        0 <= i < tokens.len(),
    ensures
        upper_outcomes(tokens).len() == tokens.len(),
        upper_outcomes(tokens)[i] == text::uppercase(tokens[i].outcome@),
        ascii_upper_outcomes(tokens).len() == tokens.len(),
        ascii_upper_outcomes(tokens)[i] == text::ascii_uppercase(tokens[i].outcome@),
{
}

} // verus!
