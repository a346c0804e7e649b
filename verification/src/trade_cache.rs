//! The markets where an order was placed, which are kept in a file, and the markets where one is
//! being placed right now, which are not.

use crate::clock;
use crate::discovery;
use crate::discovery::PERIOD_SECS;
use crate::text;
use vstd::hash_set::StringHashSet;
use vstd::prelude::*;

verus! {

// ---------------------------------------------------------------------------------------------
// Slugs and their periods.
// ---------------------------------------------------------------------------------------------

/// The timestamp at the back of a slug.
pub open spec fn slug_timestamp(slug: Seq<char>) -> Option<i64> {
    text::parsed_i64(text::after_last(slug, '-'))
}

/// The end of the slug's period is an `i64`, where the slug names a period.
pub open spec fn period_end_fits(slug: Seq<char>) -> bool {
    slug_timestamp(slug) matches Some(ts) ==> ts + PERIOD_SECS <= i64::MAX
}

/// The slug names a period that ends after `now`.
pub open spec fn unexpired(slug: Seq<char>, now: int) -> bool {
    slug_timestamp(slug) matches Some(ts) && ts + PERIOD_SECS > now
}

/// The end of the period that a slug names; `None` where it names none.
pub fn slug_period_end(slug: &str) -> (r: Option<i64>)
    requires
        period_end_fits(slug@),
    ensures
        match r {
            Some(end) => slug_timestamp(slug@) matches Some(ts) && end == ts + PERIOD_SECS,
            None => slug_timestamp(slug@) is None,
        },
{
    let tail = text::tail_after(slug, '-');
    match text::parse_i64(tail.as_str()) {
        Some(ts) => Some(ts + PERIOD_SECS),
        None => None,
    }
}

/// Whether the ends of all the periods that the slugs name are `i64`s.
pub fn period_ends_fit(slugs: &Vec<String>) -> (r: bool)
    ensures
        r == (forall|i: int| 0 <= i < slugs@.len() ==> period_end_fits(#[trigger] slugs@[i]@)),
{
    let mut i: usize = 0;
    while i < slugs.len()
        invariant
            0 <= i <= slugs@.len(),
            forall|j: int| 0 <= j < i ==> period_end_fits(#[trigger] slugs@[j]@),
        decreases slugs@.len() - i,
    {
        let tail = text::tail_after(slugs[i].as_str(), '-');
        match text::parse_i64(tail.as_str()) {
            Some(ts) => {
                if ts > i64::MAX - PERIOD_SECS {
                    assert(!period_end_fits(slugs@[i as int]@));
                    return false;
                }
            },
            None => {},
        }
        i = i + 1;
    }
    true
}

/// The slug of a market names the market's period: its end can be read off the slug.
pub proof fn law_slug_names_its_period(lowered: Seq<char>, period_start: i64)
    requires
        period_start >= 0,
    ensures
        slug_timestamp(discovery::slug_of(lowered, period_start as int)) == Some(period_start),
        period_start + PERIOD_SECS <= i64::MAX ==> period_end_fits(
            discovery::slug_of(lowered, period_start as int),
        ),
        forall|now: int|
            #![auto]
            unexpired(discovery::slug_of(lowered, period_start as int), now) <==> now < period_start
                + PERIOD_SECS,
{
    lemma_slug_parts(lowered, period_start);
    text::law_decimal_round_trip(period_start);
}

/// The digits of the start of a period.
spec fn start_digits(period_start: int) -> Seq<char> {
    text::decimal_nat(
        (if period_start < 0 {
            -period_start
        } else {
            period_start
        }) as nat,
    )
}

/// Behind the last dash of a slug stand the digits of the start of its period.
proof fn lemma_slug_parts(lowered: Seq<char>, period_start: i64)
    ensures
        text::after_last(discovery::slug_of(lowered, period_start as int), '-') == start_digits(
            period_start as int,
        ),
{
    reveal_strlit("-updown-5m-");
    let digits = start_digits(period_start as int);
    let front = if period_start < 0 {
        lowered + "-updown-5m-"@
    } else {
        lowered + "-updown-5m-"@.drop_last()
    };
    assert("-updown-5m-"@.last() == '-');
    assert(discovery::slug_of(lowered, period_start as int) =~= front.push('-') + digits);
    text::lemma_decimal_nat_value(
        (if period_start < 0 {
            -period_start
        } else {
            period_start as int
        }) as nat,
    );
    assert forall|i: int| 0 <= i < digits.len() implies #[trigger] digits[i] != '-' by {
        assert(text::is_digit(digits[i]));
    }
    text::lemma_after_last_of_tail(front, '-', digits);
}

/// Markets of different symbols or different periods have different slugs.
pub proof fn law_slug_identifies_market(a: Seq<char>, p: i64, b: Seq<char>, q: i64)
    requires
        discovery::slug_of(a, p as int) == discovery::slug_of(b, q as int),
    ensures
        a == b,
        p == q,
{
    reveal_strlit("-updown-5m-");
    let s = discovery::slug_of(a, p as int);
    let t = discovery::slug_of(b, q as int);
    lemma_slug_parts(a, p);
    lemma_slug_parts(b, q);
    let digits = start_digits(p as int);
    assert(digits == start_digits(q as int));
    text::lemma_decimal_nat_value((if p < 0 { -p } else { p as int }) as nat);
    text::lemma_decimal_nat_value((if q < 0 { -q } else { q as int }) as nat);
    let k = s.len() - digits.len() - 2;
    assert((p < 0) ==> s[k] == '-') by {
        if p < 0 {
            assert(s[k] == "-updown-5m-"@[10]);
        }
    }
    assert((p >= 0) ==> s[k] == 'm') by {
        if p >= 0 {
            assert(s[k] == "-updown-5m-"@[9]);
        }
    }
    assert((q < 0) ==> t[k] == '-') by {
        if q < 0 {
            assert(t[k] == "-updown-5m-"@[10]);
        }
    }
    assert((q >= 0) ==> t[k] == 'm') by {
        if q >= 0 {
            assert(t[k] == "-updown-5m-"@[9]);
        }
    }
    assert(p == q);
    assert(a.len() == b.len());
    assert(s.take(a.len() as int) =~= a);
    assert(t.take(b.len() as int) =~= b);
}

// ---------------------------------------------------------------------------------------------
// The file.
// ---------------------------------------------------------------------------------------------

/// The slugs that the lines of a file hold: each line without the white space at its ends, empty
/// lines left out.
pub open spec fn slug_lines(content: Seq<char>) -> Seq<Seq<char>> {
    trimmed_lines(text::pieces(content, '\n'))
}

pub open spec fn trimmed_lines(lines: Seq<Seq<char>>) -> Seq<Seq<char>>
    decreases lines.len(),
{
    if lines.len() == 0 {
        Seq::empty()
    } else {
        let front = trimmed_lines(lines.drop_last());
        let line = text::trimmed(lines.last());
        if line.len() == 0 {
            front
        } else {
            front.push(line)
        }
    }
}

/// The slugs whose periods have not ended, in their order.
pub open spec fn live_slugs(slugs: Seq<Seq<char>>, now: int) -> Seq<Seq<char>> {
    slugs.filter(|s: Seq<char>| unexpired(s, now))
}

/// The markets that a file holds as attempted at `now`.
pub open spec fn recorded(content: Seq<char>, now: int) -> Set<Seq<char>> {
    live_slugs(slug_lines(content), now).to_set()
}

/// The ends of the periods that the lines name are `i64`s.
pub open spec fn content_fits(content: Seq<char>) -> bool {
    forall|i: int|
        0 <= i < slug_lines(content).len() ==> period_end_fits(#[trigger] slug_lines(content)[i])
}

/// Reads the slugs from the content of the file.
pub fn load_traded_slugs(content: &str) -> (r: Vec<String>)
    ensures
        text::views(r@) == slug_lines(content@),
{
    let lines = text::split_pieces(content, '\n');
    let mut out: Vec<String> = Vec::new();
    let mut i: usize = 0;
    assert(text::views(lines@).take(0) =~= Seq::<Seq<char>>::empty());
    assert(text::views(out@) =~= Seq::<Seq<char>>::empty());
    while i < lines.len()
        invariant
            0 <= i <= lines@.len(),
            text::views(out@) == trimmed_lines(text::views(lines@).take(i as int)),
        decreases lines@.len() - i,
    {
        let ghost all = text::views(lines@);
        let ghost before = text::views(out@);
        proof {
            assert(all.take(i + 1).drop_last() =~= all.take(i as int));
            assert(all.take(i + 1).last() == lines@[i as int]@);
        }
        let line = text::trim(lines[i].as_str());
        let ghost l = line@;
        if !line.as_str().is_empty() {
            out.push(line);
            assert(text::views(out@) =~= before.push(l));
        }
        i = i + 1;
    }
    assert(text::views(lines@).take(i as int) =~= text::views(lines@));
    out
}

/// Drops the slugs whose periods have ended at `now`.
pub fn prune_expired_at(slugs: Vec<String>, now: i64) -> (r: Vec<String>)
    requires
        forall|i: int| 0 <= i < slugs@.len() ==> period_end_fits(#[trigger] slugs@[i]@),
    ensures
        text::views(r@) == live_slugs(text::views(slugs@), now as int),
{
    let mut out: Vec<String> = Vec::new();
    let mut i: usize = 0;
    let ghost all = text::views(slugs@);
    let ghost keep = |s: Seq<char>| unexpired(s, now as int);
    assert(all.take(0) =~= Seq::<Seq<char>>::empty());
    assert(text::views(out@) =~= Seq::<Seq<char>>::empty());
    proof {
        reveal(Seq::filter);
    }
    while i < slugs.len()
        invariant
            forall|i: int| 0 <= i < slugs@.len() ==> period_end_fits(#[trigger] slugs@[i]@),
            0 <= i <= slugs@.len(),
            all == text::views(slugs@),
            keep == (|s: Seq<char>| unexpired(s, now as int)),
            text::views(out@) == all.take(i as int).filter(keep),
        decreases slugs@.len() - i,
    {
        let ghost before = text::views(out@);
        proof {
            reveal(Seq::filter);
            assert(all.take(i + 1).drop_last() =~= all.take(i as int));
            assert(all.take(i + 1).last() == slugs@[i as int]@);
        }
        let live = match slug_period_end(slugs[i].as_str()) {
            Some(end) => end > now,
            None => false,
        };
        if live {
            out.push(slugs[i].clone());
            assert(text::views(out@) =~= before.push(slugs@[i as int]@));
        }
        i = i + 1;
    }
    assert(all.take(i as int) =~= all);
    out
}

/// Drops the slugs whose periods have ended.
pub fn prune_expired_slugs(slugs: Vec<String>) -> (r: Vec<String>)
    requires
        forall|i: int| 0 <= i < slugs@.len() ==> period_end_fits(#[trigger] slugs@[i]@),
    ensures
        exists|now: int| #[trigger]
            clock::clock_reading(now) && text::views(r@) == live_slugs(text::views(slugs@), now),
{
    let now = clock::utc_now();
    assert(clock::clock_reading(now as int));
    prune_expired_at(slugs, now)
}

/// The line that records a slug in the file.
pub open spec fn record_line(slug: Seq<char>) -> Seq<char> {
    slug.push('\n')
}

/// The line that records a slug in the file.
pub fn slug_record(slug: &str) -> (r: String)
    ensures
        r@ == record_line(slug@),
{
    let mut out = slug.to_owned();
    out.push('\n');
    out
}

/// The file after the slugs were recorded in turn.
pub open spec fn recorded_file(slugs: Seq<Seq<char>>) -> Seq<char>
    decreases slugs.len(),
{
    if slugs.len() == 0 {
        Seq::empty()
    } else {
        recorded_file(slugs.drop_last()) + record_line(slugs.last())
    }
}

/// A slug that fills a line: no line break in it and no white space at its ends.
pub open spec fn fills_line(slug: Seq<char>) -> bool {
    &&& slug.len() > 0
    &&& !text::white_space(slug[0])
    &&& !text::white_space(slug.last())
    &&& forall|i: int| 0 <= i < slug.len() ==> #[trigger] slug[i] != '\n'
}

/// The slug of a market fills a line, where no line break is in the symbol and no white space at
/// its front.
pub proof fn law_market_slug_fills_line(lowered: Seq<char>, period_start: int)
    requires
        lowered.len() > 0 ==> !text::white_space(lowered[0]),
        forall|i: int| 0 <= i < lowered.len() ==> #[trigger] lowered[i] != '\n',
    ensures
        fills_line(discovery::slug_of(lowered, period_start)),
{
    reveal_strlit("-updown-5m-");
    let slug = discovery::slug_of(lowered, period_start);
    let head = lowered + "-updown-5m-"@;
    let number = text::decimal(period_start);
    let digits = start_digits(period_start);
    text::lemma_decimal_nat_value(
        (if period_start < 0 {
            -period_start
        } else {
            period_start
        }) as nat,
    );
    assert(number.last() == digits.last());
    assert(text::is_digit(digits[digits.len() - 1]));
    assert(slug.last() == number.last());
    assert(slug[0] == head[0]);
    assert forall|i: int| 0 <= i < slug.len() implies #[trigger] slug[i] != '\n' by {
        if i < lowered.len() {
            assert(slug[i] == lowered[i]);
        } else if i < head.len() {
            assert(slug[i] == "-updown-5m-"@[i - lowered.len()]);
        } else {
            let j = i - head.len();
            assert(slug[i] == number[j]);
            if period_start >= 0 {
                assert(text::is_digit(digits[j]));
            } else if j > 0 {
                assert(number[j] == digits[j - 1]);
                assert(text::is_digit(digits[j - 1]));
            }
        }
    }
}

/// Text without the separator goes to the last piece.
proof fn lemma_pieces_extend(a: Seq<char>, b: Seq<char>, sep: char)
    requires
        forall|i: int| 0 <= i < b.len() ==> #[trigger] b[i] != sep,
    ensures
        pieces_grown(text::pieces(a, sep), b) == text::pieces(a + b, sep),
    decreases b.len(),
{
    text::lemma_pieces_not_empty(a, sep);
    let front = text::pieces(a, sep);
    if b.len() == 0 {
        assert(a + b =~= a);
        assert(front.last() + b =~= front.last());
        assert(pieces_grown(front, b) =~= front);
    } else {
        lemma_pieces_extend(a, b.drop_last(), sep);
        assert((a + b).drop_last() =~= a + b.drop_last());
        assert((a + b).last() == b.last());
        let grown = pieces_grown(front, b.drop_last());
        assert(grown.drop_last() =~= front.drop_last());
        assert((front.last() + b.drop_last()).push(b.last()) =~= front.last() + b);
    }
}

spec fn pieces_grown(front: Seq<Seq<char>>, b: Seq<char>) -> Seq<Seq<char>> {
    front.drop_last().push(front.last() + b)
}

/// The pieces of a file of records are the records, and an empty piece behind the last line break.
proof fn lemma_file_pieces(slugs: Seq<Seq<char>>)
    requires
        forall|i: int| 0 <= i < slugs.len() ==> fills_line(#[trigger] slugs[i]),
    ensures
        text::pieces(recorded_file(slugs), '\n') == slugs.push(Seq::empty()),
    decreases slugs.len(),
{
    if slugs.len() == 0 {
        assert(text::pieces(recorded_file(slugs), '\n') =~= slugs.push(Seq::empty()));
    } else {
        let earlier = slugs.drop_last();
        let slug = slugs.last();
        lemma_file_pieces(earlier);
        assert(fills_line(slug));
        let file = recorded_file(earlier);
        lemma_pieces_extend(file, slug, '\n');
        assert(recorded_file(slugs) =~= (file + slug).push('\n'));
        assert((file + slug).push('\n').drop_last() =~= file + slug);
        assert(earlier.push(Seq::<char>::empty()).drop_last() =~= earlier);
        assert(Seq::<char>::empty() + slug =~= slug);
        assert(earlier.push(slug) =~= slugs);
    }
}

/// Lines that need no trimming are read as they are.
proof fn lemma_trimmed_lines_fixed(lines: Seq<Seq<char>>)
    requires
        forall|i: int| 0 <= i < lines.len() ==> fills_line(#[trigger] lines[i]),
    ensures
        trimmed_lines(lines) == lines,
    decreases lines.len(),
{
    if lines.len() > 0 {
        lemma_trimmed_lines_fixed(lines.drop_last());
        assert(fills_line(lines.last()));
        text::lemma_trimmed_is_fixed(lines.last());
        assert(trimmed_lines(lines) =~= lines);
    } else {
        assert(trimmed_lines(lines) =~= lines);
    }
}

/// Reading the file back gives the slugs that were recorded, in their order; and a cache made
/// from it holds those of them whose periods have not ended.
pub proof fn law_reload_gives_back_records(slugs: Seq<Seq<char>>, now: int)
    requires
        forall|i: int| 0 <= i < slugs.len() ==> fills_line(#[trigger] slugs[i]),
    ensures
        slug_lines(recorded_file(slugs)) == slugs,
        recorded(recorded_file(slugs), now) == live_slugs(slugs, now).to_set(),
        forall|slug: Seq<char>|
            recorded(recorded_file(slugs), now).contains(slug) <==> slugs.contains(slug)
                && unexpired(slug, now),
{
    lemma_file_pieces(slugs);
    let lines = slugs.push(Seq::<char>::empty());
    assert(lines.drop_last() =~= slugs);
    lemma_trimmed_lines_fixed(slugs);
    assert(text::trimmed(Seq::<char>::empty()).len() == 0);
    lemma_live_slugs(slugs, now);
}

/// What is live is what was recorded and has not expired.
proof fn lemma_live_slugs(slugs: Seq<Seq<char>>, now: int)
    ensures
        forall|slug: Seq<char>|
            live_slugs(slugs, now).contains(slug) <==> slugs.contains(slug) && unexpired(slug, now),
    decreases slugs.len(),
{
    reveal(Seq::filter);
    if slugs.len() > 0 {
        let front = slugs.drop_last();
        let last = slugs.last();
        lemma_live_slugs(front, now);
        assert(front.push(last) =~= slugs);
        lemma_push_to_set(front, last);
        lemma_push_to_set(live_slugs(front, now), last);
        assert forall|slug: Seq<char>|
            live_slugs(slugs, now).contains(slug) <==> slugs.contains(slug) && unexpired(
                slug,
                now,
            ) by {
            assert(slugs.to_set().contains(slug) <==> front.to_set().contains(slug) || slug == last);
            if unexpired(last, now) {
                assert(live_slugs(slugs, now) =~= live_slugs(front, now).push(last));
                assert(live_slugs(slugs, now).to_set().contains(slug) <==> live_slugs(
                    front,
                    now,
                ).to_set().contains(slug) || slug == last);
            }
        }
    }
}

// ---------------------------------------------------------------------------------------------
// The cache.
// ---------------------------------------------------------------------------------------------

/// The model of the cache.
pub struct CacheView {
    /// The markets where an order was placed, filled or not.
    pub attempted: Set<Seq<char>>,
    /// The markets where an order is being placed right now.
    pub pending: Set<Seq<char>>,
}

/// What happens to the cache.
pub enum CacheOp {
    MarkPending(Seq<char>),
    ReleasePending(Seq<char>),
    MarkAttempted(Seq<char>),
}

impl CacheView {
    /// No further order goes to the market.
    pub open spec fn blocked(self, slug: Seq<char>) -> bool {
        self.attempted.contains(slug) || self.pending.contains(slug)
    }

    pub open spec fn after(self, op: CacheOp) -> CacheView {
        match op {
            CacheOp::MarkPending(slug) => CacheView { pending: self.pending.insert(slug), ..self },
            CacheOp::ReleasePending(slug) => CacheView { pending: self.pending.remove(slug), ..self },
            CacheOp::MarkAttempted(slug) => CacheView {
                attempted: self.attempted.insert(slug),
                pending: self.pending.remove(slug),
            },
        }
    }

    pub open spec fn after_all(self, ops: Seq<CacheOp>) -> CacheView
        decreases ops.len(),
    {
        if ops.len() == 0 {
            self
        } else {
            self.after_all(ops.drop_last()).after(ops.last())
        }
    }
}

/// A market where an order was placed takes no further order, whatever happens later.
pub proof fn law_attempted_stays_blocked(cache: CacheView, ops: Seq<CacheOp>, slug: Seq<char>)
    requires
        cache.attempted.contains(slug),
    ensures
        cache.after_all(ops).attempted.contains(slug),
        cache.after_all(ops).blocked(slug),
    decreases ops.len(),
{
    if ops.len() > 0 {
        law_attempted_stays_blocked(cache, ops.drop_last(), slug);
    }
}

/// A blocked market takes no order until it is released, whatever happens until then.
pub proof fn law_blocked_until_released(cache: CacheView, ops: Seq<CacheOp>, slug: Seq<char>)
    requires
        cache.blocked(slug),
        forall|i: int| 0 <= i < ops.len() ==> #[trigger] ops[i] != CacheOp::ReleasePending(slug),
    ensures
        cache.after_all(ops).blocked(slug),
    decreases ops.len(),
{
    if ops.len() > 0 {
        let front = ops.drop_last();
        assert forall|i: int| 0 <= i < front.len() implies #[trigger] front[i]
            != CacheOp::ReleasePending(slug) by {
            assert(front[i] == ops[i]);
        }
        law_blocked_until_released(cache, front, slug);
        assert(ops[ops.len() - 1] != CacheOp::ReleasePending(slug));
    }
}

/// Marking a market blocks it. Releasing it opens it exactly where no order was placed, and undoes
/// the mark of a market that was not marked before.
pub proof fn law_release_undoes_pending(cache: CacheView, slug: Seq<char>)
    ensures
        cache.after(CacheOp::MarkPending(slug)).blocked(slug),
        cache.after(CacheOp::MarkAttempted(slug)).blocked(slug),
        cache.after(CacheOp::ReleasePending(slug)).blocked(slug) <==> cache.attempted.contains(
            slug,
        ),
        !cache.pending.contains(slug) ==> cache.after(CacheOp::MarkPending(slug)).after(
            CacheOp::ReleasePending(slug),
        ) == cache,
{
    if !cache.pending.contains(slug) {
        let back = cache.after(CacheOp::MarkPending(slug)).after(CacheOp::ReleasePending(slug));
        assert(back.pending =~= cache.pending);
    }
}

/// What happens to one market leaves every other market open or blocked as it was.
pub proof fn law_markets_are_independent(cache: CacheView, slug: Seq<char>, other: Seq<char>)
    requires
        slug != other,
    ensures
        cache.after(CacheOp::MarkPending(slug)).blocked(other) == cache.blocked(other),
        cache.after(CacheOp::ReleasePending(slug)).blocked(other) == cache.blocked(other),
        cache.after(CacheOp::MarkAttempted(slug)).blocked(other) == cache.blocked(other),
{
}

/// The markets where an order was placed, and those where one is being placed.
pub struct TradedMarketsCache {
    attempted: StringHashSet,
    pending: StringHashSet,
}

impl View for TradedMarketsCache {
    type V = CacheView;

    closed spec fn view(&self) -> CacheView {
        CacheView { attempted: self.attempted@, pending: self.pending@ }
    }
}

impl TradedMarketsCache {
    /// The cache that the content of the file makes at `now`.
    pub fn new_at(content: &str, now: i64) -> (r: TradedMarketsCache)
        requires
            content_fits(content@),
        ensures
            r@.attempted == recorded(content@, now as int),
            r@.pending == Set::<Seq<char>>::empty(),
    {
        let loaded = load_traded_slugs(content);
        proof {
            assert forall|i: int| 0 <= i < loaded@.len() implies period_end_fits(
                #[trigger] loaded@[i]@,
            ) by {
                assert(text::views(loaded@)[i] == loaded@[i]@);
            }
        }
        let slugs = prune_expired_at(loaded, now);
        let ghost all = text::views(slugs@);
        let mut attempted = StringHashSet::new();
        let mut i: usize = 0;
        assert(all.take(0) =~= Seq::<Seq<char>>::empty());
        assert(all.take(0).to_set() =~= Set::<Seq<char>>::empty());
        while i < slugs.len()
            invariant
                0 <= i <= slugs@.len(),
                all == text::views(slugs@),
                attempted@ == all.take(i as int).to_set(),
            decreases slugs@.len() - i,
        {
            proof {
                let front = all.take(i as int);
                assert(all.take(i + 1) =~= front.push(all[i as int]));
                assert(front.push(all[i as int]).to_set() =~= front.to_set().insert(
                    all[i as int],
                )) by {
                    lemma_push_to_set(front, all[i as int]);
                }
            }
            attempted.insert(slugs[i].clone());
            i = i + 1;
        }
        assert(all.take(i as int) =~= all);
        TradedMarketsCache { attempted, pending: StringHashSet::new() }
    }

    /// The cache that the content of the file makes now.
    pub fn new(content: &str) -> (r: TradedMarketsCache)
        requires
            content_fits(content@),
        ensures
            exists|now: int| #[trigger]
                clock::clock_reading(now) && r@.attempted == recorded(content@, now),
            r@.pending == Set::<Seq<char>>::empty(),
    {
        let now = clock::utc_now();
        assert(clock::clock_reading(now as int));
        Self::new_at(content, now)
    }

    /// Whether the market takes no further order.
    pub fn is_blocked(&self, slug: &str) -> (r: bool)
        ensures
            r == self@.blocked(slug@),
    {
        self.attempted.contains(slug) || self.pending.contains(slug)
    }

    /// An order to the market is being placed.
    pub fn mark_pending(&mut self, slug: &str)
        ensures
            final(self)@ == old(self)@.after(CacheOp::MarkPending(slug@)),
    {
        self.pending.insert(slug.to_owned());
    }

    /// No order to the market is being placed any more.
    pub fn release_pending(&mut self, slug: &str)
        ensures
            final(self)@ == old(self)@.after(CacheOp::ReleasePending(slug@)),
    {
        self.pending.remove(slug);
    }

    /// An order to the market was placed. `true` where the market has to be recorded in the file:
    /// it was not attempted before.
    pub fn mark_attempted(&mut self, slug: &str) -> (r: bool)
        ensures
            final(self)@ == old(self)@.after(CacheOp::MarkAttempted(slug@)),
            r == !old(self)@.attempted.contains(slug@),
    {
        self.pending.remove(slug);
        self.attempted.insert(slug.to_owned())
    }
}

/// A sequence with one more element has one more member.
proof fn lemma_push_to_set(s: Seq<Seq<char>>, x: Seq<char>)
    ensures
        s.push(x).to_set() == s.to_set().insert(x),
{
    assert forall|y: Seq<char>| s.push(x).to_set().contains(y) <==> s.to_set().insert(x).contains(
        y,
    ) by {
        if s.contains(y) {
            let i = choose|i: int| 0 <= i < s.len() && s[i] == y;
            assert(s.push(x)[i] == y);
        }
        if y == x {
            assert(s.push(x)[s.len() as int] == y);
        }
    }
    assert(s.push(x).to_set() =~= s.to_set().insert(x));
}

// ---------------------------------------------------------------------------------------------
// What holds of slugs, lines and marks.
// ---------------------------------------------------------------------------------------------

/// The timestamp of a slug is the number behind its last dash; a slug without one names no period.
pub proof fn law_timestamp_is_behind_the_last_dash(front: Seq<char>, tail: Seq<char>)
    requires
        forall|i: int| 0 <= i < tail.len() ==> #[trigger] tail[i] != '-',
    ensures
        slug_timestamp(front + seq!['-'] + tail) == text::parsed_i64(tail),
        slug_timestamp(tail) == text::parsed_i64(tail),
{
    assert(front + seq!['-'] + tail =~= front.push('-') + tail);
    text::lemma_after_last_of_tail(front, '-', tail);
    text::law_tail_follows_the_last(tail, '-');
    let t = text::after_last(tail, '-');
    assert(t.len() == tail.len()) by {
        if t.len() < tail.len() {
            assert(tail[tail.len() - t.len() - 1] == '-');
        }
    }
    assert(tail.skip(0) =~= tail);
}

/// A slug is live until five minutes after its timestamp, and never again after that; one without
/// a timestamp is never live.
pub proof fn law_slugs_expire_after_five_minutes(slug: Seq<char>, now: int, later: int)
    ensures
        slug_timestamp(slug) is None ==> !unexpired(slug, now),
        slug_timestamp(slug) is Some && now < slug_timestamp(slug)->0 + 300 ==> unexpired(slug, now),
        slug_timestamp(slug) is Some && now >= slug_timestamp(slug)->0 + 300 ==> !unexpired(
            slug,
            now,
        ),
        now <= later && unexpired(slug, later) ==> unexpired(slug, now),
{
}

/// The end of a slug's period can be told exactly where five minutes after its timestamp is an
/// `i64`.
pub proof fn law_ends_that_fit(slug: Seq<char>)
    ensures
        slug_timestamp(slug) is None ==> period_end_fits(slug),
        slug_timestamp(slug) is Some ==> (period_end_fits(slug) <==> slug_timestamp(slug)->0
            <= i64::MAX - 300),
{
}

/// Each line of a file gives a slug, without the white space at its ends, unless nothing else is
/// in it.
pub proof fn law_lines_give_slugs(lines: Seq<Seq<char>>, line: Seq<char>)
    ensures
        trimmed_lines(Seq::<Seq<char>>::empty()) == Seq::<Seq<char>>::empty(),
        text::trimmed(line).len() == 0 ==> trimmed_lines(lines.push(line)) == trimmed_lines(lines),
        text::trimmed(line).len() > 0 ==> trimmed_lines(lines.push(line)) == trimmed_lines(
            lines,
        ).push(text::trimmed(line)),
{
    assert(lines.push(line).drop_last() =~= lines);
}

/// The slugs of a file are those of the lines between its line breaks.
pub proof fn law_file_is_read_by_lines(lines: Seq<Seq<char>>, content: Seq<char>)
    requires
        lines == text::pieces(content, '\n'),
    ensures
        slug_lines(content) == trimmed_lines(lines),
        text::joined(lines, seq!['\n']) == content,
{
    text::law_pieces_make_the_text(content, '\n');
}

/// A cache made from a file has the markets of its lines whose periods have not ended, and no
/// others.
pub proof fn law_cache_has_the_live_lines(content: Seq<char>, now: int, slug: Seq<char>)
    ensures
        recorded(content, now).contains(slug) <==> (exists|i: int|
            0 <= i < slug_lines(content).len() && #[trigger] slug_lines(content)[i] == slug)
            && unexpired(slug, now),
{
    lemma_live_slugs(slug_lines(content), now);
    let lines = slug_lines(content);
    if lines.contains(slug) {
        let i = choose|i: int| 0 <= i < lines.len() && lines[i] == slug;
        assert(lines[i] == slug);
    }
}

/// Pruning keeps a slug in its place behind those before it while its period lasts, and drops it
/// otherwise.
pub proof fn law_pruning_keeps_live_slugs(slugs: Seq<Seq<char>>, slug: Seq<char>, now: int)
    ensures
        live_slugs(Seq::<Seq<char>>::empty(), now) == Seq::<Seq<char>>::empty(),
        unexpired(slug, now) ==> live_slugs(slugs.push(slug), now) == live_slugs(slugs, now).push(
            slug,
        ),
        !unexpired(slug, now) ==> live_slugs(slugs.push(slug), now) == live_slugs(slugs, now),
{
    reveal(Seq::filter);
    assert(slugs.push(slug).drop_last() =~= slugs);
    assert(live_slugs(Seq::<Seq<char>>::empty(), now) =~= Seq::<Seq<char>>::empty());
}

/// A record is its slug and a line break.
pub proof fn law_record_is_a_line(slug: Seq<char>)
    ensures
        record_line(slug).len() == slug.len() + 1,
        record_line(slug).drop_last() == slug,
        record_line(slug).last() == '\n',
{
    assert(record_line(slug).drop_last() =~= slug);
}

/// Marking a market as pending adds it to the pending ones, releasing it takes it from them, and
/// marking it as attempted moves it to the attempted ones. No other market is touched, and no
/// market is ever taken from the attempted ones.
pub proof fn law_marks_of_a_market(cache: CacheView, slug: Seq<char>, x: Seq<char>)
    ensures
        cache.after(CacheOp::MarkPending(slug)).pending.contains(x) <==> cache.pending.contains(x)
            || x == slug,
        cache.after(CacheOp::MarkPending(slug)).attempted.contains(x) <==> cache.attempted.contains(
            x,
        ),
        cache.after(CacheOp::ReleasePending(slug)).pending.contains(x) <==> cache.pending.contains(
            x,
        ) && x != slug,
        cache.after(CacheOp::ReleasePending(slug)).attempted.contains(x)
            <==> cache.attempted.contains(x),
        cache.after(CacheOp::MarkAttempted(slug)).pending.contains(x) <==> cache.pending.contains(x)
            && x != slug,
        cache.after(CacheOp::MarkAttempted(slug)).attempted.contains(x)
            <==> cache.attempted.contains(x) || x == slug,
        cache.blocked(x) <==> cache.attempted.contains(x) || cache.pending.contains(x),
{
}

/// A file can be read exactly where the end of the period of each of its slugs can be told.
pub proof fn law_files_that_fit(content: Seq<char>)
    ensures
        content_fits(content) <==> forall|i: int|
            0 <= i < slug_lines(content).len() ==> (slug_timestamp(
                #[trigger] slug_lines(content)[i],
            ) is Some ==> slug_timestamp(slug_lines(content)[i])->0 <= i64::MAX - 300),
{
    if content_fits(content) {
        assert forall|i: int| 0 <= i < slug_lines(content).len() implies (slug_timestamp(
            #[trigger] slug_lines(content)[i],
        ) is Some ==> slug_timestamp(slug_lines(content)[i])->0 <= i64::MAX - 300) by {
            assert(period_end_fits(slug_lines(content)[i]));
        }
    }
}

} // verus!
