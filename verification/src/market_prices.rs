//! Live best-ask prices of the tokens of the current 5m Up/Down markets.

use crate::binary64::Binary64;
use crate::discovery;
use crate::json;
use crate::json::JsonField;
use crate::reconnect;
use crate::reconnect::Reconnect;
use crate::text;
use crate::text_map::TextMap;
use vstd::hash_map::StringHashMap;
use vstd::prelude::*;

verus! {

// ---------------------------------------------------------------------------------------------
// Ask prices.
// ---------------------------------------------------------------------------------------------

/// The best ask of each token.
pub struct AskPriceStore {
    asks: StringHashMap<Binary64>,
}

impl View for AskPriceStore {
    type V = Map<Seq<char>, Binary64>;

    closed spec fn view(&self) -> Map<Seq<char>, Binary64> {
        self.asks@
    }
}

impl Default for AskPriceStore {
    fn default() -> (r: AskPriceStore)
        ensures
            r@ == Map::<Seq<char>, Binary64>::empty(),
    {
        AskPriceStore { asks: StringHashMap::new() }
    }
}

impl AskPriceStore {
    /// The best ask of a token.
    pub fn get_ask(&self, token_id: &str) -> (r: Option<Binary64>)
        ensures
            r == (if self@.contains_key(token_id@) {
                Some(self@[token_id@])
            } else {
                None
            }),
    {
        match self.asks.get(token_id) {
            Some(ask) => Some(*ask),
            None => None,
        }
    }

    /// Sets the best ask of a token.
    pub fn set_ask(&mut self, token_id: &str, ask: Binary64)
        ensures
            final(self)@ == old(self)@.insert(token_id@, ask),
    {
        self.asks.insert(token_id.to_owned(), ask);
    }

    /// Takes over an ask that was asked for, where there is one above zero.
    pub fn seed_ask(&mut self, token_id: &str, ask: Option<Binary64>)
        ensures
            final(self)@ == (match ask {
                Some(a) => if a.positive() {
                    old(self)@.insert(token_id@, a)
                } else {
                    old(self)@
                },
                None => old(self)@,
            }),
    {
        match ask {
            Some(a) => {
                if a.is_positive() {
                    self.set_ask(token_id, a);
                }
            },
            None => {},
        }
    }
}

// ---------------------------------------------------------------------------------------------
// The registry of markets.
// ---------------------------------------------------------------------------------------------

/// The market of a symbol in a period.
#[derive(Debug, Clone)]
pub struct SymbolMarketTokens {
    pub symbol: String,
    pub slug: String,
    pub condition_id: String,
    pub up_token: String,
    pub down_token: String,
}

/// The model of a [`SymbolMarketTokens`].
pub struct TokensView {
    pub symbol: Seq<char>,
    pub slug: Seq<char>,
    pub condition_id: Seq<char>,
    pub up_token: Seq<char>,
    pub down_token: Seq<char>,
}

impl View for SymbolMarketTokens {
    type V = TokensView;

    open spec fn view(&self) -> TokensView {
        TokensView {
            symbol: self.symbol@,
            slug: self.slug@,
            condition_id: self.condition_id@,
            up_token: self.up_token@,
            down_token: self.down_token@,
        }
    }
}

/// What the exchange lists for a market that can be traded.
#[derive(Debug, Clone)]
pub struct MarketListing {
    pub condition_id: String,
    pub up_token: String,
    pub down_token: String,
}

/// The markets of one period, by symbol.
pub struct MarketTokenRegistry {
    pub period_start: i64,
    pub markets: TextMap<SymbolMarketTokens>,
}

/// No symbol has a market that can be traded in the period.
#[derive(Debug, Clone, Copy, PartialEq, Eq, Structural)]
pub struct NoActiveMarkets {
    pub period_start: i64,
}

impl NoActiveMarkets {
    pub open spec fn text(self) -> Seq<char> {
        "No active 5m markets for period "@ + text::decimal(self.period_start as int)
    }

    /// The error as a sentence.
    pub fn message(self) -> (r: String)
        ensures
            r@ == self.text(),
    {
        let mut out = String::new();
        out.append("No active 5m markets for period ");
        text::push_decimal_i64(&mut out, self.period_start);
        assert(out@ =~= self.text());
        out
    }
}

/// The market of a symbol that is listed.
pub open spec fn market_view(symbol: Seq<char>, slug: Seq<char>, listing: MarketListing) -> TokensView {
    TokensView {
        symbol,
        slug,
        condition_id: listing.condition_id@,
        up_token: listing.up_token@,
        down_token: listing.down_token@,
    }
}

/// The slugs of the symbols' markets in a period.
pub open spec fn slugs_of(symbols: Seq<Seq<char>>, period_start: int) -> Seq<Seq<char>> {
    Seq::new(symbols.len(), |i: int| discovery::slug_5m(symbols[i], period_start))
}

/// The slugs of the markets of symbols in ASCII in a period.
pub open spec fn ascii_slugs_of(symbols: Seq<Seq<char>>, period_start: int) -> Seq<Seq<char>> {
    Seq::new(
        symbols.len(),
        |i: int| discovery::slug_of(text::ascii_lowercase(symbols[i]), period_start),
    )
}

/// The markets of the symbols, by symbol, where `slugs[i]` is the slug and `listings[i]` what is
/// listed for `symbols[i]`. Of a symbol that stands twice the later listing counts.
pub open spec fn listed_markets(
    symbols: Seq<Seq<char>>,
    slugs: Seq<Seq<char>>,
    listings: Seq<Option<MarketListing>>,
) -> Map<Seq<char>, TokensView>
    decreases symbols.len(),
{
    if symbols.len() == 0 {
        Map::empty()
    } else {
        let front = listed_markets(symbols.drop_last(), slugs.drop_last(), listings.drop_last());
        match listings.last() {
            Some(listing) => front.insert(
                symbols.last(),
                market_view(symbols.last(), slugs.last(), listing),
            ),
            None => front,
        }
    }
}

/// The ids of the two tokens of each market, in turn.
pub open spec fn token_ids(entries: Seq<(String, SymbolMarketTokens)>) -> Seq<Seq<char>> {
    Seq::new(
        2 * entries.len(),
        |i: int|
            if i % 2 == 0 {
                entries[i / 2].1.up_token@
            } else {
                entries[i / 2].1.down_token@
            },
    )
}

impl Default for MarketTokenRegistry {
    fn default() -> (r: MarketTokenRegistry)
        ensures
            r.wf(),
            r.period_start == 0,
            r.listing() == Map::<Seq<char>, TokensView>::empty(),
    {
        let r = MarketTokenRegistry { period_start: 0, markets: TextMap::new() };
        assert(r.listing() =~= Map::<Seq<char>, TokensView>::empty());
        r
    }
}

impl MarketTokenRegistry {
    pub open spec fn wf(&self) -> bool {
        self.markets.wf()
    }

    /// The markets by symbol.
    pub open spec fn listing(&self) -> Map<Seq<char>, TokensView> {
        self.markets@.map_values(|m: SymbolMarketTokens| m@)
    }

    /// The registry of a period, from the slug of each symbol's market and what is listed for it.
    pub fn from_slugs(
        symbols: &Vec<String>,
        slugs: Vec<String>,
        period_start: i64,
        listings: Vec<Option<MarketListing>>,
    ) -> (r: MarketTokenRegistry)
        requires
            symbols@.len() == slugs@.len(),
            symbols@.len() == listings@.len(),
        ensures
            r.wf(),
            r.period_start == period_start,
            r.listing() == listed_markets(
                text::views(symbols@),
                text::views(slugs@),
                listings@,
            ),
    {
        let mut r = MarketTokenRegistry { period_start, markets: TextMap::new() };
        let ghost names = text::views(symbols@);
        let ghost all = text::views(slugs@);
        let mut i: usize = 0;
        assert(names.take(0) =~= Seq::<Seq<char>>::empty());
        assert(r.listing() =~= Map::<Seq<char>, TokensView>::empty());
        while i < symbols.len()
            invariant
                symbols@.len() == slugs@.len(),
                symbols@.len() == listings@.len(),
                0 <= i <= symbols@.len(),
                names == text::views(symbols@),
                all == text::views(slugs@),
                r.wf(),
                r.period_start == period_start,
                r.listing() == listed_markets(
                    names.take(i as int),
                    all.take(i as int),
                    listings@.take(i as int),
                ),
            decreases symbols@.len() - i,
        {
            proof {
                assert(names.take(i + 1).drop_last() =~= names.take(i as int));
                assert(names.take(i + 1).last() == symbols@[i as int]@);
                assert(all.take(i + 1).drop_last() =~= all.take(i as int));
                assert(all.take(i + 1).last() == slugs@[i as int]@);
                assert(listings@.take(i + 1).drop_last() =~= listings@.take(i as int));
                assert(listings@.take(i + 1).last() == listings@[i as int]);
            }
            match &listings[i] {
                Some(found) => {
                    let ghost before = r.listing();
                    let symbol = symbols[i].clone();
                    let market = SymbolMarketTokens {
                        symbol: symbols[i].clone(),
                        slug: slugs[i].clone(),
                        condition_id: found.condition_id.clone(),
                        up_token: found.up_token.clone(),
                        down_token: found.down_token.clone(),
                    };
                    let ghost key = symbol@;
                    let ghost value = market@;
                    r.markets.insert(symbol, market);
                    assert(r.listing() =~= before.insert(key, value));
                },
                None => {},
            }
            i = i + 1;
        }
        assert(names.take(i as int) =~= names);
        assert(all.take(i as int) =~= all);
        assert(listings@.take(i as int) =~= listings@);
        r
    }

    /// The registry of a period, from what is listed for each symbol.
    pub fn from_listings(
        symbols: &Vec<String>,
        period_start: i64,
        listings: Vec<Option<MarketListing>>,
    ) -> (r: MarketTokenRegistry)
        requires
            symbols@.len() == listings@.len(),
        ensures
            r.wf(),
            r.period_start == period_start,
            r.listing() == listed_markets(
                text::views(symbols@),
                slugs_of(text::views(symbols@), period_start as int),
                listings@,
            ),
            (forall|i: int| 0 <= i < symbols@.len() ==> text::ascii(#[trigger] symbols@[i]@))
                ==> r.listing() == listed_markets(
                text::views(symbols@),
                ascii_slugs_of(text::views(symbols@), period_start as int),
                listings@,
            ),
    {
        let ghost names = text::views(symbols@);
        let mut slugs: Vec<String> = Vec::new();
        let mut i: usize = 0;
        while i < symbols.len()
            invariant
                0 <= i <= symbols@.len(),
                names == text::views(symbols@),
                slugs@.len() == i,
                forall|j: int|
                    0 <= j < i ==> (#[trigger] slugs@[j])@ == slugs_of(
                        names,
                        period_start as int,
                    )[j],
                forall|j: int|
                    0 <= j < i && text::ascii(symbols@[j]@) ==> (#[trigger] slugs@[j])@
                        == ascii_slugs_of(names, period_start as int)[j],
            decreases symbols@.len() - i,
        {
            slugs.push(discovery::build_5m_slug(symbols[i].as_str(), period_start));
            i = i + 1;
        }
        proof {
            assert(text::views(slugs@) =~= slugs_of(names, period_start as int));
            if forall|i: int| 0 <= i < symbols@.len() ==> text::ascii(#[trigger] symbols@[i]@) {
                assert(text::views(slugs@) =~= ascii_slugs_of(names, period_start as int));
            }
        }
        Self::from_slugs(symbols, slugs, period_start, listings)
    }

    /// The ids of all tokens: of each market the Up and the Down token.
    pub fn all_token_ids(&self) -> (r: Vec<String>)
        requires
            self.wf(),
        ensures
            text::views(r@) == token_ids(self.markets.entries()),
            r@.len() == 2 * self.markets.entries().len(),
    {
        let mut ids: Vec<String> = Vec::new();
        let mut i: usize = 0;
        while i < self.markets.len()
            invariant
                0 <= i <= self.markets.entries().len(),
                ids@.len() == 2 * i,
                forall|j: int|
                    0 <= j < 2 * i ==> (#[trigger] ids@[j])@ == token_ids(self.markets.entries())[j],
            decreases self.markets.entries().len() - i,
        {
            let m = self.markets.value_at(i);
            ids.push(m.up_token.clone());
            ids.push(m.down_token.clone());
            i = i + 1;
        }
        assert(text::views(ids@) =~= token_ids(self.markets.entries()));
        ids
    }

    /// The market of a symbol. The symbol is looked up in lowercase.
    pub fn get(&self, symbol: &str) -> (r: Option<&SymbolMarketTokens>)
        requires
            self.wf(),
        ensures
            match r {
                Some(m) => self.markets@.contains_key(text::lowercase(symbol@)) && *m
                    == self.markets@[text::lowercase(symbol@)],
                None => !self.markets@.contains_key(text::lowercase(symbol@)),
            },
            text::ascii(symbol@) ==> (match r {
                Some(m) => self.markets@.contains_key(text::ascii_lowercase(symbol@)) && *m
                    == self.markets@[text::ascii_lowercase(symbol@)],
                None => !self.markets@.contains_key(text::ascii_lowercase(symbol@)),
            }),
    {
        let lowered = symbol.to_lowercase();
        self.markets.get(lowered.as_str())
    }

    /// The registry is that of the period, and holds a market.
    pub open spec fn current_for(&self, period_start: int) -> bool {
        self.period_start == period_start && self.markets.entries().len() > 0
    }

    /// Whether the registry is that of the period, and holds a market.
    pub fn is_current(&self, period_start: i64) -> (r: bool)
        ensures
            r == self.current_for(period_start as int),
    {
        self.period_start == period_start && !self.markets.is_empty()
    }

    /// What an on-demand refresh asks the prices of: the tokens of the registry that was built.
    /// One without a market is refused.
    pub fn token_ids_to_seed(&self) -> (r: Result<Vec<String>, NoActiveMarkets>)
        requires
            self.wf(),
        ensures
            match r {
                Ok(ids) => self.markets.entries().len() > 0 && text::views(ids@) == token_ids(
                    self.markets.entries(),
                ),
                Err(e) => self.markets.entries().len() == 0 && e.period_start == self.period_start,
            },
    {
        if self.markets.is_empty() {
            Err(NoActiveMarkets { period_start: self.period_start })
        } else {
            Ok(self.all_token_ids())
        }
    }
}

/// The market that is listed for the last occurrence of a symbol for which something is listed.
pub open spec fn last_listed(
    symbols: Seq<Seq<char>>,
    slugs: Seq<Seq<char>>,
    listings: Seq<Option<MarketListing>>,
    symbol: Seq<char>,
) -> Option<TokensView>
    decreases symbols.len(),
{
    if symbols.len() == 0 {
        None
    } else if symbols.last() == symbol && listings.last() is Some {
        Some(market_view(symbol, slugs.last(), listings.last()->Some_0))
    } else {
        last_listed(symbols.drop_last(), slugs.drop_last(), listings.drop_last(), symbol)
    }
}

/// The registry holds a market of exactly the symbols for which something is listed, and it is
/// the market that was listed last.
pub proof fn law_registry_holds_what_is_listed(
    symbols: Seq<Seq<char>>,
    slugs: Seq<Seq<char>>,
    listings: Seq<Option<MarketListing>>,
    symbol: Seq<char>,
)
    requires
        symbols.len() == slugs.len(),
        symbols.len() == listings.len(),
    ensures
        last_listed(symbols, slugs, listings, symbol) == (if listed_markets(
            symbols,
            slugs,
            listings,
        ).contains_key(symbol) {
            Some(listed_markets(symbols, slugs, listings)[symbol])
        } else {
            None
        }),
    decreases symbols.len(),
{
    if symbols.len() > 0 {
        law_registry_holds_what_is_listed(
            symbols.drop_last(),
            slugs.drop_last(),
            listings.drop_last(),
            symbol,
        );
    }
}

/// Both tokens of every registered market are subscribed to.
pub proof fn law_market_tokens_are_subscribed(registry: MarketTokenRegistry, symbol: Seq<char>)
    requires
        registry.wf(),
        registry.listing().contains_key(symbol),
    ensures
        token_ids(registry.markets.entries()).contains(registry.listing()[symbol].up_token),
        token_ids(registry.markets.entries()).contains(registry.listing()[symbol].down_token),
{
    let entries = registry.markets.entries();
    let ids = token_ids(entries);
    let i = registry.markets.place(symbol);
    assert(registry.markets.holds(symbol));
    assert(registry.markets.key_at(i) == symbol);
    registry.markets.lemma_entry(i);
    assert(ids[2 * i] == entries[i].1.up_token@);
    assert(ids[2 * i + 1] == entries[i].1.down_token@);
}

/// Every token that is subscribed to is one of a registered market.
pub proof fn law_subscribed_token_has_market(registry: MarketTokenRegistry, id: Seq<char>)
    requires
        registry.wf(),
        token_ids(registry.markets.entries()).contains(id),
    ensures
        exists|symbol: Seq<char>| #[trigger]
            registry.listing().contains_key(symbol) && (id == registry.listing()[symbol].up_token
                || id == registry.listing()[symbol].down_token),
{
    let ids = token_ids(registry.markets.entries());
    let j = choose|j: int| 0 <= j < ids.len() && ids[j] == id;
    let i = j / 2;
    registry.markets.lemma_entry(i);
    let symbol = registry.markets.key_at(i);
    assert(registry.listing().contains_key(symbol));
}

// ---------------------------------------------------------------------------------------------
// Keeping the registry up to date.
// ---------------------------------------------------------------------------------------------

/// What follows a refresh of the registry.
#[derive(Debug)]
pub enum RefreshStep {
    /// No market was found: try again at the next tick.
    NoMarkets,
    /// Take over the registry and subscribe to these tokens.
    Publish(Vec<String>),
}

/// The background refresh of the registry: once for each period, as soon as it has a market.
pub struct TokenRefresh {
    last_period: i64,
}

impl TokenRefresh {
    /// The period that was published last; 0 before the first.
    pub closed spec fn last_period(&self) -> int {
        self.last_period as int
    }

    pub fn new() -> (r: TokenRefresh)
        ensures
            r.last_period() == 0,
    {
        TokenRefresh { last_period: 0 }
    }

    /// Whether the period is still to be published.
    pub fn is_due(&self, period: i64) -> (r: bool)
        ensures
            r == (period != self.last_period()),
    {
        period != self.last_period
    }

    /// The registry of `period` was built.
    pub fn on_refreshed(&mut self, period: i64, registry: &MarketTokenRegistry) -> (r: RefreshStep)
        requires
            registry.wf(),
        ensures
            match r {
                RefreshStep::NoMarkets => registry.markets.entries().len() == 0 && final(self).last_period() == old(self).last_period(),
                RefreshStep::Publish(ids) => registry.markets.entries().len() > 0 && text::views(
                    ids@,
                ) == token_ids(registry.markets.entries()) && final(self).last_period() == period,
            },
    {
        let ids = registry.all_token_ids();
        if ids.len() == 0 {
            RefreshStep::NoMarkets
        } else {
            self.last_period = period;
            RefreshStep::Publish(ids)
        }
    }
}

// ---------------------------------------------------------------------------------------------
// The market WebSocket.
// ---------------------------------------------------------------------------------------------

/// The address of the market channel below a base address.
pub open spec fn market_channel(base: Seq<char>) -> Seq<char> {
    text::trim_back_char(base, '/') + "/ws/market"@
}

/// The address of the market channel: slashes at the end of the base are dropped.
pub fn market_channel_url(base: &str) -> (r: String)
    ensures
        r@ == market_channel(base@),
{
    let mut out = text::trim_end_char(base, '/');
    out.append("/ws/market");
    out
}

/// The members of the message that subscribes to tokens.
pub open spec fn subscription(ids: Seq<Seq<char>>) -> Seq<(Seq<char>, json::JsonFieldView)> {
    seq![
        ("assets_ids"@, json::JsonFieldView::Texts(ids)),
        ("type"@, json::JsonFieldView::Text("market"@)),
        ("custom_feature_enabled"@, json::JsonFieldView::Flag(true)),
    ]
}

/// The members of the message that subscribes to tokens.
pub fn subscription_members(ids: Vec<String>) -> (r: Vec<(String, JsonField)>)
    ensures
        json::field_views(r@) == subscription(text::views(ids@)),
{
    let mut members: Vec<(String, JsonField)> = Vec::new();
    members.push(("assets_ids".to_owned(), JsonField::Texts(ids)));
    members.push(("type".to_owned(), JsonField::Text("market".to_owned())));
    members.push(("custom_feature_enabled".to_owned(), JsonField::Flag(true)));
    assert(json::field_views(members@) =~= subscription(text::views(ids@)));
    members
}

/// The message that subscribes to tokens.
pub fn subscribe_message(ids: Vec<String>) -> (r: String)
    ensures
        r@ == json::json_object(subscription(text::views(ids@))),
{
    json::render_json_object(subscription_members(ids))
}

/// How a connection ended.
#[derive(Debug)]
pub enum StreamOutcome {
    /// The period changed: connect again with these tokens.
    Resubscribe(Vec<String>),
    /// The connection dropped: connect again with the same tokens.
    Disconnected,
    /// No more subscriptions will come: stop.
    Shutdown,
}

/// What happens while a connection is up.
#[derive(Debug)]
pub enum StreamEvent {
    Text(String),
    Closed,
    ReadError,
    Ended,
    OtherFrame,
    NewIds(Vec<String>),
    SubscriberGone,
}

/// What to do about an event.
#[derive(Debug)]
pub enum StreamStep {
    /// Apply the message to the prices.
    Apply(String),
    Continue,
    Finish(StreamOutcome),
}

/// The ids of a list, whatever their order and number.
pub open spec fn id_set(ids: Seq<String>) -> Set<Seq<char>> {
    text::views(ids).to_set()
}

/// Whether the list holds the id.
fn holds_id(ids: &Vec<String>, id: &str) -> (r: bool)
    ensures
        r == id_set(ids@).contains(id@),
{
    let mut i: usize = 0;
    while i < ids.len()
        invariant
            0 <= i <= ids@.len(),
            forall|j: int| 0 <= j < i ==> (#[trigger] ids@[j])@ != id@,
        decreases ids@.len() - i,
    {
        if text::same_text(ids[i].as_str(), id) {
            assert(text::views(ids@)[i as int] == id@);
            return true;
        }
        i = i + 1;
    }
    assert forall|j: int| 0 <= j < text::views(ids@).len() implies text::views(ids@)[j] != id@ by {
        assert(ids@[j]@ != id@);
    }
    false
}

/// Whether the second list holds every id of the first.
fn ids_within(a: &Vec<String>, b: &Vec<String>) -> (r: bool)
    ensures
        r == id_set(a@).subset_of(id_set(b@)),
{
    let mut i: usize = 0;
    while i < a.len()
        invariant
            0 <= i <= a@.len(),
            forall|j: int| 0 <= j < i ==> id_set(b@).contains((#[trigger] a@[j])@),
        decreases a@.len() - i,
    {
        if !holds_id(b, a[i].as_str()) {
            assert(text::views(a@)[i as int] == a@[i as int]@);
            assert(id_set(a@).contains(a@[i as int]@));
            return false;
        }
        i = i + 1;
    }
    assert forall|id: Seq<char>| id_set(a@).contains(id) implies id_set(b@).contains(id) by {
        let j = choose|j: int| 0 <= j < text::views(a@).len() && text::views(a@)[j] == id;
        assert(a@[j]@ == id);
    }
    true
}

/// Whether two lists hold the same ids.
pub fn same_ids(a: &Vec<String>, b: &Vec<String>) -> (r: bool)
    ensures
        r == (id_set(a@) == id_set(b@)),
{
    let r = ids_within(a, b) && ids_within(b, a);
    proof {
        if r {
            assert(id_set(a@) =~= id_set(b@));
        }
    }
    r
}

/// What a connection that is subscribed to `subscribed` does about an event. A text is applied
/// unless it answers a ping; a close, a read error and the end of the stream end the connection;
/// other frames are ignored. New ids end it when they are not those that it has; no more
/// subscriptions end the feed.
pub fn stream_step(subscribed: &Vec<String>, event: StreamEvent) -> (r: StreamStep)
    ensures
        r == (match event {
            StreamEvent::Text(t) => if t@ == "PONG"@ {
                StreamStep::Continue
            } else {
                StreamStep::Apply(t)
            },
            StreamEvent::Closed | StreamEvent::ReadError | StreamEvent::Ended => StreamStep::Finish(
                StreamOutcome::Disconnected,
            ),
            StreamEvent::OtherFrame => StreamStep::Continue,
            StreamEvent::NewIds(ids) => if id_set(ids@) == id_set(subscribed@) {
                StreamStep::Continue
            } else {
                StreamStep::Finish(StreamOutcome::Resubscribe(ids))
            },
            StreamEvent::SubscriberGone => StreamStep::Finish(StreamOutcome::Shutdown),
        }),
{
    match event {
        StreamEvent::Text(t) => {
            if text::same_text(t.as_str(), "PONG") {
                StreamStep::Continue
            } else {
                StreamStep::Apply(t)
            }
        },
        StreamEvent::Closed => StreamStep::Finish(StreamOutcome::Disconnected),
        StreamEvent::ReadError => StreamStep::Finish(StreamOutcome::Disconnected),
        StreamEvent::Ended => StreamStep::Finish(StreamOutcome::Disconnected),
        StreamEvent::OtherFrame => StreamStep::Continue,
        StreamEvent::NewIds(ids) => {
            if same_ids(&ids, subscribed) {
                StreamStep::Continue
            } else {
                StreamStep::Finish(StreamOutcome::Resubscribe(ids))
            }
        },
        StreamEvent::SubscriberGone => StreamStep::Finish(StreamOutcome::Shutdown),
    }
}

/// What the feed does once a connection has ended.
#[derive(Debug, Clone, Copy, PartialEq, Eq, Structural)]
pub enum FeedStep {
    /// Connect again after so many milliseconds.
    ConnectAfter(u64),
    Stop,
}

/// The feed of ask prices: the tokens that it is for, and its connection.
pub struct PriceFeed {
    ids: Vec<String>,
    connection: Reconnect,
}

impl PriceFeed {
    pub closed spec fn wf(&self) -> bool {
        self.connection.wf()
    }

    /// The tokens to subscribe to.
    pub closed spec fn tokens(&self) -> Seq<String> {
        self.ids@
    }

    /// The attempts in a row that failed.
    pub closed spec fn failures(&self) -> nat {
        self.connection.failures()
    }

    pub fn new() -> (r: PriceFeed)
        ensures
            r.wf(),
            r.tokens() == Seq::<String>::empty(),
            r.failures() == 0,
    {
        PriceFeed { ids: Vec::new(), connection: Reconnect::new() }
    }

    /// Whether to wait for a subscription before connecting.
    pub fn needs_ids(&self) -> (r: bool)
        ensures
            r == (self.tokens().len() == 0),
    {
        self.ids.len() == 0
    }

    /// A subscription came while none was there.
    pub fn on_ids(&mut self, ids: Vec<String>)
        requires
            old(self).wf(),
        ensures
            final(self).wf(),
            final(self).tokens() == ids@,
            final(self).failures() == old(self).failures(),
    {
        self.ids = ids;
    }

    /// The tokens to subscribe to.
    pub fn ids(&self) -> (r: &Vec<String>)
        ensures
            r@ == self.tokens(),
    {
        &self.ids
    }

    /// A connection came up and ended: connect again at once, with the new tokens if there are
    /// any, or stop.
    pub fn on_outcome(&mut self, outcome: StreamOutcome) -> (r: FeedStep)
        requires
            old(self).wf(),
        ensures
            final(self).wf(),
            match outcome {
                StreamOutcome::Resubscribe(ids) => r == FeedStep::ConnectAfter(0) && final(self).tokens() == ids@ && final(self).failures() == 0,
                StreamOutcome::Disconnected => r == FeedStep::ConnectAfter(0) && final(self).tokens() == old(self).tokens() && final(self).failures() == 0,
                StreamOutcome::Shutdown => r == FeedStep::Stop && final(self).tokens() == old(self).tokens() && final(self).failures() == old(self).failures(),
            },
    {
        match outcome {
            StreamOutcome::Resubscribe(ids) => {
                self.ids = ids;
                self.connection.on_disconnect();
                FeedStep::ConnectAfter(0)
            },
            StreamOutcome::Disconnected => {
                self.connection.on_disconnect();
                FeedStep::ConnectAfter(0)
            },
            StreamOutcome::Shutdown => FeedStep::Stop,
        }
    }

    /// A connection failed to come up, or to subscribe.
    pub fn on_failure(&mut self) -> (r: FeedStep)
        requires
            old(self).wf(),
        ensures
            final(self).wf(),
            final(self).tokens() == old(self).tokens(),
            final(self).failures() == old(self).failures() + 1,
            r matches FeedStep::ConnectAfter(ms) && ms == reconnect::backoff_after(
                old(self).failures(),
            ),
    {
        let wait = self.connection.on_failure();
        FeedStep::ConnectAfter(wait)
    }
}

// ---------------------------------------------------------------------------------------------
// Messages of the market channel.
// ---------------------------------------------------------------------------------------------

/// The fields of a message that the feed reads. A field that is missing, or not of its type, is
/// `None`.
#[derive(Debug)]
pub struct RawMessage {
    pub event_type: Option<String>,
    pub asset_id: Option<String>,
    pub best_ask: Option<String>,
    /// The price of each level of the book.
    pub asks: Option<Vec<Option<String>>>,
    /// The token and the best ask of each change.
    pub price_changes: Option<Vec<(Option<String>, Option<String>)>>,
}

/// The model of a [`RawMessage`].
pub struct RawView {
    pub event_type: Option<Seq<char>>,
    pub asset_id: Option<Seq<char>>,
    pub best_ask: Option<Seq<char>>,
    pub asks: Option<Seq<Option<Seq<char>>>>,
    pub price_changes: Option<Seq<(Option<Seq<char>>, Option<Seq<char>>)>>,
}

pub open spec fn opt_views(v: Seq<Option<String>>) -> Seq<Option<Seq<char>>> {
    Seq::new(v.len(), |i: int| text::opt_view(v[i]))
}

pub open spec fn opt_pair_views(v: Seq<(Option<String>, Option<String>)>) -> Seq<
    (Option<Seq<char>>, Option<Seq<char>>),
> {
    Seq::new(v.len(), |i: int| (text::opt_view(v[i].0), text::opt_view(v[i].1)))
}

impl View for RawMessage {
    type V = RawView;

    open spec fn view(&self) -> RawView {
        RawView {
            event_type: text::opt_view(self.event_type),
            asset_id: text::opt_view(self.asset_id),
            best_ask: text::opt_view(self.best_ask),
            asks: match self.asks {
                Some(levels) => Some(opt_views(levels@)),
                None => None,
            },
            price_changes: match self.price_changes {
                Some(changes) => Some(opt_pair_views(changes@)),
                None => None,
            },
        }
    }
}

/// The prices of the levels of a book.
pub open spec fn level_prices(levels: Seq<Seq<char>>) -> Seq<Option<Seq<char>>> {
    Seq::new(levels.len(), |i: int| json::text_field(levels[i], "price"@))
}

/// The tokens and best asks of changes.
pub open spec fn change_fields(changes: Seq<Seq<char>>) -> Seq<
    (Option<Seq<char>>, Option<Seq<char>>),
> {
    Seq::new(
        changes.len(),
        |i: int|
            (json::text_field(changes[i], "asset_id"@), json::text_field(changes[i], "best_ask"@)),
    )
}

/// The fields of a message.
pub open spec fn raw_message(doc: Seq<char>) -> RawView {
    RawView {
        event_type: json::text_field(doc, "event_type"@),
        asset_id: json::text_field(doc, "asset_id"@),
        best_ask: json::text_field(doc, "best_ask"@),
        asks: match json::items_field(doc, "asks"@) {
            Some(levels) => Some(level_prices(levels)),
            None => None,
        },
        price_changes: match json::items_field(doc, "price_changes"@) {
            Some(changes) => Some(change_fields(changes)),
            None => None,
        },
    }
}

/// Reads the prices of the levels of a book.
fn read_levels(levels: &Vec<String>) -> (r: Vec<Option<String>>)
    ensures
        opt_views(r@) == level_prices(text::views(levels@)),
{
    let mut out: Vec<Option<String>> = Vec::new();
    let mut i: usize = 0;
    while i < levels.len()
        invariant
            0 <= i <= levels@.len(),
            out@.len() == i,
            forall|j: int|
                0 <= j < i ==> text::opt_view(#[trigger] out@[j]) == json::text_field(
                    levels@[j]@,
                    "price"@,
                ),
        decreases levels@.len() - i,
    {
        let node = json::parse_json(levels[i].as_str());
        out.push(json::read_text_field(&node, "price"));
        i = i + 1;
    }
    assert(opt_views(out@) =~= level_prices(text::views(levels@)));
    out
}

/// Reads the tokens and best asks of changes.
fn read_changes(changes: &Vec<String>) -> (r: Vec<(Option<String>, Option<String>)>)
    ensures
        opt_pair_views(r@) == change_fields(text::views(changes@)),
{
    let mut out: Vec<(Option<String>, Option<String>)> = Vec::new();
    let mut i: usize = 0;
    while i < changes.len()
        invariant
            0 <= i <= changes@.len(),
            out@.len() == i,
            forall|j: int|
                0 <= j < i ==> text::opt_view((#[trigger] out@[j]).0) == json::text_field(
                    changes@[j]@,
                    "asset_id"@,
                ) && text::opt_view(out@[j].1) == json::text_field(changes@[j]@, "best_ask"@),
        decreases changes@.len() - i,
    {
        let node = json::parse_json(changes[i].as_str());
        let asset_id = json::read_text_field(&node, "asset_id");
        let best_ask = json::read_text_field(&node, "best_ask");
        out.push((asset_id, best_ask));
        i = i + 1;
    }
    assert(opt_pair_views(out@) =~= change_fields(text::views(changes@)));
    out
}

/// Reads the fields of a message.
pub fn read_message(doc: &str) -> (r: RawMessage)
    ensures
        r@ == raw_message(doc@),
{
    let node = json::parse_json(doc);
    let asks = match json::read_items_field(&node, "asks") {
        Some(levels) => Some(read_levels(&levels)),
        None => None,
    };
    let price_changes = match json::read_items_field(&node, "price_changes") {
        Some(changes) => Some(read_changes(&changes)),
        None => None,
    };
    RawMessage {
        event_type: json::read_text_field(&node, "event_type"),
        asset_id: json::read_text_field(&node, "asset_id"),
        best_ask: json::read_text_field(&node, "best_ask"),
        asks,
        price_changes,
    }
}

/// A message about ask prices, the prices still in writing.
#[derive(Debug)]
pub enum WsMessage {
    BestBidAsk { asset_id: String, ask: String },
    Book { asset_id: String, prices: Vec<String> },
    PriceChange { assets: Vec<String>, asks: Vec<String> },
    Ignored,
}

/// The model of a [`WsMessage`].
pub enum WsView {
    BestBidAsk { asset_id: Seq<char>, ask: Seq<char> },
    Book { asset_id: Seq<char>, prices: Seq<Seq<char>> },
    PriceChange { assets: Seq<Seq<char>>, asks: Seq<Seq<char>> },
    Ignored,
}

impl View for WsMessage {
    type V = WsView;

    open spec fn view(&self) -> WsView {
        match self {
            WsMessage::BestBidAsk { asset_id, ask } => WsView::BestBidAsk {
                asset_id: asset_id@,
                ask: ask@,
            },
            WsMessage::Book { asset_id, prices } => WsView::Book {
                asset_id: asset_id@,
                prices: text::views(prices@),
            },
            WsMessage::PriceChange { assets, asks } => WsView::PriceChange {
                assets: text::views(assets@),
                asks: text::views(asks@),
            },
            WsMessage::Ignored => WsView::Ignored,
        }
    }
}

/// The texts that are there, in their order.
pub open spec fn present(v: Seq<Option<Seq<char>>>) -> Seq<Seq<char>>
    decreases v.len(),
{
    if v.len() == 0 {
        Seq::empty()
    } else {
        match v.last() {
            Some(t) => present(v.drop_last()).push(t),
            None => present(v.drop_last()),
        }
    }
}

/// The changes that name a token and a best ask, in their order: first their tokens.
pub open spec fn change_assets(v: Seq<(Option<Seq<char>>, Option<Seq<char>>)>) -> Seq<Seq<char>>
    decreases v.len(),
{
    if v.len() == 0 {
        Seq::empty()
    } else {
        match v.last() {
            (Some(asset), Some(_)) => change_assets(v.drop_last()).push(asset),
            _ => change_assets(v.drop_last()),
        }
    }
}

/// The changes that name a token and a best ask, in their order: then their best asks.
pub open spec fn change_asks(v: Seq<(Option<Seq<char>>, Option<Seq<char>>)>) -> Seq<Seq<char>>
    decreases v.len(),
{
    if v.len() == 0 {
        Seq::empty()
    } else {
        match v.last() {
            (Some(_), Some(ask)) => change_asks(v.drop_last()).push(ask),
            _ => change_asks(v.drop_last()),
        }
    }
}

/// What a message says, by its event type. One that lacks a field of its type is ignored.
pub open spec fn decoded(raw: RawView) -> WsView {
    if raw.event_type == Some("best_bid_ask"@) {
        match (raw.asset_id, raw.best_ask) {
            (Some(asset_id), Some(ask)) => WsView::BestBidAsk { asset_id, ask },
            _ => WsView::Ignored,
        }
    } else if raw.event_type == Some("book"@) {
        match (raw.asset_id, raw.asks) {
            (Some(asset_id), Some(levels)) => WsView::Book { asset_id, prices: present(levels) },
            _ => WsView::Ignored,
        }
    } else if raw.event_type == Some("price_change"@) {
        match raw.price_changes {
            Some(changes) => WsView::PriceChange {
                assets: change_assets(changes),
                asks: change_asks(changes),
            },
            None => WsView::Ignored,
        }
    } else {
        WsView::Ignored
    }
}

/// The three event types are told apart.
proof fn lemma_event_types_differ()
    ensures
        "best_bid_ask"@ != "book"@,
        "best_bid_ask"@ != "price_change"@,
        "book"@ != "price_change"@,
{
    reveal_strlit("best_bid_ask");
    reveal_strlit("book");
    reveal_strlit("price_change");
    assert("best_bid_ask"@[0] == 'b');
    assert("price_change"@[0] == 'p');
    assert("best_bid_ask"@.len() != "book"@.len());
    assert("book"@[0] == 'b');
}

fn present_texts(v: Vec<Option<String>>) -> (r: Vec<String>)
    ensures
        text::views(r@) == present(opt_views(v@)),
{
    let mut out: Vec<String> = Vec::new();
    let mut i: usize = 0;
    let ghost all = opt_views(v@);
    assert(all.take(0) =~= Seq::<Option<Seq<char>>>::empty());
    assert(text::views(out@) =~= Seq::<Seq<char>>::empty());
    while i < v.len()
        invariant
            0 <= i <= v@.len(),
            all == opt_views(v@),
            text::views(out@) == present(all.take(i as int)),
        decreases v@.len() - i,
    {
        let ghost before = text::views(out@);
        proof {
            assert(all.take(i + 1).drop_last() =~= all.take(i as int));
            assert(all.take(i + 1).last() == text::opt_view(v@[i as int]));
        }
        match &v[i] {
            Some(t) => {
                out.push(t.clone());
                assert(text::views(out@) =~= before.push(t@));
            },
            None => {},
        }
        i = i + 1;
    }
    assert(all.take(i as int) =~= all);
    out
}

/// What a message says.
pub fn decode_message(raw: RawMessage) -> (r: WsMessage)
    ensures
        r@ == decoded(raw@),
{
    proof {
        lemma_event_types_differ();
    }
    let RawMessage { event_type, asset_id, best_ask, asks, price_changes } = raw;
    let event = match event_type {
        Some(e) => e,
        None => {
            return WsMessage::Ignored;
        },
    };
    if text::same_text(event.as_str(), "best_bid_ask") {
        match (asset_id, best_ask) {
            (Some(asset_id), Some(ask)) => WsMessage::BestBidAsk { asset_id, ask },
            _ => WsMessage::Ignored,
        }
    } else if text::same_text(event.as_str(), "book") {
        match (asset_id, asks) {
            (Some(asset_id), Some(levels)) => {
                WsMessage::Book { asset_id, prices: present_texts(levels) }
            },
            _ => WsMessage::Ignored,
        }
    } else if text::same_text(event.as_str(), "price_change") {
        match price_changes {
            Some(changes) => {
                let mut assets: Vec<String> = Vec::new();
                let mut prices: Vec<String> = Vec::new();
                let ghost all = opt_pair_views(changes@);
                let mut i: usize = 0;
                proof {
                    assert(all.take(0) =~= Seq::empty());
                    assert(text::views(assets@) =~= Seq::<Seq<char>>::empty());
                    assert(text::views(prices@) =~= Seq::<Seq<char>>::empty());
                }
                while i < changes.len()
                    invariant
                        0 <= i <= changes@.len(),
                        all == opt_pair_views(changes@),
                        text::views(assets@) == change_assets(all.take(i as int)),
                        text::views(prices@) == change_asks(all.take(i as int)),
                    decreases changes@.len() - i,
                {
                    let ghost assets_before = text::views(assets@);
                    let ghost prices_before = text::views(prices@);
                    proof {
                        assert(all.take(i + 1).drop_last() =~= all.take(i as int));
                        assert(all.take(i + 1).last() == all[i as int]);
                    }
                    match &changes[i] {
                        (Some(asset), Some(ask)) => {
                            assets.push(asset.clone());
                            prices.push(ask.clone());
                            assert(text::views(assets@) =~= assets_before.push(asset@));
                            assert(text::views(prices@) =~= prices_before.push(ask@));
                        },
                        _ => {},
                    }
                    i = i + 1;
                }
                assert(all.take(i as int) =~= all);
                WsMessage::PriceChange { assets, asks: prices }
            },
            None => WsMessage::Ignored,
        }
    } else {
        WsMessage::Ignored
    }
}

/// Reads a message of the market channel.
pub fn decode_ws_message(doc: &str) -> (r: WsMessage)
    ensures
        r@ == decoded(raw_message(doc@)),
{
    decode_message(read_message(doc))
}

/// How many prices a message writes.
pub open spec fn price_count(message: WsView) -> nat {
    match message {
        WsView::BestBidAsk { .. } => 1,
        WsView::Book { prices, .. } => prices.len(),
        WsView::PriceChange { asks, .. } => asks.len(),
        WsView::Ignored => 0,
    }
}

impl WsMessage {
    /// The prices that the message writes, in their order.
    pub fn price_texts(&self) -> (r: Vec<String>)
        ensures
            r@.len() == price_count(self@),
            text::views(r@) == (match self@ {
                WsView::BestBidAsk { ask, .. } => seq![ask],
                WsView::Book { prices, .. } => prices,
                WsView::PriceChange { asks, .. } => asks,
                WsView::Ignored => Seq::<Seq<char>>::empty(),
            }),
    {
        match self {
            WsMessage::BestBidAsk { ask, .. } => {
                let mut out: Vec<String> = Vec::new();
                out.push(ask.clone());
                assert(text::views(out@) =~= seq![ask@]);
                out
            },
            WsMessage::Book { prices, .. } => text::copy_texts(prices),
            WsMessage::PriceChange { asks, .. } => text::copy_texts(asks),
            WsMessage::Ignored => {
                let out: Vec<String> = Vec::new();
                assert(text::views(out@) =~= Seq::<Seq<char>>::empty());
                out
            },
        }
    }
}

/// A price that a level of a book can have: above zero and below one.
pub open spec fn level_price(p: Binary64) -> bool {
    p.positive() && p.below(Binary64 { bits: crate::binary64::ONE_BITS })
}

/// The best ask of a book: the lowest of its prices above zero and below one. `None` stands for a
/// price that was not a number in writing.
pub open spec fn best_level(prices: Seq<Option<Binary64>>) -> Option<Binary64>
    decreases prices.len(),
{
    if prices.len() == 0 {
        None
    } else {
        let best = best_level(prices.drop_last());
        match prices.last() {
            Some(p) => if level_price(p) && (best matches Some(b) ==> p.below(b)) {
                Some(p)
            } else {
                best
            },
            None => best,
        }
    }
}

/// The best ask of a book is one of its prices between zero and one and none of them is lower;
/// there is none exactly where no price is between zero and one.
pub proof fn law_best_level_is_lowest(prices: Seq<Option<Binary64>>)
    ensures
        best_level(prices) matches Some(b) ==> level_price(b) && prices.contains(Some(b)),
        forall|i: int|
            0 <= i < prices.len() && (#[trigger] prices[i]) is Some && level_price(prices[i]->0)
                ==> best_level(prices) is Some && best_level(prices)->0.at_most(prices[i]->0),
    decreases prices.len(),
{
    if prices.len() > 0 {
        let front = prices.drop_last();
        law_best_level_is_lowest(front);
        let n = front.len() as int;
        if best_level(prices) is Some {
            let b = best_level(prices)->0;
            if front.contains(Some(b)) {
                let i = choose|i: int| 0 <= i < front.len() && front[i] == Some(b);
                assert(prices[i] == Some(b));
            } else {
                assert(prices[n] == Some(b));
            }
        }
        assert forall|i: int|
            0 <= i < prices.len() && (#[trigger] prices[i]) is Some && level_price(
                prices[i]->0,
            ) implies best_level(prices) is Some && best_level(prices)->0.at_most(prices[i]->0) by {
            if i < n {
                assert(front[i] == prices[i]);
            }
        }
    }
}

/// The lowest of the prices above zero and below one.
pub fn best_ask_from_book_levels(prices: &Vec<Option<Binary64>>) -> (r: Option<Binary64>)
    ensures
        r == best_level(prices@),
{
    let mut best: Option<Binary64> = None;
    let mut i: usize = 0;
    assert(prices@.take(0) =~= Seq::<Option<Binary64>>::empty());
    while i < prices.len()
        invariant
            0 <= i <= prices@.len(),
            best == best_level(prices@.take(i as int)),
        decreases prices@.len() - i,
    {
        proof {
            assert(prices@.take(i + 1).drop_last() =~= prices@.take(i as int));
            assert(prices@.take(i + 1).last() == prices@[i as int]);
        }
        match prices[i] {
            Some(p) => {
                if p.is_positive() && p.lt(Binary64::one()) {
                    let lower = match best {
                        Some(b) => p.lt(b),
                        None => true,
                    };
                    if lower {
                        best = Some(p);
                    }
                }
            },
            None => {},
        }
        i = i + 1;
    }
    assert(prices@.take(i as int) =~= prices@);
    best
}

/// The asks after changes: each change whose price is above zero sets its token's ask.
pub open spec fn changed_asks(
    asks: Map<Seq<char>, Binary64>,
    assets: Seq<Seq<char>>,
    prices: Seq<Option<Binary64>>,
) -> Map<Seq<char>, Binary64>
    decreases assets.len(),
{
    if assets.len() == 0 {
        asks
    } else {
        let before = changed_asks(asks, assets.drop_last(), prices.drop_last());
        match prices.last() {
            Some(p) => if p.positive() {
                before.insert(assets.last(), p)
            } else {
                before
            },
            None => before,
        }
    }
}

/// The asks after a message, `prices` being the prices that it writes. A best bid and ask sets
/// the ask whatever its price; a book sets its best ask; price changes set the asks above zero.
pub open spec fn applied(
    asks: Map<Seq<char>, Binary64>,
    message: WsView,
    prices: Seq<Option<Binary64>>,
) -> Map<Seq<char>, Binary64> {
    match message {
        WsView::BestBidAsk { asset_id, .. } => match prices[0] {
            Some(p) => asks.insert(asset_id, p),
            None => asks,
        },
        WsView::Book { asset_id, .. } => match best_level(prices) {
            Some(p) => asks.insert(asset_id, p),
            None => asks,
        },
        WsView::PriceChange { assets, .. } => changed_asks(asks, assets, prices),
        WsView::Ignored => asks,
    }
}

/// A message can be applied with these prices: there is one for each that it writes.
pub open spec fn priced(message: WsView, prices: Seq<Option<Binary64>>) -> bool {
    &&& prices.len() == price_count(message)
    &&& message matches WsView::PriceChange { assets, asks } ==> assets.len() == asks.len()
}

/// Applies a message to the asks. `prices` are the prices that the message writes, `None` where
/// one is no number.
pub fn apply_ws_message(
    store: &mut AskPriceStore,
    message: &WsMessage,
    prices: &Vec<Option<Binary64>>,
)
    requires
        priced(message@, prices@),
    ensures
        final(store)@ == applied(old(store)@, message@, prices@),
        message@ matches WsView::BestBidAsk { asset_id, .. } ==> (prices@[0] matches Some(p)
            ==> final(store)@.contains_key(asset_id) && final(store)@[asset_id] == p),
{
    match message {
        WsMessage::BestBidAsk { asset_id, .. } => {
            match prices[0] {
                Some(p) => store.set_ask(asset_id.as_str(), p),
                None => {},
            }
        },
        WsMessage::Book { asset_id, .. } => {
            match best_ask_from_book_levels(prices) {
                Some(p) => store.set_ask(asset_id.as_str(), p),
                None => {},
            }
        },
        WsMessage::PriceChange { assets, .. } => {
            let ghost names = text::views(assets@);
            let mut i: usize = 0;
            assert(names.take(0) =~= Seq::<Seq<char>>::empty());
            while i < assets.len()
                invariant
                    0 <= i <= assets@.len(),
                    assets@.len() == prices@.len(),
                    names == text::views(assets@),
                    store@ == changed_asks(
                        old(store)@,
                        names.take(i as int),
                        prices@.take(i as int),
                    ),
                decreases assets@.len() - i,
            {
                proof {
                    assert(names.take(i + 1).drop_last() =~= names.take(i as int));
                    assert(names.take(i + 1).last() == assets@[i as int]@);
                    assert(prices@.take(i + 1).drop_last() =~= prices@.take(i as int));
                    assert(prices@.take(i + 1).last() == prices@[i as int]);
                }
                match prices[i] {
                    Some(p) => {
                        if p.is_positive() {
                            store.set_ask(assets[i].as_str(), p);
                        }
                    },
                    None => {},
                }
                i = i + 1;
            }
            assert(names.take(i as int) =~= names);
            assert(prices@.take(i as int) =~= prices@);
        },
        WsMessage::Ignored => {},
    }
}

/// A message names as many tokens as prices, so that it can be applied once its prices are read.
pub proof fn law_decoded_message_can_be_priced(raw: RawView, prices: Seq<Option<Binary64>>)
    requires
        prices.len() == price_count(decoded(raw)),
    ensures
        priced(decoded(raw), prices),
{
    if raw.event_type == Some("price_change"@) {
        if let Some(changes) = raw.price_changes {
            lemma_changes_in_step(changes);
        }
    }
}

proof fn lemma_changes_in_step(v: Seq<(Option<Seq<char>>, Option<Seq<char>>)>)
    ensures
        change_assets(v).len() == change_asks(v).len(),
    decreases v.len(),
{
    if v.len() > 0 {
        lemma_changes_in_step(v.drop_last());
    }
}

/// No message takes an ask away, and one changes the asks of no token that it does not name.
pub proof fn law_message_touches_named_tokens(
    asks: Map<Seq<char>, Binary64>,
    message: WsView,
    prices: Seq<Option<Binary64>>,
    token: Seq<char>,
)
    requires
        priced(message, prices),
    ensures
        asks.contains_key(token) ==> applied(asks, message, prices).contains_key(token),
        !names_token(message, token) ==> (applied(asks, message, prices).contains_key(token)
            <==> asks.contains_key(token)) && applied(asks, message, prices)[token] == asks[token],
{
    if let WsView::PriceChange { assets, .. } = message {
        lemma_changes_touch_named(asks, assets, prices, token);
    }
}

/// The message is about the token.
pub open spec fn names_token(message: WsView, token: Seq<char>) -> bool {
    match message {
        WsView::BestBidAsk { asset_id, .. } => asset_id == token,
        WsView::Book { asset_id, .. } => asset_id == token,
        WsView::PriceChange { assets, .. } => assets.contains(token),
        WsView::Ignored => false,
    }
}

proof fn lemma_changes_touch_named(
    asks: Map<Seq<char>, Binary64>,
    assets: Seq<Seq<char>>,
    prices: Seq<Option<Binary64>>,
    token: Seq<char>,
)
    ensures
        asks.contains_key(token) ==> changed_asks(asks, assets, prices).contains_key(token),
        !assets.contains(token) ==> (changed_asks(asks, assets, prices).contains_key(token)
            <==> asks.contains_key(token)) && changed_asks(asks, assets, prices)[token]
            == asks[token],
    decreases assets.len(),
{
    if assets.len() > 0 {
        lemma_changes_touch_named(asks, assets.drop_last(), prices.drop_last(), token);
        if assets.drop_last().contains(token) {
            let i = choose|i: int|
                0 <= i < assets.drop_last().len() && assets.drop_last()[i] == token;
            assert(assets[i] == token);
        }
        assert(assets[assets.len() - 1] == assets.last());
    }
}

// ---------------------------------------------------------------------------------------------
// What holds of messages and prices.
// ---------------------------------------------------------------------------------------------

/// After a best bid and ask with a price, that price is the ask of the token, whatever it was
/// before; without a price nothing changes.
pub proof fn law_best_ask_replaces_the_ask(
    asks: Map<Seq<char>, Binary64>,
    token: Seq<char>,
    ask: Seq<char>,
    prices: Seq<Option<Binary64>>,
    other: Seq<char>,
)
    requires
        prices.len() == 1,
        other != token,
    ensures
        prices[0] is Some ==> applied(
            asks,
            WsView::BestBidAsk { asset_id: token, ask },
            prices,
        ).contains_key(token) && applied(
            asks,
            WsView::BestBidAsk { asset_id: token, ask },
            prices,
        )[token] == prices[0]->0,
        prices[0] is None ==> applied(asks, WsView::BestBidAsk { asset_id: token, ask }, prices)
            == asks,
        applied(asks, WsView::BestBidAsk { asset_id: token, ask }, prices).contains_key(other)
            <==> asks.contains_key(other),
        asks.contains_key(other) ==> applied(
            asks,
            WsView::BestBidAsk { asset_id: token, ask },
            prices,
        )[other] == asks[other],
{
}

/// After a book the ask of its token is one of the prices of the book strictly between zero and
/// one, and none of those is lower, whatever the ask was before. Without such a price nothing
/// changes.
pub proof fn law_book_sets_its_lowest_price(
    asks: Map<Seq<char>, Binary64>,
    token: Seq<char>,
    texts: Seq<Seq<char>>,
    prices: Seq<Option<Binary64>>,
    i: int,
)
    requires
        0 <= i < prices.len(),
        prices[i] is Some,
        (Binary64 { bits: 0 }).below(prices[i]->0),
        prices[i]->0.below(Binary64 { bits: 0x3ff0_0000_0000_0000 }),
    ensures
        applied(asks, WsView::Book { asset_id: token, prices: texts }, prices).contains_key(token),
        applied(asks, WsView::Book { asset_id: token, prices: texts }, prices)[token].at_most(
            prices[i]->0,
        ),
        prices.contains(
            Some(applied(asks, WsView::Book { asset_id: token, prices: texts }, prices)[token]),
        ),
        (Binary64 { bits: 0 }).below(
            applied(asks, WsView::Book { asset_id: token, prices: texts }, prices)[token],
        ),
        applied(asks, WsView::Book { asset_id: token, prices: texts }, prices)[token].below(
            Binary64 { bits: 0x3ff0_0000_0000_0000 },
        ),
        forall|other: Seq<char>|
            other != token ==> (#[trigger] applied(
                asks,
                WsView::Book { asset_id: token, prices: texts },
                prices,
            ).contains_key(other) <==> asks.contains_key(other)) && (asks.contains_key(other)
                ==> applied(asks, WsView::Book { asset_id: token, prices: texts }, prices)[other]
                == asks[other]),
{
    law_best_level_is_lowest(prices);
    assert(level_price(prices[i]->0));
}

/// A book without a price strictly between zero and one changes nothing.
pub proof fn law_empty_book_changes_nothing(
    asks: Map<Seq<char>, Binary64>,
    token: Seq<char>,
    texts: Seq<Seq<char>>,
    prices: Seq<Option<Binary64>>,
)
    requires
        forall|i: int|
            0 <= i < prices.len() && (#[trigger] prices[i]) is Some ==> !((Binary64 {
                bits: 0,
            }).below(prices[i]->0) && prices[i]->0.below(Binary64 { bits: 0x3ff0_0000_0000_0000 })),
    ensures
        best_level(prices) is None,
        applied(asks, WsView::Book { asset_id: token, prices: texts }, prices) == asks,
{
    law_best_level_is_lowest(prices);
    if best_level(prices) is Some {
        let b = best_level(prices)->0;
        let i = choose|i: int| 0 <= i < prices.len() && prices[i] == Some(b);
        assert(prices[i] is Some);
    }
}

/// The best level of a book is one of its prices strictly between zero and one, and none of those
/// is lower.
pub proof fn law_best_level_is_between_zero_and_one(prices: Seq<Option<Binary64>>, i: int)
    requires
        0 <= i < prices.len(),
        prices[i] is Some,
        (Binary64 { bits: 0 }).below(prices[i]->0),
        prices[i]->0.below(Binary64 { bits: 0x3ff0_0000_0000_0000 }),
    ensures
        best_level(prices) is Some,
        prices.contains(best_level(prices)),
        best_level(prices)->0.at_most(prices[i]->0),
        (Binary64 { bits: 0 }).below(best_level(prices)->0),
        best_level(prices)->0.below(Binary64 { bits: 0x3ff0_0000_0000_0000 }),
{
    law_best_level_is_lowest(prices);
    assert(level_price(prices[i]->0));
}

/// After price changes the ask of a token is the price of the last change of that token with a
/// price above zero, whatever the ask was before.
pub proof fn law_last_change_sets_the_ask(
    asks: Map<Seq<char>, Binary64>,
    assets: Seq<Seq<char>>,
    texts: Seq<Seq<char>>,
    prices: Seq<Option<Binary64>>,
    i: int,
)
    requires
        assets.len() == prices.len(),
        0 <= i < assets.len(),
        prices[i] is Some,
        (Binary64 { bits: 0 }).below(prices[i]->0),
        forall|j: int|
            i < j < assets.len() && #[trigger] assets[j] == assets[i] && prices[j] is Some ==> !(
            Binary64 { bits: 0 }).below(prices[j]->0),
    ensures
        applied(asks, WsView::PriceChange { assets, asks: texts }, prices).contains_key(assets[i]),
        applied(asks, WsView::PriceChange { assets, asks: texts }, prices)[assets[i]]
            == prices[i]->0,
    decreases assets.len(),
{
    let last = assets.len() - 1;
    if i < last {
        let front = assets.drop_last();
        let front_prices = prices.drop_last();
        assert(front[i] == assets[i] && front_prices[i] == prices[i]);
        assert forall|j: int|
            i < j < front.len() && #[trigger] front[j] == front[i] && front_prices[j]
                is Some implies !(Binary64 { bits: 0 }).below(front_prices[j]->0) by {
            assert(assets[j] == front[j] && front_prices[j] == prices[j]);
        }
        law_last_change_sets_the_ask(asks, front, texts, front_prices, i);
        assert(assets[last] == assets.last() && prices[last] == prices.last());
    }
}

/// Price changes that name a token with no price above zero leave its ask as it was.
pub proof fn law_changes_without_price_keep_the_ask(
    asks: Map<Seq<char>, Binary64>,
    assets: Seq<Seq<char>>,
    texts: Seq<Seq<char>>,
    prices: Seq<Option<Binary64>>,
    token: Seq<char>,
)
    requires
        assets.len() == prices.len(),
        forall|j: int|
            0 <= j < assets.len() && #[trigger] assets[j] == token && prices[j] is Some ==> !(
            Binary64 { bits: 0 }).below(prices[j]->0),
    ensures
        applied(asks, WsView::PriceChange { assets, asks: texts }, prices).contains_key(token)
            <==> asks.contains_key(token),
        asks.contains_key(token) ==> applied(
            asks,
            WsView::PriceChange { assets, asks: texts },
            prices,
        )[token] == asks[token],
        applied(asks, WsView::Ignored, prices) == asks,
    decreases assets.len(),
{
    if assets.len() > 0 {
        let front = assets.drop_last();
        let front_prices = prices.drop_last();
        let last = assets.len() - 1;
        assert forall|j: int|
            0 <= j < front.len() && #[trigger] front[j] == token && front_prices[j]
                is Some implies !(Binary64 { bits: 0 }).below(front_prices[j]->0) by {
            assert(assets[j] == front[j] && front_prices[j] == prices[j]);
        }
        law_changes_without_price_keep_the_ask(asks, front, texts, front_prices, token);
        assert(assets[last] == assets.last() && prices[last] == prices.last());
    }
}

/// A best bid and ask is read as one where it names a token and an ask, a book where it names a
/// token and levels, and price changes where there are any; every other message is ignored.
pub proof fn law_messages_are_read_by_their_type(raw: RawView)
    ensures
        raw.event_type == Some("best_bid_ask"@) && raw.asset_id is Some && raw.best_ask is Some
            ==> decoded(raw) == (WsView::BestBidAsk {
            asset_id: raw.asset_id->0,
            ask: raw.best_ask->0,
        }),
        raw.event_type == Some("book"@) && raw.asset_id is Some && raw.asks is Some ==> decoded(raw)
            is Book && decoded(raw)->Book_asset_id == raw.asset_id->0 && decoded(raw)->prices
            == present(raw.asks->0),
        raw.event_type == Some("price_change"@) && raw.price_changes is Some ==> decoded(raw)
            is PriceChange && decoded(raw)->assets == change_assets(raw.price_changes->0)
            && decoded(raw)->asks == change_asks(raw.price_changes->0),
        decoded(raw) is BestBidAsk ==> raw.event_type == Some("best_bid_ask"@) && raw.asset_id
            is Some && raw.best_ask is Some,
        decoded(raw) is Book ==> raw.event_type == Some("book"@) && raw.asset_id is Some && raw.asks
            is Some,
        decoded(raw) is PriceChange ==> raw.event_type == Some("price_change"@)
            && raw.price_changes is Some,
{
    lemma_event_types_differ();
}

/// Of the levels of a book those with a price are read, each behind those before it.
pub proof fn law_levels_with_a_price_are_read(
    levels: Seq<Option<Seq<char>>>,
    level: Option<Seq<char>>,
)
    ensures
        present(Seq::<Option<Seq<char>>>::empty()) == Seq::<Seq<char>>::empty(),
        level is Some ==> present(levels.push(level)) == present(levels).push(level->0),
        level is None ==> present(levels.push(level)) == present(levels),
{
    assert(levels.push(level).drop_last() =~= levels);
}

/// Of the changes those with a token and a best ask are read, each behind those before it.
pub proof fn law_changes_with_token_and_ask_are_read(
    changes: Seq<(Option<Seq<char>>, Option<Seq<char>>)>,
    change: (Option<Seq<char>>, Option<Seq<char>>),
)
    ensures
        change_assets(Seq::<(Option<Seq<char>>, Option<Seq<char>>)>::empty())
            == Seq::<Seq<char>>::empty(),
        change_asks(Seq::<(Option<Seq<char>>, Option<Seq<char>>)>::empty())
            == Seq::<Seq<char>>::empty(),
        change.0 is Some && change.1 is Some ==> change_assets(changes.push(change))
            == change_assets(changes).push(change.0->0) && change_asks(changes.push(change))
            == change_asks(changes).push(change.1->0),
        change.0 is None || change.1 is None ==> change_assets(changes.push(change))
            == change_assets(changes) && change_asks(changes.push(change)) == change_asks(changes),
{
    assert(changes.push(change).drop_last() =~= changes);
}

/// The fields of a message are the strings and lists under their names, and for each level and
/// each change the strings under theirs.
pub proof fn law_message_fields(doc: Seq<char>, items: Seq<Seq<char>>, i: int)
    requires
        0 <= i < items.len(),
    ensures
        raw_message(doc).event_type == json::text_field(doc, "event_type"@),
        raw_message(doc).asset_id == json::text_field(doc, "asset_id"@),
        raw_message(doc).best_ask == json::text_field(doc, "best_ask"@),
        json::items_field(doc, "asks"@) == Some(items) ==> raw_message(doc).asks is Some
            && raw_message(doc).asks->0.len() == items.len() && raw_message(doc).asks->0[i]
            == json::text_field(items[i], "price"@),
        json::items_field(doc, "asks"@) is None ==> raw_message(doc).asks is None,
        json::items_field(doc, "price_changes"@) == Some(items) ==> raw_message(doc).price_changes
            is Some && raw_message(doc).price_changes->0.len() == items.len() && raw_message(
            doc,
        ).price_changes->0[i].0 == json::text_field(items[i], "asset_id"@) && raw_message(
            doc,
        ).price_changes->0[i].1 == json::text_field(items[i], "best_ask"@),
        json::items_field(doc, "price_changes"@) is None ==> raw_message(doc).price_changes is None,
{
}

/// The market of a symbol is what is listed at the last place of the symbol at which something
/// is, with the slug of that place; a symbol for which nothing is listed has none.
pub proof fn law_last_listing_is_registered(
    symbols: Seq<Seq<char>>,
    slugs: Seq<Seq<char>>,
    listings: Seq<Option<MarketListing>>,
    i: int,
)
    requires
        symbols.len() == slugs.len(),
        symbols.len() == listings.len(),
        0 <= i < symbols.len(),
        listings[i] is Some,
        forall|j: int|
            i < j < symbols.len() && #[trigger] symbols[j] == symbols[i] ==> listings[j] is None,
    ensures
        listed_markets(symbols, slugs, listings).contains_key(symbols[i]),
        listed_markets(symbols, slugs, listings)[symbols[i]].symbol == symbols[i],
        listed_markets(symbols, slugs, listings)[symbols[i]].slug == slugs[i],
        listed_markets(symbols, slugs, listings)[symbols[i]].condition_id
            == listings[i]->0.condition_id@,
        listed_markets(symbols, slugs, listings)[symbols[i]].up_token == listings[i]->0.up_token@,
        listed_markets(symbols, slugs, listings)[symbols[i]].down_token
            == listings[i]->0.down_token@,
    decreases symbols.len(),
{
    let last = symbols.len() - 1;
    assert(symbols[last] == symbols.last() && slugs[last] == slugs.last() && listings[last]
        == listings.last());
    if i < last {
        let s = symbols.drop_last();
        let g = slugs.drop_last();
        let l = listings.drop_last();
        assert(s[i] == symbols[i] && g[i] == slugs[i] && l[i] == listings[i]);
        assert forall|j: int| i < j < s.len() && #[trigger] s[j] == s[i] implies l[j] is None by {
            assert(symbols[j] == s[j] && l[j] == listings[j]);
        }
        law_last_listing_is_registered(s, g, l, i);
    }
}

/// A symbol for which nothing is listed has no market.
pub proof fn law_unlisted_symbol_has_no_market(
    symbols: Seq<Seq<char>>,
    slugs: Seq<Seq<char>>,
    listings: Seq<Option<MarketListing>>,
    symbol: Seq<char>,
)
    requires
        symbols.len() == slugs.len(),
        symbols.len() == listings.len(),
        forall|j: int|
            0 <= j < symbols.len() && #[trigger] symbols[j] == symbol ==> listings[j] is None,
    ensures
        !listed_markets(symbols, slugs, listings).contains_key(symbol),
    decreases symbols.len(),
{
    if symbols.len() > 0 {
        let last = symbols.len() - 1;
        assert(symbols[last] == symbols.last() && listings[last] == listings.last());
        let s = symbols.drop_last();
        let l = listings.drop_last();
        assert forall|j: int| 0 <= j < s.len() && #[trigger] s[j] == symbol implies l[j] is None by {
            assert(symbols[j] == s[j] && l[j] == listings[j]);
        }
        law_unlisted_symbol_has_no_market(s, slugs.drop_last(), l, symbol);
    }
}

/// The slug that is registered for a symbol is that of its market in the period.
pub proof fn law_registered_slugs(symbols: Seq<Seq<char>>, period_start: int, i: int)
    requires
        0 <= i < symbols.len(),
    ensures
        slugs_of(symbols, period_start).len() == symbols.len(),
        slugs_of(symbols, period_start)[i] == text::lowercase(symbols[i]) + "-updown-5m-"@
            + text::decimal(period_start),
        ascii_slugs_of(symbols, period_start).len() == symbols.len(),
        ascii_slugs_of(symbols, period_start)[i] == text::ascii_lowercase(symbols[i])
            + "-updown-5m-"@ + text::decimal(period_start),
{
}

/// The listing of a registry has the markets that it holds, each with its own fields.
pub proof fn law_listing_is_what_is_held(registry: MarketTokenRegistry, symbol: Seq<char>)
    ensures
        registry.listing().contains_key(symbol) <==> registry.markets@.contains_key(symbol),
        registry.listing().contains_key(symbol) ==> registry.listing()[symbol].symbol
            == registry.markets@[symbol].symbol@ && registry.listing()[symbol].slug
            == registry.markets@[symbol].slug@ && registry.listing()[symbol].condition_id
            == registry.markets@[symbol].condition_id@ && registry.listing()[symbol].up_token
            == registry.markets@[symbol].up_token@ && registry.listing()[symbol].down_token
            == registry.markets@[symbol].down_token@,
{
}

/// The tokens to subscribe to are, for each market in turn, its Up and its Down token.
pub proof fn law_both_tokens_of_each_market(entries: Seq<(String, SymbolMarketTokens)>, i: int)
    requires
        0 <= i < entries.len(),
    ensures
        token_ids(entries).len() == 2 * entries.len(),
        token_ids(entries)[2 * i] == entries[i].1.up_token@,
        token_ids(entries)[2 * i + 1] == entries[i].1.down_token@,
{
}

/// A registry serves a period exactly where it is of that period and holds a market.
pub proof fn law_registry_serves_its_period(registry: MarketTokenRegistry, period_start: int)
    ensures
        registry.current_for(period_start) <==> registry.period_start == period_start
            && registry.markets.entries().len() > 0,
{
}

/// The address of the channel is the base, without the slashes at its end, and the path.
pub proof fn law_channel_is_below_the_base(base: Seq<char>, slashes: Seq<char>)
    requires
        base.len() > 0 ==> base.last() != '/',
        forall|i: int| 0 <= i < slashes.len() ==> #[trigger] slashes[i] == '/',
    ensures
        market_channel(base + slashes) == base + "/ws/market"@,
    decreases slashes.len(),
{
    if slashes.len() == 0 {
        assert(base + slashes =~= base);
    } else {
        let fewer = slashes.drop_last();
        assert forall|i: int| 0 <= i < fewer.len() implies #[trigger] fewer[i] == '/' by {
            assert(slashes[i] == '/');
        }
        assert(slashes[slashes.len() - 1] == '/');
        assert((base + slashes).drop_last() =~= base + fewer);
        assert((base + slashes).last() == '/');
        law_channel_is_below_the_base(base, fewer);
    }
}

/// The ids of a list are those that stand somewhere in it.
pub proof fn law_ids_of_a_list(ids: Seq<String>, id: Seq<char>)
    ensures
        id_set(ids).contains(id) <==> exists|i: int| 0 <= i < ids.len() && (#[trigger] ids[i])@ == id,
{
    if id_set(ids).contains(id) {
        let i = choose|i: int| 0 <= i < text::views(ids).len() && text::views(ids)[i] == id;
        assert(ids[i]@ == id);
    }
    if exists|i: int| 0 <= i < ids.len() && (#[trigger] ids[i])@ == id {
        let i = choose|i: int| 0 <= i < ids.len() && (#[trigger] ids[i])@ == id;
        assert(text::views(ids)[i] == id);
    }
}

/// A subscription names the tokens, the market channel and the feature.
pub proof fn law_subscription_names_the_tokens(ids: Seq<Seq<char>>)
    ensures
        subscription(ids) == seq![
            ("assets_ids"@, json::JsonFieldView::Texts(ids)),
            ("type"@, json::JsonFieldView::Text("market"@)),
            ("custom_feature_enabled"@, json::JsonFieldView::Flag(true)),
        ],
{
}

/// The model of a message is made of the texts that it holds, each in its place.
pub proof fn law_message_models_hold_the_texts(
    asset_id: String,
    ask: String,
    assets: Vec<String>,
    prices: Vec<String>,
    i: int,
)
    ensures
        (WsMessage::BestBidAsk { asset_id, ask })@ == (WsView::BestBidAsk {
            asset_id: asset_id@,
            ask: ask@,
        }),
        WsMessage::Ignored@ == WsView::Ignored,
        (WsMessage::Book { asset_id, prices })@ is Book,
        (WsMessage::Book { asset_id, prices })@->Book_asset_id == asset_id@,
        (WsMessage::Book { asset_id, prices })@->prices.len() == prices@.len(),
        0 <= i < prices@.len() ==> (WsMessage::Book { asset_id, prices })@->prices[i]
            == prices@[i]@,
        (WsMessage::PriceChange { assets, asks: prices })@ is PriceChange,
        (WsMessage::PriceChange { assets, asks: prices })@->assets.len() == assets@.len(),
        (WsMessage::PriceChange { assets, asks: prices })@->asks.len() == prices@.len(),
        0 <= i < assets@.len() ==> (WsMessage::PriceChange { assets, asks: prices })@->assets[i]
            == assets@[i]@,
        0 <= i < prices@.len() ==> (WsMessage::PriceChange { assets, asks: prices })@->asks[i]
            == prices@[i]@,
{
}

/// The model of the fields of a message is made of the texts that they hold, each in its place.
pub proof fn law_field_models_hold_the_texts(
    raw: RawMessage,
    levels: Vec<Option<String>>,
    changes: Vec<(Option<String>, Option<String>)>,
    i: int,
)
    ensures
        raw@.event_type == text::opt_view(raw.event_type),
        raw@.asset_id == text::opt_view(raw.asset_id),
        raw@.best_ask == text::opt_view(raw.best_ask),
        raw@.asks is Some <==> raw.asks is Some,
        raw@.price_changes is Some <==> raw.price_changes is Some,
        raw.asks == Some(levels) ==> raw@.asks->0.len() == levels@.len(),
        raw.asks == Some(levels) && 0 <= i < levels@.len() ==> raw@.asks->0[i] == text::opt_view(
            levels@[i],
        ),
        raw.price_changes == Some(changes) ==> raw@.price_changes->0.len() == changes@.len(),
        raw.price_changes == Some(changes) && 0 <= i < changes@.len() ==> raw@.price_changes->0[i]
            == (text::opt_view(changes@[i].0), text::opt_view(changes@[i].1)),
{
}

/// There is a price for each that a message writes: one for a best bid and ask, one for each level
/// and one for each change.
pub proof fn law_prices_of_a_message(
    token: Seq<char>,
    ask: Seq<char>,
    texts: Seq<Seq<char>>,
    assets: Seq<Seq<char>>,
    prices: Seq<Option<Binary64>>,
)
    ensures
        priced(WsView::BestBidAsk { asset_id: token, ask }, prices) <==> prices.len() == 1,
        priced(WsView::Book { asset_id: token, prices: texts }, prices) <==> prices.len()
            == texts.len(),
        priced(WsView::PriceChange { assets, asks: texts }, prices) <==> prices.len() == texts.len()
            && assets.len() == texts.len(),
        priced(WsView::Ignored, prices) <==> prices.len() == 0,
{
}

/// The error names the period.
pub proof fn law_missing_markets_are_told_with_the_period(period_start: i64)
    ensures
        (NoActiveMarkets { period_start }).text() == "No active 5m markets for period "@
            + text::decimal(period_start as int),
{
}

} // verus!
