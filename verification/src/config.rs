//! The configuration of the bot and its defaults.

use crate::binary64::Binary64;
use crate::text;
use crate::text_map::TextMap;
use vstd::prelude::*;

verus! {

/// 0.50
pub const DEFAULT_LIMIT_PRICE_BITS: u64 = 0x3fe0_0000_0000_0000;

/// 30.0
pub const DEFAULT_TRADE_AMOUNT_BITS: u64 = 0x403e_0000_0000_0000;

/// 5.0
pub const DEFAULT_TRADE_SHARES_BITS: u64 = 0x4014_0000_0000_0000;

/// 0.98
pub const DEFAULT_MAX_ASK_BITS: u64 = 0x3fef_5c28_f5c2_8f5c;

/// 120.0
pub const DEFAULT_BTC_MOVE_BITS: u64 = 0x405e_0000_0000_0000;

/// 15.0
pub const DEFAULT_ETH_MOVE_BITS: u64 = 0x402e_0000_0000_0000;

/// 4.0
pub const DEFAULT_SOL_MOVE_BITS: u64 = 0x4010_0000_0000_0000;

/// 0.05
pub const DEFAULT_XRP_MOVE_BITS: u64 = 0x3fa9_9999_9999_999a;

/// The arguments of the command line.
#[derive(Debug, Clone)]
pub struct Args {
    /// The path of the configuration file.
    pub config: String,
    pub redeem: bool,
    pub condition_id: Option<String>,
}

/// The configuration.
#[derive(Debug, Clone)]
pub struct Config {
    pub polymarket: PolymarketConfig,
    pub strategy: StrategyConfig,
}

/// The momentum threshold of a symbol: its price must move by at least `price_change_usd`, up or
/// down, within `lookback_secs`.
#[derive(Debug, Clone, Copy, PartialEq, Eq, Structural)]
pub struct SymbolMomentumConfig {
    pub price_change_usd: Binary64,
    pub lookback_secs: u64,
}

/// The momentum strategy: price feed, signal, limit buy of Up or Down at the current ask, cancel
/// after some seconds.
#[derive(Debug, Clone)]
pub struct StrategyConfig {
    pub symbols: Vec<String>,
    pub simulation_mode: bool,
    /// The momentum thresholds by symbol.
    pub momentum: TextMap<SymbolMomentumConfig>,
    /// Not used: the limit price is the current ask.
    pub limit_price: Binary64,
    /// The number of shares of each order.
    pub trade_shares: Binary64,
    /// Not used: the notional is the number of shares times the limit price.
    pub trade_amount_usd: Binary64,
    /// An order that is not filled after so many seconds is cancelled.
    pub cancel_after_secs: u64,
    /// No trade is made at an ask above this.
    pub max_ask_price: Binary64,
    /// The least number of seconds between two signals of a symbol.
    pub signal_cooldown_secs: u64,
    /// Where buys are logged.
    pub trades_log: Option<String>,
    /// The seconds between two checks for resolved markets.
    pub resolution_check_secs: u64,
    /// Where fills and resolutions are logged.
    pub performance_log: Option<String>,
}

/// Where the exchange is, and who trades there.
#[derive(Debug, Clone)]
pub struct PolymarketConfig {
    pub gamma_api_url: String,
    pub clob_api_url: String,
    pub api_key: Option<String>,
    pub api_secret: Option<String>,
    pub api_passphrase: Option<String>,
    pub private_key: Option<String>,
    pub proxy_wallet_address: Option<String>,
    pub signature_type: Option<u8>,
    pub rpc_url: Option<String>,
    pub ws_url: String,
}

pub fn default_resolution_check_secs() -> (r: u64)
    ensures
        r == 30,
{
    30
}

pub fn default_performance_log() -> (r: Option<String>)
    ensures
        r matches Some(path) && path@ == "performance.log"@,
{
    Some("performance.log".to_owned())
}

/// The symbols that are traded where none are named.
pub open spec fn standard_symbols() -> Seq<Seq<char>> {
    seq!["btc"@, "eth"@, "sol"@, "xrp"@]
}

pub fn default_symbols() -> (r: Vec<String>)
    ensures
        text::views(r@) == standard_symbols(),
{
    let mut symbols: Vec<String> = Vec::new();
    symbols.push("btc".to_owned());
    symbols.push("eth".to_owned());
    symbols.push("sol".to_owned());
    symbols.push("xrp".to_owned());
    assert(text::views(symbols@) =~= standard_symbols());
    symbols
}

pub fn default_lookback_secs() -> (r: u64)
    ensures
        r == 60,
{
    60
}

pub fn default_limit_price() -> (r: Binary64)
    ensures
        r.bits == DEFAULT_LIMIT_PRICE_BITS,
{
    Binary64::from_bits(DEFAULT_LIMIT_PRICE_BITS)
}

pub fn default_trade_amount_usd() -> (r: Binary64)
    ensures
        r.bits == DEFAULT_TRADE_AMOUNT_BITS,
{
    Binary64::from_bits(DEFAULT_TRADE_AMOUNT_BITS)
}

pub fn default_trade_shares() -> (r: Binary64)
    ensures
        r.bits == DEFAULT_TRADE_SHARES_BITS,
{
    Binary64::from_bits(DEFAULT_TRADE_SHARES_BITS)
}

pub fn default_cancel_after_secs() -> (r: u64)
    ensures
        r == 4,
{
    4
}

pub fn default_max_ask_price() -> (r: Binary64)
    ensures
        r.bits == DEFAULT_MAX_ASK_BITS,
{
    Binary64::from_bits(DEFAULT_MAX_ASK_BITS)
}

pub fn default_signal_cooldown_secs() -> (r: u64)
    ensures
        r == 60,
{
    60
}

/// A threshold over the usual minute.
pub open spec fn minute_threshold(price_change_bits: u64) -> SymbolMomentumConfig {
    SymbolMomentumConfig {
        price_change_usd: Binary64 { bits: price_change_bits },
        lookback_secs: 60,
    }
}

/// The thresholds where none are set.
pub open spec fn standard_thresholds() -> Map<Seq<char>, SymbolMomentumConfig> {
    Map::empty().insert("btc"@, minute_threshold(DEFAULT_BTC_MOVE_BITS)).insert(
        "eth"@,
        minute_threshold(DEFAULT_ETH_MOVE_BITS),
    ).insert("sol"@, minute_threshold(DEFAULT_SOL_MOVE_BITS)).insert(
        "xrp"@,
        minute_threshold(DEFAULT_XRP_MOVE_BITS),
    )
}

fn threshold(price_change_bits: u64) -> (r: SymbolMomentumConfig)
    ensures
        r == minute_threshold(price_change_bits),
{
    SymbolMomentumConfig {
        price_change_usd: Binary64::from_bits(price_change_bits),
        lookback_secs: 60,
    }
}

pub fn default_momentum_thresholds() -> (r: TextMap<SymbolMomentumConfig>)
    ensures
        r.wf(),
        r@ == standard_thresholds(),
{
    let mut m: TextMap<SymbolMomentumConfig> = TextMap::new();
    m.insert("btc".to_owned(), threshold(DEFAULT_BTC_MOVE_BITS));
    m.insert("eth".to_owned(), threshold(DEFAULT_ETH_MOVE_BITS));
    m.insert("sol".to_owned(), threshold(DEFAULT_SOL_MOVE_BITS));
    m.insert("xrp".to_owned(), threshold(DEFAULT_XRP_MOVE_BITS));
    m
}

pub fn default_ws_url() -> (r: String)
    ensures
        r@ == "wss://ws-subscriptions-clob.polymarket.com"@,
{
    "wss://ws-subscriptions-clob.polymarket.com".to_owned()
}

impl PolymarketConfig {
    /// The public services, and nobody who trades there.
    pub open spec fn is_standard(&self) -> bool {
        &&& self.gamma_api_url@ == "https://gamma-api.polymarket.com"@
        &&& self.clob_api_url@ == "https://clob.polymarket.com"@
        &&& self.api_key is None
        &&& self.api_secret is None
        &&& self.api_passphrase is None
        &&& self.private_key is None
        &&& self.proxy_wallet_address is None
        &&& self.signature_type is None
        &&& self.rpc_url is None
        &&& self.ws_url@ == "wss://ws-subscriptions-clob.polymarket.com"@
    }
}

impl StrategyConfig {
    /// Every field is at its default.
    pub open spec fn is_standard(&self) -> bool {
        &&& text::views(self.symbols@) == standard_symbols()
        &&& !self.simulation_mode
        &&& self.momentum@ == standard_thresholds()
        &&& self.limit_price.bits == DEFAULT_LIMIT_PRICE_BITS
        &&& self.trade_shares.bits == DEFAULT_TRADE_SHARES_BITS
        &&& self.trade_amount_usd.bits == DEFAULT_TRADE_AMOUNT_BITS
        &&& self.cancel_after_secs == 4
        &&& self.max_ask_price.bits == DEFAULT_MAX_ASK_BITS
        &&& self.signal_cooldown_secs == 60
        &&& self.trades_log is None
        &&& self.resolution_check_secs == 30
        &&& text::opt_view(self.performance_log) == Some("performance.log"@)
    }
}

impl Default for Config {
    fn default() -> (r: Config)
        ensures
            r.wf(),
            r.polymarket.is_standard(),
            r.strategy.is_standard(),
    {
        Config {
            polymarket: PolymarketConfig {
                gamma_api_url: "https://gamma-api.polymarket.com".to_owned(),
                clob_api_url: "https://clob.polymarket.com".to_owned(),
                api_key: None,
                api_secret: None,
                api_passphrase: None,
                private_key: None,
                proxy_wallet_address: None,
                signature_type: None,
                rpc_url: None,
                ws_url: default_ws_url(),
            },
            strategy: StrategyConfig {
                symbols: default_symbols(),
                simulation_mode: false,
                momentum: default_momentum_thresholds(),
                limit_price: default_limit_price(),
                trade_shares: default_trade_shares(),
                trade_amount_usd: default_trade_amount_usd(),
                cancel_after_secs: default_cancel_after_secs(),
                max_ask_price: default_max_ask_price(),
                signal_cooldown_secs: default_signal_cooldown_secs(),
                trades_log: None,
                resolution_check_secs: default_resolution_check_secs(),
                performance_log: default_performance_log(),
            },
        }
    }
}

impl Config {
    pub open spec fn wf(&self) -> bool {
        self.strategy.momentum.wf()
    }

    /// The momentum threshold of a symbol. The symbol is looked up in lowercase.
    pub fn momentum_for(&self, symbol: &str) -> (r: Option<&SymbolMomentumConfig>)
        requires
            self.wf(),
        ensures
            match r {
                Some(m) => self.strategy.momentum@.contains_key(text::lowercase(symbol@)) && *m
                    == self.strategy.momentum@[text::lowercase(symbol@)],
                None => !self.strategy.momentum@.contains_key(text::lowercase(symbol@)),
            },
            text::ascii(symbol@) ==> (match r {
                Some(m) => self.strategy.momentum@.contains_key(text::ascii_lowercase(symbol@))
                    && *m == self.strategy.momentum@[text::ascii_lowercase(symbol@)],
                None => !self.strategy.momentum@.contains_key(text::ascii_lowercase(symbol@)),
            }),
    {
        let lowered = symbol.to_lowercase();
        self.strategy.momentum.get(lowered.as_str())
    }
}

/// Every symbol that is traded where none are named has a threshold where none are set.
pub proof fn law_standard_symbols_have_thresholds(i: int)
    requires
        0 <= i < standard_symbols().len(),
    ensures
        standard_thresholds().contains_key(standard_symbols()[i]),
        standard_thresholds()[standard_symbols()[i]].price_change_usd.positive(),
{
}

/// The standard thresholds are moves within a minute: by 120 dollars for btc, 15 for eth, 4 for sol
/// and five cents for xrp. There are no others.
pub proof fn law_standard_thresholds(key: Seq<char>)
    ensures
        standard_thresholds().contains_key(key) <==> key == "btc"@ || key == "eth"@ || key == "sol"@
            || key == "xrp"@,
        standard_thresholds()["btc"@].price_change_usd.bits == 0x405e_0000_0000_0000,
        standard_thresholds()["eth"@].price_change_usd.bits == 0x402e_0000_0000_0000,
        standard_thresholds()["sol"@].price_change_usd.bits == 0x4010_0000_0000_0000,
        standard_thresholds()["xrp"@].price_change_usd.bits == 0x3fa9_9999_9999_999a,
        standard_thresholds().contains_key(key) ==> standard_thresholds()[key].lookback_secs == 60,
{
    reveal_strlit("btc");
    reveal_strlit("eth");
    reveal_strlit("sol");
    reveal_strlit("xrp");
    assert("btc"@[0] == 'b' && "eth"@[0] == 'e' && "sol"@[0] == 's' && "xrp"@[0] == 'x');
}

/// The standard strategy trades for real, five shares at an ask of at most 98 cents, cancels after
/// four seconds and leaves a minute between the signals of a symbol.
pub proof fn law_standard_strategy(strategy: StrategyConfig)
    requires
        strategy.is_standard(),
    ensures
        !strategy.simulation_mode,
        strategy.trade_shares.bits == 0x4014_0000_0000_0000,
        strategy.max_ask_price.bits == 0x3fef_5c28_f5c2_8f5c,
        strategy.limit_price.bits == 0x3fe0_0000_0000_0000,
        strategy.trade_amount_usd.bits == 0x403e_0000_0000_0000,
        strategy.cancel_after_secs == 4,
        strategy.signal_cooldown_secs == 60,
        strategy.resolution_check_secs == 30,
        strategy.trades_log is None,
        text::opt_view(strategy.performance_log) == Some("performance.log"@),
        text::views(strategy.symbols@) == seq!["btc"@, "eth"@, "sol"@, "xrp"@],
        strategy.momentum@ == standard_thresholds(),
{
}

} // verus!
