pub mod binance;
pub mod binary64;
pub mod clock;
pub mod config;
pub mod discovery;
pub mod json;
pub mod market_prices;
pub mod models;
pub mod performance;
pub mod reconnect;
pub mod strategy;
pub mod text;
pub mod text_map;
pub mod trade_cache;
