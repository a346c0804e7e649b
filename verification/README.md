# momentum-bot

A momentum strategy for 5-minute Up/Down markets, with its logic verified by Verus.

The bot watches crypto mid-prices. When a symbol's price moves by its threshold within its
lookback, the bot buys the Up or the Down token of the symbol's current market at the current
ask, at most once in each market, and keeps track of fills, resolutions and earnings.

- `src/` is the library `momentum_bot`: every decision of the bot, with contracts and proofs.
  - `strategy`: signals, cooldowns, and a trade from its start to its order
  - `binance`: symbols, streams, quotes, and the price history that momentum is measured on
  - `discovery`: periods in New York time, slugs, and the tokens of a market
  - `market_prices`: asks, the registry of markets, and the messages of the market channel
  - `performance`: fills, resolutions, statistics, and the watch over an order
  - `trade_cache`: the markets that take no further order
  - `config`: the configuration and its standard values
  - `reconnect`: the backoff of failed connections
  - `models`: sides and orders
  - `binary64`, `clock`, `json`, `text`, `text_map`: what the rest is built on
- `app/` holds what surrounds the library: connections, files, clocks, logging, and the
  floating-point arithmetic. The library carries floating-point numbers by their bits and compares
  them as IEEE 754 does.
- `tests/` runs the library on concrete values.

Calls into other crates stand behind small functions whose contracts are assumed. Each says in
its comment which function it calls and what is assumed of it. The public functions named `law_…`
state what holds of the library as a whole.
