# quant_trader

A SOL-USDT turtle-trading system. The decision logic is a Verus-verified
library under `src/`; the console program, storage, network clients and the
floating-point accounting live in `app/`.

- `src/ieee.rs`: ordering, `max` and `min` of doubles given by their bit
  patterns; prices, volumes and ratios travel through the library this way.
- `src/types.rs`, `src/error.rs`: market data, strategy parameters, errors.
- `src/strategy.rs`: channel highs and lows, entry and exit signals, the
  analysis of a candle series, indicator availability, parameter checks, and
  the laws proved about them.
- `src/manager.rs`: the strategy registry, signal routing and the signal
  series of a backtest.
- `src/feed.rs`, `src/text.rs`: ticker timestamps, decoding of REST candle
  pages, the history backfill, websocket session decisions, row ordering, the
  console menu, and `i64` parsing.
- `app/`: SQLite storage, websocket and REST clients, ATR, confidence,
  position sizing, balances, positions and the backtest report.
