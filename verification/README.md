# quant_trading_system

Market data core of a quantitative trading system: L2 order books, AMM
pools with constant-product quotes, arbitrage detection between the two,
a registry of books and pools shared between threads, and the building of
market events from the fields of feed messages.

- `src/` is the library, written in Verus and proved by it.  Its
  contracts speak of a mathematical model: decimals as `(mantissa, scale)`
  pairs, price levels as maps, message rows as sequences of texts.  Books,
  pools and registries shared between threads sit behind locks, so their
  contracts say what holds of whatever state a call finds; the logic on
  plain states and on what was read has exact contracts.  Calls into `rust_decimal`, `chrono` and std that the
  logic needs stand behind small trusted wrappers whose contracts say what
  those crates do.
- `app/` is the program around it: JSON decoding, files, the tokio stream
  ingesters, logging setup, the metrics exporter and the HTTP API.
- `tests/` exercises the library on concrete values.
