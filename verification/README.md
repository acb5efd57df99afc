# lossfunction

An automated trading core for Korean equities on the KIS Open API, with
its behaviour stated as contracts and proved by Verus.

- `src/` — the verified library: exact decimals and symbols, orders and
  their lifecycle state machine, the order gateway and reconciliation,
  portfolio accounting, pre-trade risk checks and the kill switch,
  strategies and their decisions, the backtest engine and walk-forward
  selection, the in-memory paper venue, the settings and broker-assembly
  rules, the KIS request/response rules (tokens, REST verdicts, chart
  windows, the real-time frame format, subscriptions), and the operator
  pages: the shared chrome, the overview, the watchlist and the
  per-symbol page, with every stored text escaped. Calls into `rust_decimal`, `chrono`,
  `serde_json` and `reqwest` stand behind small trusted wrappers whose
  contracts say what the library relies on.
- `app/` — the program around it: environment and `.env` reading, SQLite
  storage, HTTP and WebSocket transport, the async trading runtime and its
  paper loops, background jobs, the web server and the remaining tab pages, and the
  few computations done in floating point (Bollinger band width, chart
  scaling, the demo random walk, the analysis confidence score).
- `tests/` — the test suite, run against the compiled library.

Paper trading is the default; live trading refuses to load without the
explicit confirmation on the real domain (`config::loaded_live_is_confirmed`,
`runtime::assembly::venues_respect_the_trading_mode`).
