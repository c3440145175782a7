# mantis_ta

Technical analysis and strategy composition, with the decision logic verified by Verus.

## Layout

- `src/` — the verified library:
  - `utils/ringbuf.rs`: fixed-capacity ring buffer that keeps the last `capacity` values;
  - `utils/decimal.rs`: decimal rendering and parsing of `usize` values;
  - `strategy/`: indicator references and the names they build, the grammar
    that reads those names back, condition trees, validation of strategies
    (including indicator periods and opposed bounds), Kleene evaluation of
    condition trees, the per-bar signal rule and the set of indicators a
    strategy needs;
  - `backtest/`: order placement and fill decisions for both execution models,
    end-of-run liquidation, candle-series checks and run warnings;
  - `types/`: signals, sides, exit reasons, timeframes and the error type.
- `app/` — everything that computes on floating point (indicators, condition
  operators, portfolio accounting, metrics), the serde representations and the
  `thiserror` error type; it calls the library for every decision above.
- `tests/` — tests of the library's public functions.

Run `verus` on `src/lib.rs` to check the proofs.
