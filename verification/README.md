# matching_engine

A limit order book and matching engine, verified with Verus, together with the pure logic
of its two load-testing tools.

## Layout

- `src/decimal.rs` — decimals held as mantissa and scale; comparison and checked arithmetic
  are computed by `rust_decimal` behind trusted wrappers.
- `src/domain/` — orders and their state changes (fill, cancel, amend).
- `src/engine/` — the order book (price-time priority), the matching engine (place, cancel,
  amend, numbered results), the dispatcher that routes commands to per-symbol engines, the
  publisher health flag, and `laws.rs` with the properties proved across operations.
- `src/runtime_stress/`, `src/integration_stress/` — option parsing, workload generation,
  counters, latency correlation and percentiles, report helpers.
- `src/text.rs`, `src/sample_stats.rs` — decimal text, parsing of unsigned integers,
  sums and nearest-rank percentiles.
- `app/` — the runtime stress program: engine threads, result publishing with retries,
  the timed run loop, and the printed summaries (which use floating point).
- `tests/` — behaviour tests of the library.
