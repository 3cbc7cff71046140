# quant_engine

The verified core of an event-driven quant trading engine, written in Verus.

- `src/` — the library, every function verified:
  - `state_machine` — the order lifecycle (New → Submitted → Acknowledged →
    PartiallyFilled → Filled, with Cancelled and Rejected), keyed by order id;
    terminal states are final, transitions touch one order only.
  - `throttle` — the orders-per-second limiter; proved never to grant more than
    its limit within any one-second window, for clock readings that never go
    backwards (the monotonic clock promises this; the proof assumes it of the
    readings, it is not stated of the clock).
  - `executor` — what happens to a sized, risk-checked signal: skipped for no
    lots, for a risk refusal, for the throttle, or recorded as a submitted order.
  - `freshness` — signal fusion waits until all four analysis engines have
    sent a recent event.
  - `window` — bounded rolling buffers used by the analysis engines.
  - `events`, `subjects`, `ids` — the shared vocabulary, bus subjects and
    order-id text.
- `tests/` — tests of the library.
- `app/` — the runner: message-bus plumbing, serde types, and the
  floating-point analytics (HMM, GARCH, Hurst, Kalman, regression,
  Mann-Kendall, changepoint detection, CUSUM, ATR, Kelly sizing, risk limits,
  Bayesian fusion), which call into the library for their buffers and
  decisions.
