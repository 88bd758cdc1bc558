# bangida

A crypto futures scalping system whose core logic is verified with Verus.

- `src/` is the verified library. Every function states its behaviour in
  `requires`/`ensures` over mathematical models (decimals as exact values,
  order books as ladders, trackers and exchanges as plain state), and the
  laws that span several calls are proof functions next to the code they
  speak of (for example: a fill never drives the remaining quantity below
  zero, a loss streak at the limit halts trading at once, reconnect delays
  double up to 30 s, every page of a download moves forward in time).
- Calls into `rust_decimal`, `chrono`, `hmac`/`sha2`/`hex`, `dashmap` and a
  few `std` functions go through small trusted wrappers whose contracts say
  what those crates document.
- `app/` holds what stays outside verification: the REST and WebSocket
  connections, the SQLite journal, configuration loading, and everything
  that computes in floating point (indicators, strategies, features,
  performance reports).
- `tests/` runs the library on concrete values.
