# tx_engine

A single-threaded transaction processing engine with a verified core.
It reads a CSV of transactions (`type, client, tx, amount`), applies deposits,
withdrawals, disputes, resolutions and chargebacks to per-client accounts, and
writes the final accounts (`client,available,held,total,locked`) as CSV.

## Layout

- `src/` — the library, verified with Verus.
  - `amount.rs` — `Amount`, the plain-value form of a `rust_decimal::Decimal`
    (sign, 96-bit magnitude, scale). Arithmetic and comparison call
    `rust_decimal` through a few trusted wrappers; contracts reason about the
    value in units of `10^-28`.
  - `client.rs` — the account state machine. Every operation is specified by a
    transition on `ClientState`; `try_` variants report decimal overflow.
  - `engine.rs` — the map of accounts, transaction dispatch (transaction ids are
    unique across all accounts), and the error-handling policy for each input
    item (`Engine::handle`: continue, warn and skip, or stop).
  - `run.rs` — laws over a whole run of items.
  - `ledger.rs` — the invariant that balances are sums of per-transaction
    shares of the history.
  - `io.rs` — the CSV reader (the `csv` crate splits and trims the input's
    bytes behind a trusted wrapper; header check, row numbering, type and
    amount validation are verified) and the snapshots for output, whose
    amounts carry their natural precision (`1.5`, not `1.5000`).
  - `error.rs` — error types and their messages.
- `app/` — the command line: reading the input file's bytes, writing the
  snapshots to stdout as CSV with serde, converting between `Decimal` and
  `Amount`.
- `tests/` — unit, scenario and law tests.

## Run

`tx_engine transactions.csv > accounts.csv`. Diagnostics go to stderr. A
malformed row (unknown type, bad amount, amount where none belongs or missing,
negative amount, duplicate transaction id) is reported and skipped; an unreadable
input or a wrong header is fatal: the command exits with status 1 and writes no
CSV.
