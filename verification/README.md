# crown_dtl

A redemption desk for tokenised vaults, verified with Verus. Accounts hold
vault shares; a redemption request takes shares out of an account, queues a
ticket (priority lane for VIP and institutional accounts, standard lane for
everyone), consumes the account's daily limit and, in the priority lane, the
vault's daily priority capacity. Processing the queue schedules tickets in
service order and files claims; withdrawals pay mature claims out of the
vault's reserve. Every mutating operation ends with reconciliation checks.

The engine keeps an invariant, `backed`: every pending claim is backed by an
open ticket of its vault with the same quote, no ticket is filed in two
vaults, and each vault's pending assets stay within its reserve. Every
operation that goes through keeps it, so each vault's reserve always covers
the claims still open on it.

Layout:

- `src/` — the library. `engine.rs` holds the protocol and its laws;
  `accounts`, `asset`, `vault`, `queue`, `priority`, `policy`, `ledger`,
  `events`, `clock`, `ids`, `amount` hold its parts; `reconcile.rs` the sums
  the checks compare; `reports.rs` the JSON reports; `runtime.rs` the
  demonstration scenarios and the command-line choice among them;
  `calibration.rs` the calibration catalog.
- `tests/` — tests of the public API.
- `app/` — the command line: `crown-dtl scenario <order|limits|cancel|withdrawals|report>`.
