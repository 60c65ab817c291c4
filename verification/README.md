# marginfi

The account and risk logic of the marginfi lending protocol, with the decisions of its
command-line client, as a Verus library: every function in `src/` carries a contract, and
Verus proves each of them except the few wrappers that call the `fixed` and `anchor-lang`
crates, whose contracts state what those crates' sources show.

- `src/fixed_point.rs` — `I80F48` numbers as raw bits; multiplication, division, rounding and
  conversion are calls into the `fixed` crate behind stated contracts.
- `src/state.rs` — keys, balances, accounts, banks and errors.
- `src/account.rs`, `src/lending.rs`, `src/tags.rs` — account flags, authorization, balance
  slots (lookup, ordering, free slots) and order tags.
- `src/bank.rs`, `src/wrapper.rs` — share accounting, limits and position counts; deposits,
  repayments, withdrawals and borrows on a balance.
- `src/price.rs`, `src/risk.rs`, `src/emode.rs`, `src/health.rs`, `src/checks.rs` — values,
  weights, emode reconciliation and the health checks of the risk engine.
- `src/cache.rs` — matching balances with bank accounts and the liquidation price caches.
- `src/admin.rs` — bank metadata, program-derived bank addresses (through `anchor-lang`),
  backfills and the fee state copy.
- `src/cli.rs`, `src/rate_point.rs`, `src/output.rs` — profile handling, argument parsing and
  the amounts the client shows.
- `app/` — the `p0` profile commands: argument parsing, files and printing around the library.
- `tests/` — tests on concrete values.
