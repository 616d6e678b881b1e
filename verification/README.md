# vale

The accounting of the Vale Protocol programs (a demo fungible token, the kVARA liquid staking
pool and a stable vault over a fungible token) as state machines verified with Verus.

- `src/` the verified library. `u256` is 256-bit arithmetic over `sails_rs::U256`; `ledger`
  the balance and allowance books and their sums; `vesting` the linear release of reward
  tranches; `unbonds` the per-owner unbond entries; `token`, `pool` and `vault` the three
  state machines, each with the decisions of its program's commands; `token_laws`,
  `pool_laws` and `vault_laws` what every operation keeps (supply equals balances, solvency,
  backing, sessions and keys as inverses, the unbond book) and how operations relate (a
  revert restores, a round trip never profits, the rate never falls, nobody else is diluted).
- `app/` the Sails programs around the library: message plumbing, value transfers, the calls
  to the underlying token, and events.
- `tests/` the scenarios, run against the compiled library.
