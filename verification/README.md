# claim_drop

A token airdrop with linear vesting, written in Verus.

Listed addresses share a reward pool. Tokens vest linearly between
`from_timestamp` and `to_timestamp`; the share of each user still active is the
pool divided by the number of active users, and a user who has received their
whole share leaves the active set and takes what they received out of the pool.
The owner can add addresses, change the configuration and, at the end, collect
what is left.

Layout:

- `src/` — the verified library.
  - `state.rs`: the configuration, the user records (`UserBook`, a map from
    address to record) and their mathematical views.
  - `contract.rs`: instantiation, dispatch of executions and queries,
    migration, and the vesting arithmetic.
  - `contract/execute.rs`: claiming, adding addresses, collecting the rest,
    changing the configuration; each with a specification of its outcome.
  - `contract/query.rs`: the configuration, the address list and a user's
    status.
  - `laws.rs`: properties that span calls (vesting is monotone, the per-user
    share never shrinks as users finish, a finished user cannot claim again,
    a closed airdrop refuses claims, only the owner administers, ...).
  - `msg.rs`, `response.rs`, `error.rs`, `decimal.rs`: messages, responses,
    errors with their texts, and the decimal rendering of amounts.
- `app/` — the CosmWasm entry points: storage, address validation, balance
  queries and JSON encoding around the library.
- `tests/` — scenario tests on the library.
