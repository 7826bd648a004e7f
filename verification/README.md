# prism_contracts

Verified core logic of the Prism protocol's CosmWasm contracts, written in
Verus.

Each contract's state transitions are functions from plain values (the stored
records, the incoming message, the block time and the answers to the queries the
contract makes) to new records, outgoing actions and errors. Their contracts
state the results exactly, and laws that span several operations are stated and
proved as public proof functions next to them.

Layout:

- `src/math.rs`: ratio and 18-place decimal arithmetic, with the calls into
  `cosmwasm-std` and `integer-sqrt` behind trusted wrappers.
- `src/launch_pool.rs`, `src/gov.rs`, `src/gov_staking.rs`,
  `src/limit_order.rs`, `src/collector.rs`, `src/basset_vault.rs`,
  `src/prism_fair_launch.rs`, `src/fair_launch.rs`,
  `src/delegator_rewards.rs`, `src/airdrop_registry.rs`,
  `src/astroport_lp_vault.rs`: one module per contract.
- `tests/`: scenario tests, run against the compiled library.
- `app/`: CosmWasm entry points for some of the contracts: message decoding,
  storage, queries to other contracts and message encoding around the library.
