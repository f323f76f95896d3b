# near_amm

Two NEAR fungible-token contracts and a constant-product exchange between two
tokens. The contracts' rules live in `src/` as Verus-verified state machines;
`app/` holds the `#[near]` contracts themselves, one module each: their entry
points read the call context and promise outcomes, rebuild the library's state
from storage, call the library, store the result and schedule the
cross-contract calls the library returns.

- `src/ledger.rs`: balances and total supply; every operation keeps the supply
  equal to the sum of the balances.
- `src/token.rs`, `src/a_token.rs`: the token contracts (exchange registration,
  transfers, hand-overs to receiver contracts and their settlement, storage
  registration), with their transition specifications and laws.
- `src/amm.rs`: the exchange, its swap quotes, and the laws that a swap never
  raises `K = X * Y`, that an owner's deposit never lowers it, and that a
  settlement after a failed transfer pays and records nothing.
- `tests/`: scenarios, including the deployment and swap walk-through run end to end.
