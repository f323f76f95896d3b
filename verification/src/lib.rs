//! Two fungible-token contracts and a constant-product exchange between two
//! tokens, written as verified state machines.
//!
//! - `decimals`: scaling whole tokens to minimal units, `10^decimals`.
//! - `ledger`: the balances of registered accounts and the total supply,
//!   kept equal to the sum of the balances.
//! - `token`: a token whose initial supply goes to its owner and whose
//!   transfers on behalf of others are made by one registered exchange.
//! - `a_token`: a token with fixed metadata that starts with no accounts.
//! - `amm`: the exchange, which quotes swaps by `X * Y = K` and answers every
//!   call with the cross-contract calls to schedule.
//!
//! Every method takes the context values the chain supplies (who called,
//! which account runs the contract, whether state exists, attached deposits)
//! as plain arguments.

pub mod decimals;
pub mod ledger;
pub mod token;
pub mod a_token;
pub mod amm;
