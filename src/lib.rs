//! Transaction-processing core of a minimal ledger: a dispatcher that checks
//! per-account sequence numbers and routes operations to fungible-token
//! contracts, each of which owns an address-to-balance ledger.

mod chain;
mod laws;
mod ledger;
mod token;
mod transaction;

pub use ledger::{as_balances, balance_in, supply, transferred, lemma_balance_le_supply, lemma_supply_split, lemma_transfer_conserves_supply};
pub use token::{airdrop_addresses, airdrop_ledger, BasicToken, Error, TokenContract};
pub use transaction::{Method, Transaction};
pub use chain::{dispatch, find_contract, last_sequence, next_height, step, token_state, token_states, Blockchain, ChainState, TokenState};
pub use laws::{lemma_find_contract, lemma_insufficient_funds, lemma_query_keeps_balances, lemma_repeated_query, lemma_sequences_increase, lemma_stale_sequence_rejected, lemma_transfer_conserves_balances, lemma_unknown_contract};
