use vstd::prelude::*;
use vstd::hash_map::StringHashMap;

use crate::ledger::{balance_in, transferred};
use crate::token::{BasicToken, Error, TokenContract};
use crate::transaction::{Method, Transaction};

verus! {

/// A registered contract as a mathematical value: its identifier and ledger.
pub ghost struct TokenState {
    pub id: Seq<char>,
    pub balances: Map<Seq<char>, int>,
}

/// The dispatcher as a mathematical value.
pub ghost struct ChainState {
    pub height: u64,
    /// The contract registry, in lookup order.
    pub tokens: Seq<TokenState>,
    /// Highest sequence number accepted from each address.
    pub sequences: Map<Seq<char>, u64>,
}

pub open spec fn token_state(token: BasicToken) -> TokenState {
    TokenState { id: token.contract_id(), balances: token.balances() }
}

pub open spec fn token_states(tokens: Seq<BasicToken>) -> Seq<TokenState> {
    tokens.map_values(|t: BasicToken| token_state(t))
}

/// Last sequence number accepted from `sender`; zero if none was.
pub open spec fn last_sequence(sequences: Map<Seq<char>, u64>, sender: Seq<char>) -> u64 {
    if sequences.contains_key(sender) {
        sequences[sender]
    } else {
        0
    }
}

/// Index of the first contract at or after `start` whose identifier is `id`,
/// or the registry's length if there is none.
pub open spec fn find_contract(tokens: Seq<TokenState>, id: Seq<char>, start: int) -> int
    decreases tokens.len() - start,
{
    if start < 0 || start >= tokens.len() {
        tokens.len() as int
    } else if tokens[start].id == id {
        start
    } else {
        find_contract(tokens, id, start + 1)
    }
}

/// The height after a transaction that was carried out.
pub open spec fn next_height(height: u64) -> u64 {
    if height < u64::MAX {
        (height + 1) as u64
    } else {
        height
    }
}

/// What the contract at index `i` makes of a transaction: the registry after
/// it, and the result.
pub open spec fn dispatch(tokens: Seq<TokenState>, i: int, tx: Transaction) -> (
    Seq<TokenState>,
    Result<u64, Error>,
) {
    let token = tokens[i];
    let held = balance_in(token.balances, tx.sender@);
    match tx.method {
        Method::BalanceOf => (tokens, Ok(held as u64)),
        Method::Transfer => if tx.amount > held {
            (tokens, Err(Error::NotEnoughBalance))
        } else {
            (
                tokens.update(
                    i,
                    TokenState {
                        id: token.id,
                        balances: transferred(
                            token.balances,
                            tx.sender@,
                            tx.amount as int,
                            tx.destination@,
                        ),
                    },
                ),
                Ok(0u64),
            )
        },
    }
}

/// One transaction's effect on the dispatcher: the state after it and the
/// result. A sequence number that passes the check is used up even when the
/// contract lookup or the contract itself then fails; the height counts the
/// transactions that were carried out.
pub open spec fn step(s: ChainState, tx: Transaction) -> (ChainState, Result<u64, Error>) {
    if tx.sequence <= last_sequence(s.sequences, tx.sender@) {
        (s, Err(Error::BadTransactionSequence))
    } else {
        let sequences = s.sequences.insert(tx.sender@, tx.sequence);
        let i = find_contract(s.tokens, tx.contract@, 0);
        if i < s.tokens.len() {
            let (tokens, result) = dispatch(s.tokens, i, tx);
            let height = if result is Ok {
                next_height(s.height)
            } else {
                s.height
            };
            (ChainState { height, tokens, sequences }, result)
        } else {
            (
                ChainState { height: s.height, tokens: s.tokens, sequences },
                Err(Error::ContractNotFound),
            )
        }
    }
}

/// Validates transactions and routes them to the registered contracts.
pub struct Blockchain {
    pub block_height: u64,
    contracts: Vec<BasicToken>,
    // sequence numbers accepted so far, by sender address
    accounts: StringHashMap<u64>,
}

impl View for Blockchain {
    type V = ChainState;

    closed spec fn view(&self) -> ChainState {
        ChainState {
            height: self.block_height,
            tokens: token_states(self.contracts@),
            sequences: self.accounts@,
        }
    }
}

impl Blockchain {
    /// A dispatcher over `contracts`, at height zero, that has seen no
    /// transaction.
    pub fn new(contracts: Vec<BasicToken>) -> (chain: Blockchain)
        ensures
            chain@ == (ChainState {
                height: 0,
                tokens: token_states(contracts@),
                sequences: Map::empty(),
            }),
    {
        Blockchain { block_height: 0, accounts: StringHashMap::new(), contracts: contracts }
    }

    /// Accepts the transaction's sequence number and records it as the
    /// sender's last, or turns it down if it does not exceed the last one.
    pub fn validate_transaction_sequence(&mut self, transaction: &Transaction) -> (result: Result<
        (),
        Error,
    >)
        ensures
            final(self)@.height == old(self)@.height,
            final(self)@.tokens == old(self)@.tokens,
            transaction.sequence <= last_sequence(old(self)@.sequences, transaction.sender@)
                ==> result == Err::<(), Error>(Error::BadTransactionSequence) && final(self)@.sequences
                == old(self)@.sequences,
            transaction.sequence > last_sequence(old(self)@.sequences, transaction.sender@)
                ==> result == Ok::<(), Error>(()) && final(self)@.sequences == old(
                self,
            )@.sequences.insert(transaction.sender@, transaction.sequence),
    {
        let current_sequence: u64 = match self.accounts.get(transaction.sender.as_str()) {
            Some(s) => *s,
            None => 0,
        };
        if transaction.sequence <= current_sequence {
            // a replayed or out-of-order transaction
            Err(Error::BadTransactionSequence)
        } else {
            self.accounts.insert(transaction.sender.clone(), transaction.sequence);
            Ok(())
        }
    }

    /// Checks the sequence number, then hands the transaction to the first
    /// contract whose identifier it names.
    pub fn process_transaction(&mut self, transaction: Transaction) -> (result: Result<u64, Error>)
        ensures
            (final(self)@, result) == step(old(self)@, transaction),
    {
        let ghost start = self@;
        let ghost tx = transaction;
        match self.validate_transaction_sequence(&transaction) {
            Ok(()) => {},
            Err(e) => {
                return Err(e);
            },
        }
        let ghost validated = self@;
        let ghost id = transaction.contract@;
        let mut i: usize = 0;
        while i < self.contracts.len()
            invariant
                self@ == validated,
                transaction == tx,
                start == old(self)@,
                id == tx.contract@,
                tx.sequence > last_sequence(start.sequences, tx.sender@),
                validated == (ChainState {
                    sequences: start.sequences.insert(tx.sender@, tx.sequence),
                    ..start
                }),
                validated.tokens.len() == self.contracts@.len(),
                i <= self.contracts@.len(),
                find_contract(validated.tokens, id, 0) == find_contract(validated.tokens, id, i as int),
            decreases self.contracts@.len() - i,
        {
            proof {
                assert(validated.tokens[i as int] == token_state(self.contracts@[i as int]));
            }
            let candidate = self.contracts[i].contract();
            if candidate == transaction.contract {
                match transaction.method {
                    Method::BalanceOf => {
                        let balance = self.contracts[i].balance_of(transaction.sender);
                        self.block_height = if self.block_height < u64::MAX {
                            self.block_height + 1
                        } else {
                            self.block_height
                        };
                        return Ok(balance);
                    },
                    Method::Transfer => {
                        let outcome = self.contracts[i].transfer(
                            transaction.sender,
                            transaction.amount,
                            transaction.destination,
                        );
                        proof {
                            assert(token_states(self.contracts@) =~= validated.tokens.update(
                                i as int,
                                token_state(self.contracts@[i as int]),
                            ));
                        }
                        match outcome {
                            Ok(()) => {
                                self.block_height = if self.block_height < u64::MAX {
                                    self.block_height + 1
                                } else {
                                    self.block_height
                                };
                                return Ok(0);
                            },
                            Err(e) => {
                                proof {
                                    assert(token_states(self.contracts@) =~= validated.tokens);
                                }
                                return Err(e);
                            },
                        }
                    },
                }
            }
            i = i + 1;
        }
        Err(Error::ContractNotFound)
    }
}

} // verus!
