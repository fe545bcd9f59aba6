use vstd::prelude::*;

use crate::chain::{find_contract, last_sequence, step, ChainState, TokenState};
use crate::ledger::{balance_in, supply, lemma_transfer_conserves_supply};
use crate::token::Error;
use crate::transaction::{Method, Transaction};

verus! {

/// The lookup from `start` lands on the first matching contract at or after
/// `start`, or past the end when none matches.
pub proof fn lemma_find_contract(tokens: Seq<TokenState>, id: Seq<char>, start: int)
    requires
        0 <= start <= tokens.len(),
    ensures
        start <= find_contract(tokens, id, start) <= tokens.len(),
        find_contract(tokens, id, start) < tokens.len() ==> tokens[find_contract(
            tokens,
            id,
            start,
        )].id == id,
        forall|j: int| start <= j < find_contract(tokens, id, start) ==> tokens[j].id != id,
    decreases tokens.len() - start,
{
    if start < tokens.len() && tokens[start].id != id {
        lemma_find_contract(tokens, id, start + 1);
    }
}

/// A transaction whose sequence number does not exceed the sender's last one
/// is turned down and changes nothing: no balance, no sequence number, no
/// height.
pub proof fn lemma_stale_sequence_rejected(s: ChainState, tx: Transaction)
    requires
        tx.sequence <= last_sequence(s.sequences, tx.sender@),
    ensures
        step(s, tx) == (s, Err::<u64, Error>(Error::BadTransactionSequence)),
{
}

/// Once a transaction has passed the sequence check, the same sender's next
/// transaction passes only with a strictly greater sequence number; in
/// particular the same transaction sent again is turned down and changes
/// nothing.
pub proof fn lemma_sequences_increase(s: ChainState, first: Transaction, second: Transaction)
    requires
        step(s, first).1 != Err::<u64, Error>(Error::BadTransactionSequence),
        second.sender@ == first.sender@,
    ensures
        last_sequence(step(s, first).0.sequences, first.sender@) == first.sequence,
        step(step(s, first).0, second).1 != Err::<u64, Error>(Error::BadTransactionSequence)
            <==> second.sequence > first.sequence,
        step(step(s, first).0, first) == (step(s, first).0, Err::<u64, Error>(
            Error::BadTransactionSequence,
        )),
{
}

/// A transfer between two different addresses that succeeds lowers the
/// sender's balance by the amount, raises the destination's by the same
/// amount, and leaves the contract's total supply and every other contract
/// as they were.
pub proof fn lemma_transfer_conserves_balances(s: ChainState, tx: Transaction)
    requires
        forall|j: int| 0 <= j < s.tokens.len() ==> (#[trigger] s.tokens[j]).balances.dom().finite(),
        tx.method == Method::Transfer,
        tx.sender@ != tx.destination@,
        step(s, tx).1 is Ok,
    ensures
        ({
            let i = find_contract(s.tokens, tx.contract@, 0);
            let before = s.tokens[i].balances;
            let after = step(s, tx).0.tokens[i].balances;
            &&& 0 <= i < s.tokens.len()
            &&& step(s, tx).0.tokens.len() == s.tokens.len()
            &&& step(s, tx).0.tokens[i].id == s.tokens[i].id
            &&& balance_in(after, tx.sender@) == balance_in(before, tx.sender@) - tx.amount
            &&& balance_in(after, tx.destination@) == balance_in(before, tx.destination@)
                + tx.amount
            &&& forall|a: Seq<char>|
                a != tx.sender@ && a != tx.destination@ ==> balance_in(after, a) == balance_in(
                    before,
                    a,
                )
            &&& supply(after) == supply(before)
            &&& forall|j: int|
                0 <= j < s.tokens.len() && j != i ==> step(s, tx).0.tokens[j] == s.tokens[j]
        }),
{
    let i = find_contract(s.tokens, tx.contract@, 0);
    lemma_find_contract(s.tokens, tx.contract@, 0);
    let before = s.tokens[i].balances;
    lemma_transfer_conserves_supply(before, tx.sender@, tx.amount as int, tx.destination@);
}

/// A transfer of more than the sender holds, with a fresh sequence number and
/// a registered contract, fails with `NotEnoughBalance` and leaves every
/// balance as it was.
pub proof fn lemma_insufficient_funds(s: ChainState, tx: Transaction)
    requires
        tx.method == Method::Transfer,
        tx.sequence > last_sequence(s.sequences, tx.sender@),
        find_contract(s.tokens, tx.contract@, 0) < s.tokens.len(),
        tx.amount > balance_in(
            s.tokens[find_contract(s.tokens, tx.contract@, 0)].balances,
            tx.sender@,
        ),
    ensures
        step(s, tx).1 == Err::<u64, Error>(Error::NotEnoughBalance),
        step(s, tx).0.tokens == s.tokens,
        step(s, tx).0.height == s.height,
{
}

/// A transaction with a fresh sequence number that names no registered
/// contract fails with `ContractNotFound`, whatever its method, and leaves
/// every balance as it was.
pub proof fn lemma_unknown_contract(s: ChainState, tx: Transaction)
    requires
        tx.sequence > last_sequence(s.sequences, tx.sender@),
        forall|j: int| 0 <= j < s.tokens.len() ==> (#[trigger] s.tokens[j]).id != tx.contract@,
    ensures
        step(s, tx).1 == Err::<u64, Error>(Error::ContractNotFound),
        step(s, tx).0.tokens == s.tokens,
        step(s, tx).0.height == s.height,
{
    lemma_find_contract(s.tokens, tx.contract@, 0);
}

/// A balance query changes no balance.
pub proof fn lemma_query_keeps_balances(s: ChainState, tx: Transaction)
    requires
        tx.method == Method::BalanceOf,
    ensures
        step(s, tx).0.tokens == s.tokens,
{
}

/// Two balance queries in a row, from one sender to one contract with
/// increasing sequence numbers, give the same answer.
pub proof fn lemma_repeated_query(s: ChainState, first: Transaction, second: Transaction)
    requires
        first.method == Method::BalanceOf,
        second.method == Method::BalanceOf,
        second.sender@ == first.sender@,
        second.contract@ == first.contract@,
        second.sequence > first.sequence,
        step(s, first).1 is Ok,
    ensures
        step(step(s, first).0, second).1 == step(s, first).1,
{
}

} // verus!
