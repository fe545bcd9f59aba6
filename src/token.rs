use vstd::prelude::*;
use vstd::hash_map::StringHashMap;

use crate::ledger::{as_balances, lemma_as_balances, balance_in, supply, transferred, lemma_balance_le_supply, lemma_supply_split, lemma_transfer_conserves_supply};

verus! {

/// Reasons a transaction is turned down.
#[derive(Copy, Clone, PartialEq, Eq, Structural, Debug)]
pub enum Error {
    NotEnoughBalance,
    ContractNotFound,
    BadTransactionSequence,
}

/// What a token contract offers: its identity, balance queries and
/// two-sided transfers.
pub trait TokenContract {
    /// The contract's identifier.
    spec fn contract_id(&self) -> Seq<char>;

    /// The contract's ledger, address to balance.
    spec fn balances(&self) -> Map<Seq<char>, int>;

    fn contract(&self) -> (id: String)
        ensures
            id@ == self.contract_id(),
    ;

    fn balance_of(&self, address: String) -> (balance: u64)
        ensures
            balance == balance_in(self.balances(), address@),
    ;

    /// Moves `amount` from `sender` to `to`, or changes nothing when the sender
    /// holds less than `amount`.
    fn transfer(&mut self, sender: String, amount: u64, to: String) -> (result: Result<(), Error>)
        ensures
            final(self).contract_id() == old(self).contract_id(),
            amount > balance_in(old(self).balances(), sender@) ==> result == Err::<(), Error>(
                Error::NotEnoughBalance,
            ) && final(self).balances() == old(self).balances(),
            amount <= balance_in(old(self).balances(), sender@) ==> result == Ok::<(), Error>(())
                && final(self).balances() == transferred(
                old(self).balances(),
                sender@,
                amount as int,
                to@,
            ),
    ;
}

/// The addresses named in an airdrop list.
pub open spec fn airdrop_addresses(list: Seq<String>) -> Set<Seq<char>> {
    Set::new(|a: Seq<char>| exists|i: int| 0 <= i < list.len() && #[trigger] list[i]@ == a)
}

/// The ledger that gives `amount` to each address of an airdrop list.
pub open spec fn airdrop_ledger(list: Seq<String>, amount: u64) -> Map<Seq<char>, int> {
    Map::new(|a: Seq<char>| airdrop_addresses(list).contains(a), |a: Seq<char>| amount as int)
}

/// A fungible token backed by an address-to-balance map.
pub struct BasicToken {
    contract: String,
    ledger: StringHashMap<u64>,
}

impl BasicToken {
    /// The ledger is finite and its total fits in a `u64`, so no credit can
    /// overflow.
    #[verifier::type_invariant]
    spec fn supply_fits(self) -> bool {
        &&& self.ledger@.dom().finite()
        &&& supply(as_balances(self.ledger@)) <= u64::MAX
    }

    /// A token named `contract` that credits `initial_balance` to every address
    /// of `airdrop_list`.
    pub fn new(contract: String, airdrop_list: Vec<String>, initial_balance: u64) -> (token:
        BasicToken)
        requires
            airdrop_addresses(airdrop_list@).len() * initial_balance <= u64::MAX,
        ensures
            token.contract_id() == contract@,
            token.balances() == airdrop_ledger(airdrop_list@, initial_balance),
    {
        let mut ledger: StringHashMap<u64> = StringHashMap::new();
        let mut i: usize = 0;
        while i < airdrop_list.len()
            invariant
                i <= airdrop_list@.len(),
                ledger@.dom().finite(),
                forall|a: Seq<char>|
                    ledger@.contains_key(a) ==> ledger@[a] == initial_balance,
                forall|a: Seq<char>|
                    ledger@.contains_key(a) <==> exists|j: int|
                        0 <= j < i && #[trigger] airdrop_list@[j]@ == a,
                supply(as_balances(ledger@)) == ledger@.dom().len() * initial_balance,
            decreases airdrop_list@.len() - i,
        {
            let addr = airdrop_list[i].clone();
            proof {
                let before = as_balances(ledger@);
                let after = as_balances(ledger@.insert(addr@, initial_balance));
                lemma_as_balances(ledger@);
                lemma_as_balances(ledger@.insert(addr@, initial_balance));
                assert(after =~= before.insert(addr@, initial_balance as int));
                lemma_supply_split(after, addr@);
                lemma_supply_split(before, addr@);
                assert(after.remove(addr@) =~= before.remove(addr@));
                let n = ledger@.dom().len();
                if !ledger@.contains_key(addr@) {
                    assert(ledger@.insert(addr@, initial_balance).dom() =~= ledger@.dom().insert(
                        addr@,
                    ));
                    assert((n + 1) * initial_balance == n * initial_balance + initial_balance)
                        by (nonlinear_arith);
                } else {
                    assert(ledger@.insert(addr@, initial_balance).dom() =~= ledger@.dom());
                }
            }
            ledger.insert(addr, initial_balance);
            proof {
                assert forall|a: Seq<char>|
                    ledger@.contains_key(a) <==> exists|j: int|
                        0 <= j < i + 1 && #[trigger] airdrop_list@[j]@ == a by {
                    if a == airdrop_list@[i as int]@ {
                        assert(airdrop_list@[i as int]@ == a);
                    }
                }
            }
            i = i + 1;
        }
        proof {
            assert(ledger@.dom() =~= airdrop_addresses(airdrop_list@));
            assert(as_balances(ledger@) =~= airdrop_ledger(airdrop_list@, initial_balance));
        }
        BasicToken { contract, ledger }
    }
}

impl TokenContract for BasicToken {
    closed spec fn contract_id(&self) -> Seq<char> {
        self.contract@
    }

    closed spec fn balances(&self) -> Map<Seq<char>, int> {
        as_balances(self.ledger@)
    }

    fn contract(&self) -> (id: String) {
        self.contract.clone()
    }

    fn balance_of(&self, address: String) -> (balance: u64) {
        match self.ledger.get(address.as_str()) {
            Some(b) => *b,
            None => 0,
        }
    }

    fn transfer(&mut self, sender: String, amount: u64, to: String) -> (result: Result<(), Error>) {
        proof {
            use_type_invariant(&*self);
        }
        let ghost start = as_balances(self.ledger@);
        proof {
            lemma_as_balances(self.ledger@);
        }
        let balance: u64 = match self.ledger.get(sender.as_str()) {
            Some(b) => *b,
            None => 0,
        };
        if amount > balance {
            return Err(Error::NotEnoughBalance);
        }
        let mut ledger: StringHashMap<u64> = StringHashMap::new();
        std::mem::swap(&mut ledger, &mut self.ledger);
        // lower the sender's balance
        let ghost sender_view = sender@;
        let ghost to_view = to@;
        ledger.insert(sender, balance - amount);
        let ghost debited = as_balances(ledger@);
        proof {
            lemma_as_balances(ledger@);
            assert(debited =~= start.insert(sender_view, balance - amount));
            lemma_supply_split(start, sender_view);
            lemma_supply_split(debited, sender_view);
            assert(debited.remove(sender_view) =~= start.remove(sender_view));
            lemma_balance_le_supply(debited, to_view);
        }
        // raise the destination's balance
        let target: u64 = match ledger.get(to.as_str()) {
            Some(b) => *b,
            None => 0,
        };
        ledger.insert(to, target + amount);
        proof {
            assert(as_balances(ledger@) =~= transferred(start, sender_view, amount as int, to_view));
            lemma_transfer_conserves_supply(start, sender_view, amount as int, to_view);
        }
        self.ledger = ledger;
        Ok(())
    }
}

} // verus!
