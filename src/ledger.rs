use vstd::prelude::*;

verus! {

/// A ledger of machine balances read as integers.
pub open spec fn as_balances(ledger: Map<Seq<char>, u64>) -> Map<Seq<char>, int> {
    ledger.map_values(|v: u64| v as int)
}

/// Reading balances as integers keeps the addresses and the amounts.
pub proof fn lemma_as_balances(ledger: Map<Seq<char>, u64>)
    ensures
        as_balances(ledger).dom() == ledger.dom(),
        forall|a: Seq<char>|
            #[trigger] ledger.contains_key(a) ==> as_balances(ledger)[a] == ledger[a] as int,
{
    assert(as_balances(ledger).dom() =~= ledger.dom());
}

/// Balance of `address` in a ledger model; an address never credited holds zero.
pub open spec fn balance_in(ledger: Map<Seq<char>, int>, address: Seq<char>) -> int {
    if ledger.contains_key(address) {
        ledger[address]
    } else {
        0
    }
}

/// The ledger after moving `amount` from `from` to `to`: the sender's entry is
/// written first, then the destination's entry is read back and credited, so
/// a transfer to oneself leaves the balance as it was.
pub open spec fn transferred(
    ledger: Map<Seq<char>, int>,
    from: Seq<char>,
    amount: int,
    to: Seq<char>,
) -> Map<Seq<char>, int> {
    let debited = ledger.insert(from, balance_in(ledger, from) - amount);
    debited.insert(to, balance_in(debited, to) + amount)
}

/// Sum of all balances of a finite ledger.
pub open spec fn supply(ledger: Map<Seq<char>, int>) -> int
    decreases ledger.dom().len(),
{
    if ledger.dom().finite() && ledger.dom().len() > 0 {
        let k = ledger.dom().choose();
        ledger[k] + supply(ledger.remove(k))
    } else {
        0
    }
}

proof fn lemma_supply_remove(ledger: Map<Seq<char>, int>, k: Seq<char>)
    requires
        ledger.dom().finite(),
        ledger.contains_key(k),
    ensures
        supply(ledger) == ledger[k] + supply(ledger.remove(k)),
    decreases ledger.dom().len(),
{
    let c = ledger.dom().choose();
    if c != k {
        let without_c = ledger.remove(c);
        let without_k = ledger.remove(k);
        lemma_supply_remove(without_c, k);
        lemma_supply_remove(without_k, c);
        assert(without_c.remove(k) =~= without_k.remove(c));
    } else {
        assert(ledger.remove(c) =~= ledger.remove(k));
    }
}

/// The supply of a finite ledger splits into one address's balance and the
/// supply of the rest.
pub proof fn lemma_supply_split(ledger: Map<Seq<char>, int>, k: Seq<char>)
    requires
        ledger.dom().finite(),
    ensures
        supply(ledger) == balance_in(ledger, k) + supply(ledger.remove(k)),
{
    if ledger.contains_key(k) {
        lemma_supply_remove(ledger, k);
    } else {
        assert(ledger.remove(k) =~= ledger);
    }
}

proof fn lemma_supply_nonneg(ledger: Map<Seq<char>, int>)
    requires
        ledger.dom().finite(),
        forall|a: Seq<char>| ledger.contains_key(a) ==> ledger[a] >= 0,
    ensures
        supply(ledger) >= 0,
    decreases ledger.dom().len(),
{
    if ledger.dom().len() > 0 {
        let k = ledger.dom().choose();
        lemma_supply_nonneg(ledger.remove(k));
    }
}

/// In a finite ledger without negative balances no single balance exceeds
/// the supply.
pub proof fn lemma_balance_le_supply(ledger: Map<Seq<char>, int>, k: Seq<char>)
    requires
        ledger.dom().finite(),
        forall|a: Seq<char>| ledger.contains_key(a) ==> ledger[a] >= 0,
    ensures
        0 <= balance_in(ledger, k) <= supply(ledger),
{
    lemma_supply_split(ledger, k);
    lemma_supply_nonneg(ledger.remove(k));
}

/// A transfer changes no ledger's supply.
pub proof fn lemma_transfer_conserves_supply(
    ledger: Map<Seq<char>, int>,
    from: Seq<char>,
    amount: int,
    to: Seq<char>,
)
    requires
        ledger.dom().finite(),
    ensures
        transferred(ledger, from, amount, to).dom().finite(),
        supply(transferred(ledger, from, amount, to)) == supply(ledger),
{
    let debited = ledger.insert(from, balance_in(ledger, from) - amount);
    let credited = transferred(ledger, from, amount, to);
    lemma_supply_split(ledger, from);
    lemma_supply_split(debited, from);
    assert(debited.remove(from) =~= ledger.remove(from));
    lemma_supply_split(debited, to);
    lemma_supply_split(credited, to);
    assert(credited.remove(to) =~= debited.remove(to));
}

} // verus!
