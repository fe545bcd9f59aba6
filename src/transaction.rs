use vstd::prelude::*;

verus! {

/// The operation a transaction asks of its contract.
#[derive(Copy, Clone, PartialEq, Eq, Structural, Debug)]
pub enum Method {
    BalanceOf,
    Transfer,
}

/// A signed account operation, addressed to one token contract.
pub struct Transaction {
    /// Address of the sender.
    pub sender: String,
    /// Nonce of the sender; must exceed the last one it used.
    pub sequence: u64,
    /// Amount to move, for a transfer.
    pub amount: u64,
    /// Identifier of the target contract.
    pub contract: String,
    pub method: Method,
    /// Receiving address, for a transfer.
    pub destination: String,
}

impl Transaction {
    /// A transaction with sequence number zero and an empty destination.
    pub fn new(sender: &str, amount: u64, contract: &str, method: Method) -> (tx: Transaction)
        ensures
            tx.sender@ == sender@,
            tx.sequence == 0,
            tx.amount == amount,
            tx.contract@ == contract@,
            tx.method == method,
            tx.destination@ == Seq::<char>::empty(),
    {
        Transaction {
            sender: sender.to_owned(),
            amount: amount,
            contract: contract.to_owned(),
            method: method,
            sequence: 0,
            destination: String::new(),
        }
    }

    /// The same transaction with sequence number `seq`.
    pub fn with_seq(self, seq: u64) -> (tx: Transaction)
        ensures
            tx.sender@ == self.sender@,
            tx.sequence == seq,
            tx.amount == self.amount,
            tx.contract@ == self.contract@,
            tx.method == self.method,
            tx.destination@ == self.destination@,
    {
        let mut tx = self;
        tx.sequence = seq;
        tx
    }

    /// The same transaction sent to `destination`.
    pub fn with_destination(self, destination: &str) -> (tx: Transaction)
        ensures
            tx.sender@ == self.sender@,
            tx.sequence == self.sequence,
            tx.amount == self.amount,
            tx.contract@ == self.contract@,
            tx.method == self.method,
            tx.destination@ == destination@,
    {
        let mut tx = self;
        tx.destination = destination.to_owned();
        tx
    }
}

} // verus!
