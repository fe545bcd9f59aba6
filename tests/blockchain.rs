use token_ledger::{BasicToken, Blockchain, Error, Method, TokenContract, Transaction};

fn two_tokens() -> Blockchain {
    Blockchain::new(vec![
        BasicToken::new("USDC".into(), vec!["addr1".into(), "addr2".into()], 1000),
        BasicToken::new("WBTC".into(), vec!["addr3".into(), "addr4".into()], 1000),
    ])
}

fn query(chain: &mut Blockchain, sender: &str, contract: &str, seq: u64) -> Result<u64, Error> {
    chain.process_transaction(Transaction::new(sender, 0, contract, Method::BalanceOf).with_seq(seq))
}

fn send(
    chain: &mut Blockchain,
    sender: &str,
    amount: u64,
    contract: &str,
    to: &str,
    seq: u64,
) -> Result<u64, Error> {
    chain.process_transaction(
        Transaction::new(sender, amount, contract, Method::Transfer)
            .with_seq(seq)
            .with_destination(to),
    )
}

#[test]
fn test_blockchain() {
    let mut chain = two_tokens();
    assert_eq!(query(&mut chain, "addr1", "USDC", 1), Ok(1000));
    assert_eq!(query(&mut chain, "addr2", "USDC", 1), Ok(1000));
    assert_eq!(query(&mut chain, "addr1", "USDC", 1), Err(Error::BadTransactionSequence));
    assert!(send(&mut chain, "addr1", 100, "USDC", "addr2", 2).is_ok());
    assert_eq!(query(&mut chain, "addr1", "USDC", 3), Ok(900));
    assert_eq!(query(&mut chain, "addr2", "USDC", 3), Ok(1100));
}

#[test]
fn transaction_builders_set_fields() {
    let tx = Transaction::new("alice", 42, "USDC", Method::Transfer);
    assert_eq!(tx.sender, "alice");
    assert_eq!(tx.amount, 42);
    assert_eq!(tx.contract, "USDC");
    assert_eq!(tx.method, Method::Transfer);
    assert_eq!(tx.sequence, 0);
    assert_eq!(tx.destination, "");
    let tx = tx.with_seq(7).with_destination("bob");
    assert_eq!(tx.sequence, 7);
    assert_eq!(tx.destination, "bob");
    assert_eq!(tx.sender, "alice");
    assert_eq!(tx.amount, 42);
}

#[test]
fn token_airdrop_and_unknown_address() {
    let token = BasicToken::new("USDC".into(), vec!["a".into(), "b".into(), "a".into()], 250);
    assert_eq!(token.contract(), "USDC");
    assert_eq!(token.balance_of("a".into()), 250);
    assert_eq!(token.balance_of("b".into()), 250);
    assert_eq!(token.balance_of("c".into()), 0);
}

#[test]
fn token_transfer_moves_amount() {
    let mut token = BasicToken::new("USDC".into(), vec!["a".into(), "b".into()], 1000);
    assert_eq!(token.transfer("a".into(), 300, "b".into()), Ok(()));
    assert_eq!(token.balance_of("a".into()), 700);
    assert_eq!(token.balance_of("b".into()), 1300);
}

#[test]
fn token_transfer_insufficient_leaves_balances() {
    let mut token = BasicToken::new("USDC".into(), vec!["a".into(), "b".into()], 1000);
    assert_eq!(token.transfer("a".into(), 1001, "b".into()), Err(Error::NotEnoughBalance));
    assert_eq!(token.balance_of("a".into()), 1000);
    assert_eq!(token.balance_of("b".into()), 1000);
}

#[test]
fn token_transfer_whole_balance() {
    let mut token = BasicToken::new("USDC".into(), vec!["a".into()], 1000);
    assert_eq!(token.transfer("a".into(), 1000, "z".into()), Ok(()));
    assert_eq!(token.balance_of("a".into()), 0);
    assert_eq!(token.balance_of("z".into()), 1000);
}

#[test]
fn token_self_transfer_keeps_balance() {
    let mut token = BasicToken::new("USDC".into(), vec!["a".into()], 1000);
    assert_eq!(token.transfer("a".into(), 400, "a".into()), Ok(()));
    assert_eq!(token.balance_of("a".into()), 1000);
}

#[test]
fn token_full_supply_fits() {
    let mut token = BasicToken::new("BIG".into(), vec!["a".into(), "b".into()], u64::MAX / 2);
    assert_eq!(token.transfer("a".into(), u64::MAX / 2, "b".into()), Ok(()));
    assert_eq!(token.balance_of("b".into()), u64::MAX - 1);
    assert_eq!(token.balance_of("a".into()), 0);
}

#[test]
fn transfer_to_new_address_creates_balance() {
    let mut chain = two_tokens();
    assert_eq!(send(&mut chain, "addr1", 250, "USDC", "fresh", 1), Ok(0));
    assert_eq!(query(&mut chain, "fresh", "USDC", 1), Ok(250));
    assert_eq!(query(&mut chain, "addr1", "USDC", 2), Ok(750));
}

#[test]
fn transfer_keeps_total_supply() {
    let mut chain = two_tokens();
    assert_eq!(send(&mut chain, "addr1", 600, "USDC", "addr2", 1), Ok(0));
    assert_eq!(send(&mut chain, "addr2", 1500, "USDC", "addr3", 1), Ok(0));
    let a = query(&mut chain, "addr1", "USDC", 5).unwrap();
    let b = query(&mut chain, "addr2", "USDC", 5).unwrap();
    let c = query(&mut chain, "addr3", "USDC", 5).unwrap();
    assert_eq!((a, b, c), (400, 100, 1500));
    assert_eq!(a + b + c, 2000);
    // the other contract is untouched
    assert_eq!(query(&mut chain, "addr3", "WBTC", 6), Ok(1000));
}

#[test]
fn insufficient_funds_is_rejected_and_sequence_used() {
    let mut chain = two_tokens();
    assert_eq!(send(&mut chain, "addr1", 1001, "USDC", "addr2", 1), Err(Error::NotEnoughBalance));
    assert_eq!(query(&mut chain, "addr2", "USDC", 1), Ok(1000));
    // the failed transfer consumed sequence number 1
    assert_eq!(query(&mut chain, "addr1", "USDC", 1), Err(Error::BadTransactionSequence));
    assert_eq!(query(&mut chain, "addr1", "USDC", 2), Ok(1000));
}

#[test]
fn unknown_contract_fails_for_both_methods() {
    let mut chain = two_tokens();
    assert_eq!(query(&mut chain, "addr1", "DAI", 1), Err(Error::ContractNotFound));
    assert_eq!(send(&mut chain, "addr1", 5, "DAI", "addr2", 2), Err(Error::ContractNotFound));
    assert_eq!(query(&mut chain, "addr1", "USDC", 3), Ok(1000));
    assert_eq!(chain.block_height, 1);
}

#[test]
fn sequence_zero_is_never_accepted() {
    let mut chain = two_tokens();
    assert_eq!(query(&mut chain, "addr1", "USDC", 0), Err(Error::BadTransactionSequence));
    assert_eq!(query(&mut chain, "addr1", "USDC", 1), Ok(1000));
}

#[test]
fn lower_sequence_is_rejected_without_effect() {
    let mut chain = two_tokens();
    assert_eq!(query(&mut chain, "addr1", "USDC", 10), Ok(1000));
    assert_eq!(send(&mut chain, "addr1", 100, "USDC", "addr2", 9), Err(Error::BadTransactionSequence));
    assert_eq!(send(&mut chain, "addr1", 100, "USDC", "addr2", 10), Err(Error::BadTransactionSequence));
    assert_eq!(query(&mut chain, "addr2", "USDC", 1), Ok(1000));
    // gaps are allowed
    assert_eq!(query(&mut chain, "addr1", "USDC", 20), Ok(1000));
}

#[test]
fn sequences_are_per_sender() {
    let mut chain = two_tokens();
    assert_eq!(query(&mut chain, "addr1", "USDC", 5), Ok(1000));
    assert_eq!(query(&mut chain, "addr2", "USDC", 1), Ok(1000));
}

#[test]
fn repeated_queries_agree() {
    let mut chain = two_tokens();
    let first = query(&mut chain, "addr3", "WBTC", 1);
    let second = query(&mut chain, "addr3", "WBTC", 2);
    assert_eq!(first, Ok(1000));
    assert_eq!(first, second);
}

#[test]
fn height_counts_processed_transactions() {
    let mut chain = two_tokens();
    assert_eq!(chain.block_height, 0);
    assert_eq!(query(&mut chain, "addr1", "USDC", 1), Ok(1000));
    assert_eq!(chain.block_height, 1);
    assert_eq!(send(&mut chain, "addr1", 10, "USDC", "addr2", 2), Ok(0));
    assert_eq!(chain.block_height, 2);
    assert_eq!(query(&mut chain, "addr1", "USDC", 2), Err(Error::BadTransactionSequence));
    assert_eq!(send(&mut chain, "addr1", 5000, "USDC", "addr2", 3), Err(Error::NotEnoughBalance));
    assert_eq!(query(&mut chain, "addr1", "XYZ", 4), Err(Error::ContractNotFound));
    assert_eq!(chain.block_height, 2);
}

#[test]
fn first_registered_contract_wins() {
    let mut chain = Blockchain::new(vec![
        BasicToken::new("USDC".into(), vec!["addr1".into()], 10),
        BasicToken::new("USDC".into(), vec!["addr1".into()], 99),
    ]);
    assert_eq!(query(&mut chain, "addr1", "USDC", 1), Ok(10));
}

#[test]
fn validate_sequence_records_last() {
    let mut chain = two_tokens();
    let tx = Transaction::new("addr1", 0, "USDC", Method::BalanceOf).with_seq(4);
    assert_eq!(chain.validate_transaction_sequence(&tx), Ok(()));
    assert_eq!(chain.validate_transaction_sequence(&tx), Err(Error::BadTransactionSequence));
    let later = Transaction::new("addr1", 0, "USDC", Method::BalanceOf).with_seq(5);
    assert_eq!(chain.validate_transaction_sequence(&later), Ok(()));
}

#[test]
fn empty_registry_finds_nothing() {
    let mut chain = Blockchain::new(vec![]);
    assert_eq!(query(&mut chain, "addr1", "USDC", 1), Err(Error::ContractNotFound));
}
