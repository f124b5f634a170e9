use ledger_engine::amount::Amount;
use ledger_engine::entities::client::Client;
use ledger_engine::entities::transaction::{Transaction, TransactionType};
use ledger_engine::parser::parser::{parse_single_transaction, Outcome, Rejection};
use rust_decimal::Decimal;
use std::collections::HashMap;

type TransactionHash = HashMap<u32, Transaction>;
type ClientHash = HashMap<u16, Client>;

#[derive(Default)]
struct TestContext {
    clients: ClientHash,
    past_transactions: TransactionHash,
    disputed_transactions: TransactionHash,
}

/// The amount `mantissa / 10^scale`.
fn dec(mantissa: i64, scale: u32) -> Amount {
    amount_of(Decimal::new(mantissa, scale))
}

fn amount_of(decimal: Decimal) -> Amount {
    Amount::new(decimal.mantissa(), decimal.scale()).unwrap()
}

fn apply(test_context: &mut TestContext, transaction: &mut Transaction) -> Outcome {
    parse_single_transaction(
        transaction,
        &mut test_context.clients,
        &mut test_context.past_transactions,
        &mut test_context.disputed_transactions,
    )
    .unwrap()
}

#[test]
fn test_deposits_one() {
    let mut test_context = TestContext::default();
    let mut transaction = Transaction {
        kind: TransactionType::Deposit,
        client: 1,
        tx: 1,
        amount: Some(dec(20, 1)),
        ..Default::default()
    };
    parse_single_transaction(
        &mut transaction,
        &mut test_context.clients,
        &mut test_context.past_transactions,
        &mut test_context.disputed_transactions,
    )
    .unwrap();
    assert!(transaction.succeeded);

    assert_eq!(test_context.clients[&1].available, dec(20, 1));
    assert_eq!(test_context.clients[&1].held, dec(0, 0));
    assert_eq!(test_context.clients[&1].total, dec(20, 1));
    assert_eq!(test_context.clients[&1].locked, false);
    assert_eq!(test_context.clients.len(), 1);
    assert_eq!(test_context.past_transactions.len(), 1);
    assert_eq!(test_context.disputed_transactions.len(), 0);
}

#[test]
fn test_deposits_two() {
    let mut test_context = TestContext::default();
    let mut transaction = Transaction {
        kind: TransactionType::Deposit,
        client: 1,
        tx: 1,
        amount: Some(dec(20, 1)),
        ..Default::default()
    };
    parse_single_transaction(
        &mut transaction,
        &mut test_context.clients,
        &mut test_context.past_transactions,
        &mut test_context.disputed_transactions,
    )
    .unwrap();
    assert!(transaction.succeeded);

    let mut transaction = Transaction {
        kind: TransactionType::Deposit,
        client: 1,
        tx: 2,
        amount: Some(dec(5890, 3)),
        ..Default::default()
    };
    parse_single_transaction(
        &mut transaction,
        &mut test_context.clients,
        &mut test_context.past_transactions,
        &mut test_context.disputed_transactions,
    )
    .unwrap();
    assert!(transaction.succeeded);

    assert_eq!(test_context.clients[&1].available, dec(7890, 3));
    assert_eq!(test_context.clients[&1].held, dec(0, 0));
    assert_eq!(test_context.clients[&1].total, dec(7890, 3));
    assert_eq!(test_context.clients[&1].locked, false);
    assert_eq!(test_context.clients.len(), 1);
    assert_eq!(test_context.past_transactions.len(), 2);
    assert_eq!(test_context.disputed_transactions.len(), 0);
}

#[test]
fn test_widthdrawal_enough_fund() {
    let mut test_context = TestContext::default();
    let mut transaction = Transaction {
        kind: TransactionType::Deposit,
        client: 1,
        tx: 1,
        amount: Some(dec(201234, 4)),
        ..Default::default()
    };
    parse_single_transaction(
        &mut transaction,
        &mut test_context.clients,
        &mut test_context.past_transactions,
        &mut test_context.disputed_transactions,
    )
    .unwrap();
    assert!(transaction.succeeded);

    let mut transaction = Transaction {
        kind: TransactionType::Widthdrawal,
        client: 1,
        tx: 2,
        amount: Some(dec(10001, 3)),
        ..Default::default()
    };
    parse_single_transaction(
        &mut transaction,
        &mut test_context.clients,
        &mut test_context.past_transactions,
        &mut test_context.disputed_transactions,
    )
    .unwrap();
    assert!(transaction.succeeded);

    assert_eq!(test_context.clients[&1].available, dec(101224, 4));
    assert_eq!(test_context.clients[&1].held, dec(0, 0));
    assert_eq!(test_context.clients[&1].total, dec(101224, 4));
    assert_eq!(test_context.clients[&1].locked, false);
    assert_eq!(test_context.clients.len(), 1);
    assert_eq!(test_context.past_transactions.len(), 2);
    assert_eq!(test_context.disputed_transactions.len(), 0);
}

#[test]
fn test_widthdrawal_not_enough_fund() {
    let mut test_context = TestContext::default();
    let mut transaction = Transaction {
        kind: TransactionType::Deposit,
        client: 1,
        tx: 1,
        amount: Some(dec(201234, 4)),
        ..Default::default()
    };
    parse_single_transaction(
        &mut transaction,
        &mut test_context.clients,
        &mut test_context.past_transactions,
        &mut test_context.disputed_transactions,
    )
    .unwrap();
    assert!(transaction.succeeded);

    let mut transaction = Transaction {
        kind: TransactionType::Widthdrawal,
        client: 1,
        tx: 2,
        amount: Some(dec(2012345, 5)),
        ..Default::default()
    };
    parse_single_transaction(
        &mut transaction,
        &mut test_context.clients,
        &mut test_context.past_transactions,
        &mut test_context.disputed_transactions,
    )
    .unwrap();
    assert!(!transaction.succeeded);

    assert_eq!(test_context.clients[&1].available, dec(201234, 4));
    assert_eq!(test_context.clients[&1].held, dec(0, 0));
    assert_eq!(test_context.clients[&1].total, dec(201234, 4));
    assert_eq!(test_context.clients[&1].locked, false);
    assert_eq!(test_context.clients.len(), 1);
    assert_eq!(test_context.past_transactions.len(), 1);
    assert_eq!(test_context.disputed_transactions.len(), 0);
}

#[test]
fn test_dispute_tx_exists() {
    let mut test_context = TestContext::default();
    let mut transaction = Transaction {
        kind: TransactionType::Deposit,
        client: 1,
        tx: 1,
        amount: Some(dec(201234, 4)),
        ..Default::default()
    };
    parse_single_transaction(
        &mut transaction,
        &mut test_context.clients,
        &mut test_context.past_transactions,
        &mut test_context.disputed_transactions,
    )
    .unwrap();
    assert!(transaction.succeeded);

    let mut transaction = Transaction {
        kind: TransactionType::Deposit,
        client: 1,
        tx: 2,
        amount: Some(dec(1123, 3)),
        ..Default::default()
    };
    parse_single_transaction(
        &mut transaction,
        &mut test_context.clients,
        &mut test_context.past_transactions,
        &mut test_context.disputed_transactions,
    )
    .unwrap();
    assert!(transaction.succeeded);

    let mut transaction = Transaction {
        kind: TransactionType::Dispute,
        client: 1,
        tx: 2,
        ..Default::default()
    };
    parse_single_transaction(
        &mut transaction,
        &mut test_context.clients,
        &mut test_context.past_transactions,
        &mut test_context.disputed_transactions,
    )
    .unwrap();
    assert!(transaction.succeeded);

    assert_eq!(test_context.clients[&1].available, dec(201234, 4));
    assert_eq!(test_context.clients[&1].held, dec(1123, 3));
    assert_eq!(
        test_context.clients[&1].total,
        amount_of(Decimal::new(201234, 4) + Decimal::new(1123, 3))
    );
    assert_eq!(test_context.clients[&1].locked, false);
    assert_eq!(test_context.clients.len(), 1);
    assert_eq!(test_context.past_transactions.len(), 2);
    assert_eq!(test_context.disputed_transactions.len(), 1);
}

#[test]
fn test_dispute_tx_does_not_exist() {
    let mut test_context = TestContext::default();
    let mut transaction = Transaction {
        kind: TransactionType::Deposit,
        client: 1,
        tx: 1,
        amount: Some(dec(201234, 4)),
        ..Default::default()
    };
    parse_single_transaction(
        &mut transaction,
        &mut test_context.clients,
        &mut test_context.past_transactions,
        &mut test_context.disputed_transactions,
    )
    .unwrap();
    assert!(transaction.succeeded);

    let mut transaction = Transaction {
        kind: TransactionType::Deposit,
        client: 1,
        tx: 2,
        amount: Some(dec(1123, 3)),
        ..Default::default()
    };
    parse_single_transaction(
        &mut transaction,
        &mut test_context.clients,
        &mut test_context.past_transactions,
        &mut test_context.disputed_transactions,
    )
    .unwrap();
    assert!(transaction.succeeded);

    let mut transaction = Transaction {
        kind: TransactionType::Dispute,
        client: 1,
        tx: 3,
        ..Default::default()
    };
    parse_single_transaction(
        &mut transaction,
        &mut test_context.clients,
        &mut test_context.past_transactions,
        &mut test_context.disputed_transactions,
    )
    .unwrap();
    assert!(!transaction.succeeded);

    assert_eq!(
        test_context.clients[&1].available,
        amount_of(Decimal::new(201234, 4) + Decimal::new(1123, 3))
    );
    assert_eq!(test_context.clients[&1].held, dec(0, 0));
    assert_eq!(
        test_context.clients[&1].total,
        amount_of(Decimal::new(201234, 4) + Decimal::new(1123, 3))
    );
    assert_eq!(test_context.clients[&1].locked, false);
    assert_eq!(test_context.clients.len(), 1);
    assert_eq!(test_context.past_transactions.len(), 2);
    assert_eq!(test_context.disputed_transactions.len(), 0);
}

#[test]
fn test_resolve_tx_exists() {
    let mut test_context = TestContext::default();
    let mut transaction = Transaction {
        kind: TransactionType::Deposit,
        client: 1,
        tx: 1,
        amount: Some(dec(201234, 4)),
        ..Default::default()
    };
    parse_single_transaction(
        &mut transaction,
        &mut test_context.clients,
        &mut test_context.past_transactions,
        &mut test_context.disputed_transactions,
    )
    .unwrap();
    assert!(transaction.succeeded);

    let mut transaction = Transaction {
        kind: TransactionType::Deposit,
        client: 1,
        tx: 2,
        amount: Some(dec(1123, 3)),
        ..Default::default()
    };
    parse_single_transaction(
        &mut transaction,
        &mut test_context.clients,
        &mut test_context.past_transactions,
        &mut test_context.disputed_transactions,
    )
    .unwrap();
    assert!(transaction.succeeded);

    let mut transaction = Transaction {
        kind: TransactionType::Dispute,
        client: 1,
        tx: 2,
        ..Default::default()
    };
    parse_single_transaction(
        &mut transaction,
        &mut test_context.clients,
        &mut test_context.past_transactions,
        &mut test_context.disputed_transactions,
    )
    .unwrap();
    assert!(transaction.succeeded);

    let mut transaction = Transaction {
        kind: TransactionType::Resolve,
        client: 1,
        tx: 2,
        ..Default::default()
    };
    parse_single_transaction(
        &mut transaction,
        &mut test_context.clients,
        &mut test_context.past_transactions,
        &mut test_context.disputed_transactions,
    )
    .unwrap();
    assert!(transaction.succeeded);

    assert_eq!(
        test_context.clients[&1].available,
        amount_of(Decimal::new(201234, 4) + Decimal::new(1123, 3))
    );
    assert_eq!(test_context.clients[&1].held, dec(0, 0));
    assert_eq!(
        test_context.clients[&1].total,
        amount_of(Decimal::new(201234, 4) + Decimal::new(1123, 3))
    );
    assert_eq!(test_context.clients[&1].locked, false);
    assert_eq!(test_context.clients.len(), 1);
    assert_eq!(test_context.past_transactions.len(), 2);
    assert_eq!(test_context.disputed_transactions.len(), 0);
}

#[test]
fn test_resolve_tx_does_not_exist() {
    let mut test_context = TestContext::default();
    let mut transaction = Transaction {
        kind: TransactionType::Deposit,
        client: 1,
        tx: 1,
        amount: Some(dec(201234, 4)),
        ..Default::default()
    };
    parse_single_transaction(
        &mut transaction,
        &mut test_context.clients,
        &mut test_context.past_transactions,
        &mut test_context.disputed_transactions,
    )
    .unwrap();
    assert!(transaction.succeeded);

    let mut transaction = Transaction {
        kind: TransactionType::Deposit,
        client: 1,
        tx: 2,
        amount: Some(dec(1123, 3)),
        ..Default::default()
    };
    parse_single_transaction(
        &mut transaction,
        &mut test_context.clients,
        &mut test_context.past_transactions,
        &mut test_context.disputed_transactions,
    )
    .unwrap();
    assert!(transaction.succeeded);

    let mut transaction = Transaction {
        kind: TransactionType::Dispute,
        client: 1,
        tx: 3,
        ..Default::default()
    };
    parse_single_transaction(
        &mut transaction,
        &mut test_context.clients,
        &mut test_context.past_transactions,
        &mut test_context.disputed_transactions,
    )
    .unwrap();
    assert!(!transaction.succeeded);

    let mut transaction = Transaction {
        kind: TransactionType::Resolve,
        client: 1,
        tx: 3,
        ..Default::default()
    };
    parse_single_transaction(
        &mut transaction,
        &mut test_context.clients,
        &mut test_context.past_transactions,
        &mut test_context.disputed_transactions,
    )
    .unwrap();
    assert!(!transaction.succeeded);

    assert_eq!(
        test_context.clients[&1].available,
        amount_of(Decimal::new(201234, 4) + Decimal::new(1123, 3))
    );
    assert_eq!(test_context.clients[&1].held, dec(0, 0));
    assert_eq!(
        test_context.clients[&1].total,
        amount_of(Decimal::new(201234, 4) + Decimal::new(1123, 3))
    );
    assert_eq!(test_context.clients[&1].locked, false);
    assert_eq!(test_context.clients.len(), 1);
    assert_eq!(test_context.past_transactions.len(), 2);
    assert_eq!(test_context.disputed_transactions.len(), 0);
}

#[test]
fn test_resolve_chargeback_exists() {
    let mut test_context = TestContext::default();
    let mut transaction = Transaction {
        kind: TransactionType::Deposit,
        client: 1,
        tx: 1,
        amount: Some(dec(201234, 4)),
        ..Default::default()
    };
    parse_single_transaction(
        &mut transaction,
        &mut test_context.clients,
        &mut test_context.past_transactions,
        &mut test_context.disputed_transactions,
    )
    .unwrap();
    assert!(transaction.succeeded);

    let mut transaction = Transaction {
        kind: TransactionType::Deposit,
        client: 1,
        tx: 2,
        amount: Some(dec(1123, 3)),
        ..Default::default()
    };
    parse_single_transaction(
        &mut transaction,
        &mut test_context.clients,
        &mut test_context.past_transactions,
        &mut test_context.disputed_transactions,
    )
    .unwrap();
    assert!(transaction.succeeded);

    let mut transaction = Transaction {
        kind: TransactionType::Dispute,
        client: 1,
        tx: 2,
        ..Default::default()
    };
    parse_single_transaction(
        &mut transaction,
        &mut test_context.clients,
        &mut test_context.past_transactions,
        &mut test_context.disputed_transactions,
    )
    .unwrap();
    assert!(transaction.succeeded);

    let mut transaction = Transaction {
        kind: TransactionType::Chargeback,
        client: 1,
        tx: 2,
        ..Default::default()
    };
    parse_single_transaction(
        &mut transaction,
        &mut test_context.clients,
        &mut test_context.past_transactions,
        &mut test_context.disputed_transactions,
    )
    .unwrap();
    assert!(transaction.succeeded);

    assert_eq!(test_context.clients[&1].available, dec(201234, 4));
    assert_eq!(test_context.clients[&1].held, dec(0, 0));
    assert_eq!(test_context.clients[&1].total, dec(201234, 4));
    assert!(test_context.clients[&1].locked);
    assert_eq!(test_context.clients.len(), 1);
    assert_eq!(test_context.past_transactions.len(), 2);
    assert_eq!(test_context.disputed_transactions.len(), 0);
}

#[test]
fn test_resolve_chargeback_does_not_exist() {
    let mut test_context = TestContext::default();
    let mut transaction = Transaction {
        kind: TransactionType::Deposit,
        client: 1,
        tx: 1,
        amount: Some(dec(201234, 4)),
        ..Default::default()
    };
    parse_single_transaction(
        &mut transaction,
        &mut test_context.clients,
        &mut test_context.past_transactions,
        &mut test_context.disputed_transactions,
    )
    .unwrap();
    assert!(transaction.succeeded);

    let mut transaction = Transaction {
        kind: TransactionType::Deposit,
        client: 1,
        tx: 2,
        amount: Some(dec(1123, 3)),
        ..Default::default()
    };
    parse_single_transaction(
        &mut transaction,
        &mut test_context.clients,
        &mut test_context.past_transactions,
        &mut test_context.disputed_transactions,
    )
    .unwrap();
    assert!(transaction.succeeded);

    let mut transaction = Transaction {
        kind: TransactionType::Resolve,
        client: 1,
        tx: 3,
        ..Default::default()
    };
    parse_single_transaction(
        &mut transaction,
        &mut test_context.clients,
        &mut test_context.past_transactions,
        &mut test_context.disputed_transactions,
    )
    .unwrap();
    assert!(!transaction.succeeded);

    assert_eq!(
        test_context.clients[&1].available,
        amount_of(Decimal::new(201234, 4) + Decimal::new(1123, 3))
    );
    assert_eq!(test_context.clients[&1].held, dec(0, 0));
    assert_eq!(
        test_context.clients[&1].total,
        amount_of(Decimal::new(201234, 4) + Decimal::new(1123, 3))
    );
    assert!(!test_context.clients[&1].locked);
    assert_eq!(test_context.clients.len(), 1);
    assert_eq!(test_context.past_transactions.len(), 2);
    assert_eq!(test_context.disputed_transactions.len(), 0);
}

#[test]
fn chargeback_example_ends_locked_with_the_first_deposit() {
    let mut test_context = TestContext::default();
    let mut records = vec![
        Transaction {
            kind: TransactionType::Deposit,
            client: 1,
            tx: 1,
            amount: Some(dec(201234, 4)),
            ..Default::default()
        },
        Transaction {
            kind: TransactionType::Deposit,
            client: 1,
            tx: 2,
            amount: Some(dec(1123, 3)),
            ..Default::default()
        },
        Transaction { kind: TransactionType::Dispute, client: 1, tx: 2, ..Default::default() },
        Transaction { kind: TransactionType::Chargeback, client: 1, tx: 2, ..Default::default() },
    ];
    for record in records.iter_mut() {
        assert_eq!(apply(&mut test_context, record), Outcome::Applied);
    }
    let account = test_context.clients[&1];
    assert_eq!(account.available, dec(201234, 4));
    assert_eq!(account.held, dec(0, 0));
    assert_eq!(account.total, dec(201234, 4));
    assert!(account.locked);
    assert_eq!(account.available.to_string(), "20.1234");
    assert_eq!(account.total.to_string(), "20.1234");
}

#[test]
fn overdraft_example_keeps_the_deposit_only() {
    let mut test_context = TestContext::default();
    let mut deposit = Transaction {
        kind: TransactionType::Deposit,
        client: 1,
        tx: 1,
        amount: Some(dec(20, 1)),
        ..Default::default()
    };
    let mut withdrawal = Transaction {
        kind: TransactionType::Widthdrawal,
        client: 1,
        tx: 2,
        amount: Some(dec(100, 1)),
        ..Default::default()
    };
    assert_eq!(apply(&mut test_context, &mut deposit), Outcome::Applied);
    assert_eq!(
        apply(&mut test_context, &mut withdrawal),
        Outcome::Rejected(Rejection::InsufficientFunds)
    );
    assert!(!withdrawal.succeeded);
    let account = test_context.clients[&1];
    assert_eq!(account.available, dec(20, 1));
    assert_eq!(account.held, dec(0, 0));
    assert_eq!(account.total, dec(20, 1));
    assert!(!account.locked);
    assert_eq!(test_context.past_transactions.len(), 1);
    assert!(test_context.past_transactions.contains_key(&1));
    assert!(!test_context.past_transactions.contains_key(&2));
}
