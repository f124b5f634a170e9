//! Applying transaction records to the ledger, one at a time.
//!
//! The ledger is three maps: the client accounts by client id, the history
//! of applied deposits and withdrawals by transaction id, and the records
//! under an open dispute by transaction id. [`Ledger::step`] says what one
//! record does to them; [`parse_single_transaction`] does it.

use crate::amount::Amount;
use crate::entities::client::Client;
use crate::entities::transaction::{Transaction, TransactionType};
use std::collections::HashMap;
use vstd::prelude::*;

verus! {

broadcast use vstd::std_specs::hash::group_hash_axioms;

/// Why a record was turned down. The ledger goes on with the next record.
#[derive(Debug, Clone, Copy, PartialEq, Eq, Structural)]
pub enum Rejection {
    /// The account has less available than the record asks for.
    InsufficientFunds,
    /// The history holds no transaction with the id the record names.
    UnknownTransaction,
    /// The transaction the dispute names is not a deposit.
    NotADeposit,
    /// The transaction the dispute names has been charged back.
    ChargedBack,
    /// No dispute is open on the transaction the record names.
    NotDisputed,
}

/// What became of a record that the ledger could evaluate.
#[derive(Debug, Clone, Copy, PartialEq, Eq, Structural)]
pub enum Outcome {
    Applied,
    Rejected(Rejection),
}

/// Why the ledger cannot go on.
#[derive(Debug, Clone, Copy, PartialEq, Eq, Structural)]
pub enum LedgerError {
    /// A deposit or a withdrawal without an amount.
    MissingAmount,
    /// The decimal arithmetic overflowed or rounded a balance.
    InexactBalance,
}

/// The state of the ledger.
pub struct Ledger {
    pub clients: Map<u16, Client>,
    pub past_transactions: Map<u32, Transaction>,
    pub disputed_transactions: Map<u32, Transaction>,
}

/// A ledger after a record, and what became of the record.
pub struct Step {
    pub ledger: Ledger,
    pub result: Result<Outcome, LedgerError>,
}

impl Ledger {
    /// The ledger before any record: no account, no history, no dispute.
    pub open spec fn empty() -> Ledger {
        Ledger {
            clients: Map::empty(),
            past_transactions: Map::empty(),
            disputed_transactions: Map::empty(),
        }
    }

    /// The account of a client: the stored one, or a newly opened one.
    pub open spec fn account(self, id: u16) -> Client {
        if self.clients.contains_key(id) {
            self.clients[id]
        } else {
            Client::opened(id)
        }
    }

    /// The ledger halts: nothing changes.
    pub open spec fn halted(self, error: LedgerError) -> Step {
        Step { ledger: self, result: Err(error) }
    }

    /// The record of client `id` is turned down: the account exists
    /// afterwards, and nothing else changes.
    pub open spec fn rejected(self, id: u16, rejection: Rejection) -> Step {
        Step {
            ledger: Ledger { clients: self.clients.insert(id, self.account(id)), ..self },
            result: Ok(Outcome::Rejected(rejection)),
        }
    }

    /// A deposit or a withdrawal is applied: the account is replaced and the
    /// record enters the history.
    pub open spec fn recorded(self, record: Transaction, account: Option<Client>) -> Step {
        match account {
            Some(account) => Step {
                ledger: Ledger {
                    clients: self.clients.insert(record.client, account),
                    past_transactions: self.past_transactions.insert(record.tx, record.stored()),
                    ..self
                },
                result: Ok(Outcome::Applied),
            },
            None => self.halted(LedgerError::InexactBalance),
        }
    }

    /// A dispute on transaction `tx`, stored as `past`, is applied: the
    /// account is replaced and the stored record enters the disputed records.
    pub open spec fn disputed(
        self,
        id: u16,
        tx: u32,
        past: Transaction,
        account: Option<Client>,
    ) -> Step {
        match account {
            Some(account) => Step {
                ledger: Ledger {
                    clients: self.clients.insert(id, account),
                    disputed_transactions: self.disputed_transactions.insert(tx, past),
                    ..self
                },
                result: Ok(Outcome::Applied),
            },
            None => self.halted(LedgerError::InexactBalance),
        }
    }

    /// A resolve is applied: the account is replaced and the dispute on
    /// transaction `tx` is closed.
    pub open spec fn resolved(self, id: u16, tx: u32, account: Option<Client>) -> Step {
        match account {
            Some(account) => Step {
                ledger: Ledger {
                    clients: self.clients.insert(id, account),
                    disputed_transactions: self.disputed_transactions.remove(tx),
                    ..self
                },
                result: Ok(Outcome::Applied),
            },
            None => self.halted(LedgerError::InexactBalance),
        }
    }

    /// The history once transaction `tx` has been charged back: its record,
    /// if there is one, is retired.
    pub open spec fn history_without(self, tx: u32) -> Map<u32, Transaction> {
        if self.past_transactions.contains_key(tx) {
            self.past_transactions.insert(tx, self.past_transactions[tx].retired())
        } else {
            self.past_transactions
        }
    }

    /// A chargeback is applied: the account is replaced, the dispute on
    /// transaction `tx` is closed and the transaction is retired.
    pub open spec fn charged_back(self, id: u16, tx: u32, account: Option<Client>) -> Step {
        match account {
            Some(account) => Step {
                ledger: Ledger {
                    clients: self.clients.insert(id, account),
                    past_transactions: self.history_without(tx),
                    disputed_transactions: self.disputed_transactions.remove(tx),
                },
                result: Ok(Outcome::Applied),
            },
            None => self.halted(LedgerError::InexactBalance),
        }
    }

    /// What one record does to the ledger.
    ///
    /// Every record acts on the account of its own client, which is opened if
    /// it does not exist. Transaction ids are looked up across all clients.
    pub open spec fn step(self, record: Transaction) -> Step {
        let account = self.account(record.client);
        match record.kind {
            TransactionType::Deposit => match record.amount {
                None => self.halted(LedgerError::MissingAmount),
                Some(amount) => self.recorded(record, account.after_deposit(amount)),
            },
            TransactionType::Widthdrawal => match record.amount {
                None => self.halted(LedgerError::MissingAmount),
                Some(amount) => if account.available.units() < amount.units() {
                    self.rejected(record.client, Rejection::InsufficientFunds)
                } else {
                    self.recorded(record, account.after_withdrawal(amount))
                },
            },
            TransactionType::Dispute => if !self.past_transactions.contains_key(record.tx) {
                self.rejected(record.client, Rejection::UnknownTransaction)
            } else {
                let past = self.past_transactions[record.tx];
                if past.kind != TransactionType::Deposit {
                    self.rejected(record.client, Rejection::NotADeposit)
                } else if past.charged_back {
                    self.rejected(record.client, Rejection::ChargedBack)
                } else {
                    match past.amount {
                        None => self.halted(LedgerError::MissingAmount),
                        Some(amount) => if account.available.units() < amount.units() {
                            self.rejected(record.client, Rejection::InsufficientFunds)
                        } else {
                            self.disputed(
                                record.client,
                                record.tx,
                                past,
                                account.after_dispute(amount),
                            )
                        },
                    }
                }
            },
            TransactionType::Resolve => if !self.disputed_transactions.contains_key(record.tx) {
                self.rejected(record.client, Rejection::NotDisputed)
            } else {
                match self.disputed_transactions[record.tx].amount {
                    None => self.halted(LedgerError::MissingAmount),
                    Some(amount) => self.resolved(
                        record.client,
                        record.tx,
                        account.after_resolve(amount),
                    ),
                }
            },
            TransactionType::Chargeback => if !self.disputed_transactions.contains_key(record.tx) {
                self.rejected(record.client, Rejection::NotDisputed)
            } else {
                match self.disputed_transactions[record.tx].amount {
                    None => self.halted(LedgerError::MissingAmount),
                    Some(amount) => self.charged_back(
                        record.client,
                        record.tx,
                        account.after_chargeback(amount),
                    ),
                }
            },
        }
    }

    /// The ledger after the records, applied in order; `None` where one of
    /// them halts the ledger.
    pub open spec fn run(self, records: Seq<Transaction>) -> Option<Ledger>
        decreases records.len(),
    {
        if records.len() == 0 {
            Some(self)
        } else {
            match self.run(records.drop_last()) {
                Some(ledger) => {
                    let next = ledger.step(records.last());
                    match next.result {
                        Ok(_) => Some(next.ledger),
                        Err(_) => None,
                    }
                },
                None => None,
            }
        }
    }
}

/// Applies one record to the ledger held in the three maps.
///
/// The maps afterwards and the result are those of [`Ledger::step`]. The
/// record is marked as succeeded where it was applied and is otherwise left
/// as it was. On an error nothing has changed.
pub fn parse_single_transaction(
    transaction: &mut Transaction,
    clients: &mut HashMap<u16, Client>,
    past_transactions: &mut HashMap<u32, Transaction>,
    disputed_transactions: &mut HashMap<u32, Transaction>,
) -> (result: Result<Outcome, LedgerError>)
    ensures
        ({
            let before = Ledger {
                clients: old(clients)@,
                past_transactions: old(past_transactions)@,
                disputed_transactions: old(disputed_transactions)@,
            };
            let next = before.step(*old(transaction));
            &&& result == next.result
            &&& final(clients)@ == next.ledger.clients
            &&& final(past_transactions)@ == next.ledger.past_transactions
            &&& final(disputed_transactions)@ == next.ledger.disputed_transactions
            &&& *final(transaction) == Transaction {
                succeeded: old(transaction).succeeded || result == Ok::<Outcome, LedgerError>(
                    Outcome::Applied,
                ),
                ..*old(transaction)
            }
        }),
{
    let id = transaction.client;
    let tx = transaction.tx;
    let client = match clients.get(&id) {
        Some(client) => *client,
        None => Client::open(id),
    };
    match transaction.kind {
        TransactionType::Deposit => {
            let amount = match transaction.amount {
                Some(amount) => amount,
                None => return Err(LedgerError::MissingAmount),
            };
            let updated = match client.deposit(&amount) {
                Some(updated) => updated,
                None => return Err(LedgerError::InexactBalance),
            };
            transaction.succeeded = true;
            clients.insert(id, updated);
            past_transactions.insert(tx, stored_record(transaction));
            Ok(Outcome::Applied)
        },
        TransactionType::Widthdrawal => {
            let amount = match transaction.amount {
                Some(amount) => amount,
                None => return Err(LedgerError::MissingAmount),
            };
            if client.available < amount {
                clients.insert(id, client);
                return Ok(Outcome::Rejected(Rejection::InsufficientFunds));
            }
            let updated = match client.withdraw(&amount) {
                Some(updated) => updated,
                None => return Err(LedgerError::InexactBalance),
            };
            transaction.succeeded = true;
            clients.insert(id, updated);
            past_transactions.insert(tx, stored_record(transaction));
            Ok(Outcome::Applied)
        },
        TransactionType::Dispute => {
            let past = match past_transactions.get(&tx) {
                Some(past) => *past,
                None => {
                    clients.insert(id, client);
                    return Ok(Outcome::Rejected(Rejection::UnknownTransaction));
                },
            };
            if past.kind != TransactionType::Deposit {
                clients.insert(id, client);
                return Ok(Outcome::Rejected(Rejection::NotADeposit));
            }
            if past.charged_back {
                clients.insert(id, client);
                return Ok(Outcome::Rejected(Rejection::ChargedBack));
            }
            let amount = match past.amount {
                Some(amount) => amount,
                None => return Err(LedgerError::MissingAmount),
            };
            if client.available < amount {
                clients.insert(id, client);
                return Ok(Outcome::Rejected(Rejection::InsufficientFunds));
            }
            let updated = match client.dispute(&amount) {
                Some(updated) => updated,
                None => return Err(LedgerError::InexactBalance),
            };
            transaction.succeeded = true;
            clients.insert(id, updated);
            disputed_transactions.insert(tx, past);
            Ok(Outcome::Applied)
        },
        TransactionType::Resolve => {
            let disputed = match disputed_transactions.get(&tx) {
                Some(disputed) => *disputed,
                None => {
                    clients.insert(id, client);
                    return Ok(Outcome::Rejected(Rejection::NotDisputed));
                },
            };
            let amount = match disputed.amount {
                Some(amount) => amount,
                None => return Err(LedgerError::MissingAmount),
            };
            let updated = match client.resolve(&amount) {
                Some(updated) => updated,
                None => return Err(LedgerError::InexactBalance),
            };
            transaction.succeeded = true;
            clients.insert(id, updated);
            disputed_transactions.remove(&tx);
            Ok(Outcome::Applied)
        },
        TransactionType::Chargeback => {
            let disputed = match disputed_transactions.get(&tx) {
                Some(disputed) => *disputed,
                None => {
                    clients.insert(id, client);
                    return Ok(Outcome::Rejected(Rejection::NotDisputed));
                },
            };
            let amount = match disputed.amount {
                Some(amount) => amount,
                None => return Err(LedgerError::MissingAmount),
            };
            let updated = match client.chargeback(&amount) {
                Some(updated) => updated,
                None => return Err(LedgerError::InexactBalance),
            };
            transaction.succeeded = true;
            clients.insert(id, updated);
            disputed_transactions.remove(&tx);
            let retired = match past_transactions.get(&tx) {
                Some(past) => Some(retired_record(past)),
                None => None,
            };
            if let Some(retired) = retired {
                past_transactions.insert(tx, retired);
            }
            Ok(Outcome::Applied)
        },
    }
}

/// The record as the history keeps it.
fn stored_record(record: &Transaction) -> (r: Transaction)
    ensures
        r == record.stored(),
{
    Transaction {
        kind: record.kind,
        client: record.client,
        tx: record.tx,
        amount: record.amount,
        succeeded: true,
        charged_back: false,
    }
}

/// The stored record once it has been charged back.
fn retired_record(record: &Transaction) -> (r: Transaction)
    ensures
        r == record.retired(),
{
    Transaction {
        kind: record.kind,
        client: record.client,
        tx: record.tx,
        amount: record.amount,
        succeeded: record.succeeded,
        charged_back: true,
    }
}

} // verus!
