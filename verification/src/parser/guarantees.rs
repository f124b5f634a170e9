//! What holds of the ledger, whatever records it is given.
//!
//! Balances are compared by value, in units of `10^-28`: a step either
//! computes every balance exactly or halts, so none of these statements
//! carries a rounding error.

use crate::entities::client::Client;
use crate::entities::transaction::{Transaction, TransactionType};
use crate::parser::parser::{Ledger, LedgerError, Outcome, Rejection};
use vstd::prelude::*;

verus! {

/// The value of the amount a record carries; zero where it carries none.
pub open spec fn carried(record: Transaction) -> int {
    match record.amount {
        Some(amount) => amount.units(),
        None => 0,
    }
}

/// The sum of the values that the records carry.
pub open spec fn carried_sum(records: Seq<Transaction>) -> int
    decreases records.len(),
{
    if records.len() == 0 {
        0
    } else {
        carried_sum(records.drop_last()) + carried(records.last())
    }
}

/// Whether the record would store a transaction under the id `tx`.
pub open spec fn stores_under(record: Transaction, tx: u32) -> bool {
    &&& record.tx == tx
    &&& record.kind == TransactionType::Deposit || record.kind == TransactionType::Widthdrawal
}

impl Ledger {
    /// Whether every account's total is what it has available and what it
    /// has held together.
    pub open spec fn balanced(self) -> bool {
        forall|id: u16| self.clients.contains_key(id) ==> (#[trigger] self.clients[id]).balanced()
    }

    /// Whether `after` is this ledger with nothing changed but that the
    /// account of client `id` has been opened if it did not exist.
    pub open spec fn only_opened(self, id: u16, after: Ledger) -> bool {
        &&& after.clients == self.clients.insert(id, self.account(id))
        &&& after.past_transactions == self.past_transactions
        &&& after.disputed_transactions == self.disputed_transactions
    }

    /// Whether transaction `tx` is out of play: no dispute is open on it, and
    /// the record the history holds for it, if any, has been charged back.
    pub open spec fn retired(self, tx: u32) -> bool {
        &&& !self.disputed_transactions.contains_key(tx)
        &&& self.past_transactions.contains_key(tx) ==> self.past_transactions[tx].charged_back
    }

    /// A step keeps every account balanced: after any record, each total is
    /// still exactly what is available and what is held together.
    pub proof fn lemma_step_keeps_balance(self, record: Transaction)
        requires
            self.balanced(),
        ensures
            self.step(record).ledger.balanced(),
    {
        let account = self.account(record.client);
        Client::lemma_opened_is_empty(record.client);
        assert(account.balanced());
        if let Some(amount) = record.amount {
            account.lemma_movements(amount);
        }
        if self.past_transactions.contains_key(record.tx) {
            if let Some(amount) = self.past_transactions[record.tx].amount {
                account.lemma_movements(amount);
            }
        }
        if self.disputed_transactions.contains_key(record.tx) {
            if let Some(amount) = self.disputed_transactions[record.tx].amount {
                account.lemma_movements(amount);
            }
        }
    }

    /// The ledger starts balanced and stays so: after any sequence of records
    /// that does not halt it, every account's total is exactly what it has
    /// available and what it has held together.
    pub proof fn lemma_run_keeps_balance(self, records: Seq<Transaction>)
        requires
            self.balanced(),
        ensures
            Ledger::empty().balanced(),
            self.run(records) matches Some(end) ==> end.balanced(),
        decreases records.len(),
    {
        if records.len() > 0 {
            self.lemma_run_keeps_balance(records.drop_last());
            if let Some(ledger) = self.run(records.drop_last()) {
                ledger.lemma_step_keeps_balance(records.last());
            }
        }
    }

    /// A step deletes no account, gives no account another id than it had,
    /// and unlocks none.
    pub proof fn lemma_step_keeps_accounts(self, record: Transaction, id: u16)
        requires
            self.clients.contains_key(id),
        ensures
            self.step(record).ledger.clients.contains_key(id),
            self.step(record).ledger.clients[id].id == self.clients[id].id,
            self.clients[id].locked ==> self.step(record).ledger.clients[id].locked,
    {
        let account = self.account(record.client);
        if let Some(amount) = record.amount {
            account.lemma_movements(amount);
        }
        if self.past_transactions.contains_key(record.tx) {
            if let Some(amount) = self.past_transactions[record.tx].amount {
                account.lemma_movements(amount);
            }
        }
        if self.disputed_transactions.contains_key(record.tx) {
            if let Some(amount) = self.disputed_transactions[record.tx].amount {
                account.lemma_movements(amount);
            }
        }
    }

    /// A lock is permanent: an account that is locked exists and is locked
    /// after any sequence of records.
    pub proof fn lemma_lock_is_permanent(self, records: Seq<Transaction>, id: u16)
        requires
            self.clients.contains_key(id),
            self.clients[id].locked,
        ensures
            self.run(records) matches Some(end) ==> end.clients.contains_key(id)
                && end.clients[id].locked,
        decreases records.len(),
    {
        if records.len() > 0 {
            self.lemma_lock_is_permanent(records.drop_last(), id);
            if let Some(ledger) = self.run(records.drop_last()) {
                ledger.lemma_step_keeps_accounts(records.last(), id);
            }
        }
    }

    /// Deposits add up. After a sequence of deposits of one client that does
    /// not halt the ledger, the client has available, and in total, what it
    /// had before and the sum of the deposits, and holds what it held before.
    /// For a client without an account before, available and total are the
    /// sum of the deposits and nothing is held.
    pub proof fn lemma_deposits_add_up(self, records: Seq<Transaction>, id: u16)
        requires
            forall|i: int|
                0 <= i < records.len() ==> (#[trigger] records[i]).kind == TransactionType::Deposit
                    && records[i].client == id,
        ensures
            self.run(records) matches Some(end) ==> {
                let before = self.account(id);
                let after = end.account(id);
                &&& after.available.units() == before.available.units() + carried_sum(records)
                &&& after.total.units() == before.total.units() + carried_sum(records)
                &&& after.held == before.held
                &&& !self.clients.contains_key(id) ==> {
                    &&& after.available.units() == carried_sum(records)
                    &&& after.total.units() == carried_sum(records)
                    &&& after.held.units() == 0
                }
            },
        decreases records.len(),
    {
        Client::lemma_opened_is_empty(id);
        if records.len() > 0 {
            let earlier = records.drop_last();
            self.lemma_deposits_add_up(earlier, id);
            if let Some(ledger) = self.run(earlier) {
                let record = records.last();
                if let Some(amount) = record.amount {
                    ledger.account(id).lemma_movements(amount);
                }
            }
        }
    }

    /// A withdrawal of more than is available is turned down: no balance
    /// changes, and neither the history nor the disputed records change, so
    /// nothing is stored under the withdrawal's id.
    pub proof fn lemma_overdraft_is_rejected(self, record: Transaction)
        requires
            record.kind == TransactionType::Widthdrawal,
            record.amount is Some,
            record.amount->0.units() > self.account(record.client).available.units(),
        ensures
            self.step(record).result == Ok::<Outcome, LedgerError>(
                Outcome::Rejected(Rejection::InsufficientFunds),
            ),
            self.only_opened(record.client, self.step(record).ledger),
            self.step(record).ledger.account(record.client) == self.account(record.client),
    {
    }

    /// A dispute on an id that the history does not hold changes nothing, and
    /// neither does one on a withdrawal. A dispute that is applied moves
    /// exactly the amount of the deposit from available to held and leaves
    /// the total as it was; the deposit stays in the history and is under
    /// dispute afterwards.
    pub proof fn lemma_dispute(self, record: Transaction)
        requires
            record.kind == TransactionType::Dispute,
        ensures
            !self.past_transactions.contains_key(record.tx) ==> {
                &&& self.step(record).result == Ok::<Outcome, LedgerError>(
                    Outcome::Rejected(Rejection::UnknownTransaction),
                )
                &&& self.only_opened(record.client, self.step(record).ledger)
            },
            self.past_transactions.contains_key(record.tx) && self.past_transactions[record.tx].kind
                != TransactionType::Deposit ==> {
                &&& self.step(record).result == Ok::<Outcome, LedgerError>(
                    Outcome::Rejected(Rejection::NotADeposit),
                )
                &&& self.only_opened(record.client, self.step(record).ledger)
            },
            self.step(record).result == Ok::<Outcome, LedgerError>(Outcome::Applied) ==> {
                let before = self.account(record.client);
                let after = self.step(record).ledger.account(record.client);
                let past = self.past_transactions[record.tx];
                &&& self.past_transactions.contains_key(record.tx)
                &&& past.kind == TransactionType::Deposit
                &&& past.amount is Some
                &&& after.available.units() == before.available.units() - past.amount->0.units()
                &&& after.held.units() == before.held.units() + past.amount->0.units()
                &&& after.total == before.total
                &&& after.locked == before.locked
                &&& self.step(record).ledger.past_transactions == self.past_transactions
                &&& self.step(record).ledger.disputed_transactions
                    == self.disputed_transactions.insert(record.tx, past)
            },
    {
        if self.past_transactions.contains_key(record.tx) {
            if let Some(amount) = self.past_transactions[record.tx].amount {
                self.account(record.client).lemma_movements(amount);
            }
        }
    }

    /// A resolve on an id that is not under dispute changes nothing. A
    /// resolve that is applied moves exactly the disputed amount back from
    /// held to available and leaves the total as it was; the dispute is
    /// closed and the history is as it was, so the transaction can be
    /// disputed again.
    pub proof fn lemma_resolve(self, record: Transaction)
        requires
            record.kind == TransactionType::Resolve,
        ensures
            !self.disputed_transactions.contains_key(record.tx) ==> {
                &&& self.step(record).result == Ok::<Outcome, LedgerError>(
                    Outcome::Rejected(Rejection::NotDisputed),
                )
                &&& self.only_opened(record.client, self.step(record).ledger)
            },
            self.step(record).result == Ok::<Outcome, LedgerError>(Outcome::Applied) ==> {
                let before = self.account(record.client);
                let after = self.step(record).ledger.account(record.client);
                let disputed = self.disputed_transactions[record.tx];
                &&& self.disputed_transactions.contains_key(record.tx)
                &&& disputed.amount is Some
                &&& after.available.units() == before.available.units()
                    + disputed.amount->0.units()
                &&& after.held.units() == before.held.units() - disputed.amount->0.units()
                &&& after.total == before.total
                &&& after.locked == before.locked
                &&& self.step(record).ledger.past_transactions == self.past_transactions
                &&& self.step(record).ledger.disputed_transactions
                    == self.disputed_transactions.remove(record.tx)
            },
    {
        if self.disputed_transactions.contains_key(record.tx) {
            if let Some(amount) = self.disputed_transactions[record.tx].amount {
                self.account(record.client).lemma_movements(amount);
            }
        }
    }

    /// A chargeback on an id that is not under dispute changes nothing. A
    /// chargeback that is applied takes exactly the disputed amount out of
    /// held and out of the total, leaves available as it was and locks the
    /// account; the dispute is closed and the transaction is retired.
    pub proof fn lemma_chargeback(self, record: Transaction)
        requires
            record.kind == TransactionType::Chargeback,
        ensures
            !self.disputed_transactions.contains_key(record.tx) ==> {
                &&& self.step(record).result == Ok::<Outcome, LedgerError>(
                    Outcome::Rejected(Rejection::NotDisputed),
                )
                &&& self.only_opened(record.client, self.step(record).ledger)
            },
            self.step(record).result == Ok::<Outcome, LedgerError>(Outcome::Applied) ==> {
                let before = self.account(record.client);
                let after = self.step(record).ledger.account(record.client);
                let disputed = self.disputed_transactions[record.tx];
                &&& self.disputed_transactions.contains_key(record.tx)
                &&& disputed.amount is Some
                &&& after.held.units() == before.held.units() - disputed.amount->0.units()
                &&& after.total.units() == before.total.units() - disputed.amount->0.units()
                &&& after.available == before.available
                &&& after.locked
                &&& self.step(record).ledger.past_transactions.dom() == self.past_transactions.dom()
                &&& self.step(record).ledger.disputed_transactions
                    == self.disputed_transactions.remove(record.tx)
                &&& self.step(record).ledger.retired(record.tx)
            },
    {
        if self.disputed_transactions.contains_key(record.tx) {
            if let Some(amount) = self.disputed_transactions[record.tx].amount {
                self.account(record.client).lemma_movements(amount);
            }
        }
        let after = self.step(record).ledger;
        if self.step(record).result == Ok::<Outcome, LedgerError>(Outcome::Applied) {
            assert(after.past_transactions.dom() =~= self.past_transactions.dom());
        }
    }

    /// A retired transaction stays retired under every record that does not
    /// store a transaction under its id anew.
    pub proof fn lemma_step_keeps_retired(self, record: Transaction, tx: u32)
        requires
            self.retired(tx),
            !stores_under(record, tx),
        ensures
            self.step(record).ledger.retired(tx),
    {
    }

    /// A dispute, a resolve or a chargeback on a retired transaction is
    /// turned down and changes nothing.
    pub proof fn lemma_retired_is_rejected(self, record: Transaction)
        requires
            self.retired(record.tx),
            record.kind == TransactionType::Dispute || record.kind == TransactionType::Resolve
                || record.kind == TransactionType::Chargeback,
        ensures
            self.step(record).result matches Ok(Outcome::Rejected(_)),
            self.only_opened(record.client, self.step(record).ledger),
    {
    }

    /// A chargeback is final. Once a chargeback on a transaction has been
    /// applied, then after any further records, none of which stores a
    /// transaction under the same id anew, a dispute, a resolve or a
    /// chargeback on that transaction is turned down and changes nothing.
    pub proof fn lemma_chargeback_is_final(
        self,
        chargeback: Transaction,
        later: Seq<Transaction>,
        probe: Transaction,
    )
        requires
            chargeback.kind == TransactionType::Chargeback,
            self.step(chargeback).result == Ok::<Outcome, LedgerError>(Outcome::Applied),
            forall|i: int| 0 <= i < later.len() ==> !stores_under(#[trigger] later[i], chargeback.tx),
            probe.tx == chargeback.tx,
            probe.kind == TransactionType::Dispute || probe.kind == TransactionType::Resolve
                || probe.kind == TransactionType::Chargeback,
        ensures
            self.step(chargeback).ledger.run(later) matches Some(end) ==> {
                &&& end.retired(chargeback.tx)
                &&& end.step(probe).result matches Ok(Outcome::Rejected(_))
                &&& end.only_opened(probe.client, end.step(probe).ledger)
            },
        decreases later.len(),
    {
        let start = self.step(chargeback).ledger;
        self.lemma_chargeback(chargeback);
        if later.len() > 0 {
            self.lemma_chargeback_is_final(chargeback, later.drop_last(), probe);
            if let Some(ledger) = start.run(later.drop_last()) {
                ledger.lemma_step_keeps_retired(later.last(), chargeback.tx);
            }
        }
        if let Some(end) = start.run(later) {
            end.lemma_retired_is_rejected(probe);
        }
    }
}

} // verus!
