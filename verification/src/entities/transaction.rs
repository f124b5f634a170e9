//! Transaction records.

use crate::amount::Amount;
use crate::entities::text::{integer_text, integer_to_string};
use vstd::prelude::*;
use vstd::string::StringExecFns;

verus! {

/// All available types
#[derive(Debug, Clone, Copy, PartialEq, Eq, Structural)]
pub enum TransactionType {
    Deposit,
    Widthdrawal,
    Dispute,
    Resolve,
    Chargeback,
}

impl TransactionType {
    /// The name of the type, as it is written in the enumeration.
    pub open spec fn name(self) -> Seq<char> {
        match self {
            TransactionType::Deposit => "Deposit"@,
            TransactionType::Widthdrawal => "Widthdrawal"@,
            TransactionType::Dispute => "Dispute"@,
            TransactionType::Resolve => "Resolve"@,
            TransactionType::Chargeback => "Chargeback"@,
        }
    }

    /// The name of the type.
    pub fn as_str(&self) -> (r: &'static str)
        ensures
            r@ == self.name(),
    {
        match self {
            TransactionType::Deposit => "Deposit",
            TransactionType::Widthdrawal => "Widthdrawal",
            TransactionType::Dispute => "Dispute",
            TransactionType::Resolve => "Resolve",
            TransactionType::Chargeback => "Chargeback",
        }
    }
}

impl Default for TransactionType {
    fn default() -> (r: Self)
        ensures
            r == TransactionType::Deposit,
    {
        TransactionType::Deposit
    }
}

/// Holds a single transaction
///
/// A deposit or a withdrawal carries its amount; a dispute, a resolve and a
/// chargeback carry none and name, by `tx`, the transaction they act upon.
/// `succeeded` is set once the ledger has applied the record. `charged_back`
/// is set on a stored record once a chargeback has retired it.
#[derive(Debug, Clone, Copy)]
pub struct Transaction {
    pub kind: TransactionType,
    pub client: u16,
    pub tx: u32,
    pub amount: Option<Amount>,
    pub succeeded: bool,
    pub charged_back: bool,
}

impl Transaction {
    /// The record as the history keeps it once it has been applied.
    pub open spec fn stored(self) -> Transaction {
        Transaction { succeeded: true, charged_back: false, ..self }
    }

    /// The text of the amount the record carries; empty where it carries
    /// none.
    pub open spec fn amount_text(self) -> Seq<char> {
        match self.amount {
            Some(amount) => amount.text(),
            None => Seq::empty(),
        }
    }

    /// The record on one line: its type, client, id and amount.
    pub open spec fn text(self) -> Seq<char> {
        "type: "@ + self.kind.name() + " client: "@ + integer_text(self.client as u32) + " tx: "@
            + integer_text(self.tx) + " amount: "@ + self.amount_text()
    }

    /// For debug purpose
    pub fn to_string(&self) -> (r: String)
        ensures
            r@ == self.text(),
    {
        let amount = match self.amount {
            Some(amount) => amount.to_string(),
            None => String::new(),
        };
        let mut line = String::from_str("type: ");
        line.append(self.kind.as_str());
        line.append(" client: ");
        line.append(integer_to_string(self.client as u32).as_str());
        line.append(" tx: ");
        line.append(integer_to_string(self.tx).as_str());
        line.append(" amount: ");
        line.append(amount.as_str());
        line
    }

    /// The stored record after a chargeback has retired it.
    pub open spec fn retired(self) -> Transaction {
        Transaction { charged_back: true, ..self }
    }
}

impl Default for Transaction {
    fn default() -> (r: Self)
        ensures
            r == (Transaction {
                kind: TransactionType::Deposit,
                client: 0,
                tx: 0,
                amount: None,
                succeeded: false,
                charged_back: false,
            }),
    {
        Transaction {
            kind: TransactionType::Deposit,
            client: 0,
            tx: 0,
            amount: None,
            succeeded: false,
            charged_back: false,
        }
    }
}

} // verus!
