//! Client accounts.

use crate::amount::Amount;
use crate::entities::text::{integer_text, integer_to_string};
use csv::ByteRecord;
use vstd::prelude::*;
use vstd::utf8::encode_utf8;

verus! {

#[verifier::external_type_specification]
#[verifier::external_body]
pub struct ExByteRecord(ByteRecord);

/// The fields that a CSV record holds, in order, each as its bytes.
pub uninterp spec fn record_fields(record: ByteRecord) -> Seq<Seq<u8>>;

/// The text of a flag: `true` or `false`.
pub open spec fn flag_text(flag: bool) -> Seq<char> {
    if flag {
        "true"@
    } else {
        "false"@
    }
}

/// Holds details for a given client
#[derive(Debug, Clone, Copy)]
pub struct Client {
    pub id: u16,
    pub available: Amount,
    pub held: Amount,
    pub total: Amount,
    pub locked: bool,
}

impl Client {
    /// The account of a client that no transaction has touched yet: nothing
    /// available, nothing held, not locked.
    pub open spec fn opened(id: u16) -> Client {
        Client {
            id,
            available: Amount::from_parts(0, 0),
            held: Amount::from_parts(0, 0),
            total: Amount::from_parts(0, 0),
            locked: false,
        }
    }

    /// The texts of the account's five columns, in the order of the headers.
    pub open spec fn columns(self) -> Seq<Seq<char>> {
        seq![
            integer_text(self.id as u32),
            self.available.text(),
            self.held.text(),
            self.total.text(),
            flag_text(self.locked),
        ]
    }

    /// Whether the total is what is available and what is held together.
    pub open spec fn balanced(self) -> bool {
        self.total.units() == self.available.units() + self.held.units()
    }

    /// The account after a deposit of `amount`: available and total grow by
    /// it. `None` where the decimal arithmetic cannot give either exactly.
    pub open spec fn after_deposit(self, amount: Amount) -> Option<Client> {
        match (self.available.sum(amount), self.total.sum(amount)) {
            (Some(available), Some(total)) => Some(Client { available, total, ..self }),
            _ => None,
        }
    }

    /// The account after a withdrawal of `amount`: available and total shrink
    /// by it. `None` where the decimal arithmetic cannot give either exactly.
    pub open spec fn after_withdrawal(self, amount: Amount) -> Option<Client> {
        match (self.available.difference(amount), self.total.difference(amount)) {
            (Some(available), Some(total)) => Some(Client { available, total, ..self }),
            _ => None,
        }
    }

    /// The account after `amount` has been put under dispute: it moves from
    /// available to held. `None` where the decimal arithmetic cannot give
    /// either exactly.
    pub open spec fn after_dispute(self, amount: Amount) -> Option<Client> {
        match (self.held.sum(amount), self.available.difference(amount)) {
            (Some(held), Some(available)) => Some(Client { held, available, ..self }),
            _ => None,
        }
    }

    /// The account after a dispute over `amount` has been resolved: it moves
    /// back from held to available. `None` where the decimal arithmetic
    /// cannot give either exactly.
    pub open spec fn after_resolve(self, amount: Amount) -> Option<Client> {
        match (self.held.difference(amount), self.available.sum(amount)) {
            (Some(held), Some(available)) => Some(Client { held, available, ..self }),
            _ => None,
        }
    }

    /// The account after a chargeback of `amount`: held and total shrink by
    /// it and the account is locked. `None` where the decimal arithmetic
    /// cannot give either exactly.
    pub open spec fn after_chargeback(self, amount: Amount) -> Option<Client> {
        match (self.held.difference(amount), self.total.difference(amount)) {
            (Some(held), Some(total)) => Some(Client { held, total, locked: true, ..self }),
            _ => None,
        }
    }

    /// A newly opened account holds nothing and is balanced.
    pub proof fn lemma_opened_is_empty(id: u16)
        ensures
            Client::opened(id).available.units() == 0,
            Client::opened(id).held.units() == 0,
            Client::opened(id).total.units() == 0,
            Client::opened(id).balanced(),
    {
        Amount::from_parts(0, 0).lemma_parts();
    }

    /// What each movement does to the values of the three balances, where
    /// the decimal arithmetic gives it exactly: the balances change by the
    /// amount as the movement says, nothing else changes but the lock on a
    /// chargeback, and a balanced account stays balanced.
    pub proof fn lemma_movements(self, amount: Amount)
        ensures
            self.after_deposit(amount) matches Some(after) ==> {
                &&& after.available.units() == self.available.units() + amount.units()
                &&& after.total.units() == self.total.units() + amount.units()
                &&& after.held == self.held
                &&& after.locked == self.locked
                &&& after.id == self.id
                &&& self.balanced() ==> after.balanced()
            },
            self.after_withdrawal(amount) matches Some(after) ==> {
                &&& after.available.units() == self.available.units() - amount.units()
                &&& after.total.units() == self.total.units() - amount.units()
                &&& after.held == self.held
                &&& after.locked == self.locked
                &&& after.id == self.id
                &&& self.balanced() ==> after.balanced()
            },
            self.after_dispute(amount) matches Some(after) ==> {
                &&& after.available.units() == self.available.units() - amount.units()
                &&& after.held.units() == self.held.units() + amount.units()
                &&& after.total == self.total
                &&& after.locked == self.locked
                &&& after.id == self.id
                &&& self.balanced() ==> after.balanced()
            },
            self.after_resolve(amount) matches Some(after) ==> {
                &&& after.available.units() == self.available.units() + amount.units()
                &&& after.held.units() == self.held.units() - amount.units()
                &&& after.total == self.total
                &&& after.locked == self.locked
                &&& after.id == self.id
                &&& self.balanced() ==> after.balanced()
            },
            self.after_chargeback(amount) matches Some(after) ==> {
                &&& after.held.units() == self.held.units() - amount.units()
                &&& after.total.units() == self.total.units() - amount.units()
                &&& after.available == self.available
                &&& after.locked
                &&& after.id == self.id
                &&& self.balanced() ==> after.balanced()
            },
    {
        self.available.lemma_arithmetic_is_exact(amount);
        self.held.lemma_arithmetic_is_exact(amount);
        self.total.lemma_arithmetic_is_exact(amount);
    }

    /// The names of the columns of an account, in the order in which
    /// [`Client::columns`] gives their texts.
    pub fn headers() -> (r: Vec<&'static str>)
        ensures
            r@.len() == 5,
            r@[0]@ == "client"@,
            r@[1]@ == "available"@,
            r@[2]@ == "held"@,
            r@[3]@ == "total"@,
            r@[4]@ == "locked"@,
    {
        vec!["client", "available", "held", "total", "locked"]
    }

    /// Opens the account of client `id`.
    pub fn open(id: u16) -> (r: Client)
        ensures
            r == Client::opened(id),
    {
        Client {
            id,
            available: Amount::zero(),
            held: Amount::zero(),
            total: Amount::zero(),
            locked: false,
        }
    }

    /// Credits a deposit.
    pub fn deposit(&self, amount: &Amount) -> (r: Option<Client>)
        ensures
            r == self.after_deposit(*amount),
    {
        let total = self.total.checked_add(amount);
        let available = self.available.checked_add(amount);
        match (available, total) {
            (Some(available), Some(total)) => Some(
                Client { id: self.id, available, held: self.held, total, locked: self.locked },
            ),
            _ => None,
        }
    }

    /// Debits a withdrawal.
    pub fn withdraw(&self, amount: &Amount) -> (r: Option<Client>)
        ensures
            r == self.after_withdrawal(*amount),
    {
        let available = self.available.checked_sub(amount);
        let total = self.total.checked_sub(amount);
        match (available, total) {
            (Some(available), Some(total)) => Some(
                Client { id: self.id, available, held: self.held, total, locked: self.locked },
            ),
            _ => None,
        }
    }

    /// Holds a disputed amount.
    pub fn dispute(&self, amount: &Amount) -> (r: Option<Client>)
        ensures
            r == self.after_dispute(*amount),
    {
        let held = self.held.checked_add(amount);
        let available = self.available.checked_sub(amount);
        match (held, available) {
            (Some(held), Some(available)) => Some(
                Client { id: self.id, available, held, total: self.total, locked: self.locked },
            ),
            _ => None,
        }
    }

    /// Releases a held amount.
    pub fn resolve(&self, amount: &Amount) -> (r: Option<Client>)
        ensures
            r == self.after_resolve(*amount),
    {
        let held = self.held.checked_sub(amount);
        let available = self.available.checked_add(amount);
        match (held, available) {
            (Some(held), Some(available)) => Some(
                Client { id: self.id, available, held, total: self.total, locked: self.locked },
            ),
            _ => None,
        }
    }

    /// Takes a held amount out of the account and locks it.
    pub fn chargeback(&self, amount: &Amount) -> (r: Option<Client>)
        ensures
            r == self.after_chargeback(*amount),
    {
        let held = self.held.checked_sub(amount);
        let total = self.total.checked_sub(amount);
        match (held, total) {
            (Some(held), Some(total)) => Some(
                Client { id: self.id, available: self.available, held, total, locked: true },
            ),
            _ => None,
        }
    }
}

/// Converts into a CSV record
impl From<Client> for ByteRecord {
    fn from(client: Client) -> (record: ByteRecord)
        ensures
            record_fields(record) == client.columns().map_values(|text: Seq<char>| encode_utf8(text)),
    {
        let locked = if client.locked {
            "true"
        } else {
            "false"
        };
        let fields = vec![
            integer_to_string(client.id as u32),
            client.available.to_string(),
            client.held.to_string(),
            client.total.to_string(),
            locked.to_string(),
        ];
        assert(fields@.map_values(|text: String| encode_utf8(text@))
            =~= client.columns().map_values(|text: Seq<char>| encode_utf8(text)));
        record_from_strings(fields)
    }
}

impl vstd::std_specs::convert::FromSpecImpl<Client> for ByteRecord {
    open spec fn obeys_from_spec() -> bool {
        false
    }

    open spec fn from_spec(client: Client) -> ByteRecord {
        arbitrary()
    }
}

/// Calls `ByteRecord::from` of csv on a vector of strings. The record holds
/// one field for each string, in order, made of the string's bytes.
#[verifier::external_body]
fn record_from_strings(fields: Vec<String>) -> (record: ByteRecord)
    ensures
        record_fields(record) == fields@.map_values(|text: String| encode_utf8(text@)),
{
    ByteRecord::from(fields)
}

impl Default for Client {
    fn default() -> (r: Self)
        ensures
            r == Client::opened(0),
    {
        Client::open(0)
    }
}

} // verus!
