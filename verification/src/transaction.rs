//! Transaction data model: plain types, no parsing logic.
use vstd::prelude::*;

use crate::amount::Amount;

verus! {

/// The type of a transaction.
#[derive(Clone, Copy, Debug, PartialEq, Eq, Structural)]
pub enum TransactionKind {
    Deposit,
    Withdrawal,
    Dispute,
    Resolve,
    Chargeback,
}

/// A single transaction read from the input.
///
/// `amount` is `None` for dispute, resolve and chargeback rows, which carry no amount.
#[derive(Clone, Copy, Debug, PartialEq)]
pub struct Transaction {
    pub kind: TransactionKind,
    pub client: u16,
    pub tx: u32,
    pub amount: Option<Amount>,
}

} // verus!
