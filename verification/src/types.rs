//! Identifiers and the transaction vocabulary: client and transaction ids,
//! the five request kinds, and the dispute lifecycle states of a stored
//! deposit.

use vstd::prelude::*;
use crate::text::{chars_vec, eq_ignore_case, eq_ignore_case_spec, trim_chars, trim_spec};

verus! {

/// Identifies one client's account.
#[derive(Debug, Clone, Copy, PartialEq, Eq, Hash, Structural)]
pub struct ClientId(pub u16);

/// Identifies one transaction; ids are global across the whole input
/// stream, never scoped per client.
#[derive(Debug, Clone, Copy, PartialEq, Eq, Hash, Structural)]
pub struct TransactionId(pub u32);

/// The five kinds of request a row can carry.
#[derive(Debug, Clone, Copy, PartialEq, Eq, Structural)]
pub enum TransactionType {
    Deposit,
    Withdrawal,
    Dispute,
    Resolve,
    Chargeback,
}

/// Where a stored deposit stands in the dispute lifecycle. `Undisputed` is
/// the only initial state and the only one a dispute is accepted from;
/// `Resolved` and `ChargedBack` are absorbing.
#[derive(Debug, Clone, Copy, PartialEq, Eq, Structural)]
pub enum TransactionState {
    Undisputed,
    Disputed,
    Resolved,
    ChargedBack,
}

/// The transaction type named by `s`, after trimming surrounding ASCII
/// whitespace and ignoring ASCII case, or nothing for an unknown name.
pub open spec fn tx_type_of(s: Seq<char>) -> Option<TransactionType> {
    let t = trim_spec(s);
    if eq_ignore_case_spec(t, "deposit"@) {
        Some(TransactionType::Deposit)
    } else if eq_ignore_case_spec(t, "withdrawal"@) {
        Some(TransactionType::Withdrawal)
    } else if eq_ignore_case_spec(t, "dispute"@) {
        Some(TransactionType::Dispute)
    } else if eq_ignore_case_spec(t, "resolve"@) {
        Some(TransactionType::Resolve)
    } else if eq_ignore_case_spec(t, "chargeback"@) {
        Some(TransactionType::Chargeback)
    } else {
        None
    }
}

impl TransactionType {
    /// Reads a transaction type name, trimming surrounding ASCII whitespace
    /// and ignoring ASCII case; an unknown name is rejected.
    pub fn parse(s: &str) -> (r: Result<TransactionType, ()>)
        ensures
            match r {
                Ok(t) => tx_type_of(s@) == Some(t),
                Err(_) => tx_type_of(s@) is None,
            },
    {
        let cs = chars_vec(s);
        let t = trim_chars(&cs);
        if eq_ignore_case(&t, "deposit") {
            Ok(TransactionType::Deposit)
        } else if eq_ignore_case(&t, "withdrawal") {
            Ok(TransactionType::Withdrawal)
        } else if eq_ignore_case(&t, "dispute") {
            Ok(TransactionType::Dispute)
        } else if eq_ignore_case(&t, "resolve") {
            Ok(TransactionType::Resolve)
        } else if eq_ignore_case(&t, "chargeback") {
            Ok(TransactionType::Chargeback)
        } else {
            Err(())
        }
    }
}

impl core::str::FromStr for TransactionType {
    type Err = ();

    fn from_str(s: &str) -> Result<TransactionType, ()> {
        TransactionType::parse(s)
    }
}

} // verus!
