//! A verified transaction ledger: replays a log of deposits, withdrawals,
//! disputes, resolves and chargebacks against per-client accounts and
//! produces a snapshot of every touched account.

pub mod account;
pub mod amount;
pub mod laws;
pub mod ledger;
pub mod parser;
pub mod text;
pub mod types;
pub mod writer;
