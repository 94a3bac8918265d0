//! A cryptocurrency ledger: wallets keyed by public key, and the two
//! transactions that change them, wallet creation and transfer.

pub mod schema;
pub mod transactions;
pub mod errors;
pub mod contracts;
pub mod ledger;
pub mod api;
