//! The two transactions of the service.

use vstd::prelude::*;

use crate::schema::PublicKey;

verus! {

/// Asks for a wallet owned by the transaction's author, under the given name.
#[derive(Clone, Debug)]
pub struct TxCreateWallet {
    pub name: String,
}

/// Moves `amount` from the author's wallet to the wallet of `to`.
///
/// `seed` only tells apart transfers that are otherwise the same; it has no
/// effect on balances.
#[derive(Clone, Debug)]
pub struct TxTransfer {
    pub to: PublicKey,
    pub amount: u64,
    pub seed: u64,
}

} // verus!
