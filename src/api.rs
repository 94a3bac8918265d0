//! Read-only queries over the wallet store.

use vstd::prelude::*;

use crate::schema::{stores, CurrencySchema, PublicKey, Wallet};

verus! {

/// Asks for the wallet of one key.
#[derive(Clone, Copy, Debug)]
pub struct WalletQuery {
    pub pub_key: PublicKey,
}

/// The service's read-only queries.
#[derive(Clone, Copy, Debug)]
pub struct CryptocurrencyApi;

impl CryptocurrencyApi {
    /// The wallet of `query.pub_key`, or `None` where there is none.
    pub fn get_wallet(schema: &CurrencySchema, query: WalletQuery) -> (r: Option<Wallet>)
        requires
            schema.wallets.wf(),
        ensures
            match r {
                Some(w) => schema.wallets@.contains_key(query.pub_key@) && w@
                    == schema.wallets@[query.pub_key@],
                None => !schema.wallets@.contains_key(query.pub_key@),
            },
    {
        schema.wallets.get(&query.pub_key)
    }

    /// All wallets, one for each key in the store.
    pub fn get_wallets(schema: &CurrencySchema) -> (r: Vec<Wallet>)
        requires
            schema.wallets.wf(),
        ensures
            r@.len() == schema.wallets@.len(),
            forall|i: int| 0 <= i < r@.len() ==> stores(schema.wallets@, #[trigger] r@[i]@),
            forall|k: Seq<u8>|
                #[trigger] schema.wallets@.contains_key(k) ==> exists|i: int|
                    0 <= i < r@.len() && r@[i]@ == schema.wallets@[k],
    {
        schema.wallets.values()
    }
}

} // verus!
