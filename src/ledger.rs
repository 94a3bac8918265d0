//! Facts about sequences of transactions, stated over the store's model.

use vstd::prelude::*;

use crate::contracts::{
    create_wallet_result, create_wallet_state, transfer_result, transfer_state, Wallets,
    INIT_BALANCE,
};
use crate::errors::Error;
use crate::schema::balances_nonnegative;

verus! {

/// Sum of the balances of all wallets of `m`.
pub open spec fn total_balance(m: Wallets) -> int
    decreases m.dom().len(),
{
    if m.dom().finite() && m.dom().len() > 0 {
        let k = m.dom().choose();
        m[k].balance + total_balance(m.remove(k))
    } else {
        0
    }
}

/// Store after the transfers `txs` (sender, receiver, amount), applied in order.
pub open spec fn run_transfers(m: Wallets, txs: Seq<(Seq<u8>, Seq<u8>, u64)>) -> Wallets
    decreases txs.len(),
{
    if txs.len() == 0 {
        m
    } else {
        let t = txs.last();
        transfer_state(run_transfers(m, txs.drop_last()), t.0, t.1, t.2)
    }
}

/// The total may be computed by taking out any one wallet first.
pub proof fn lemma_total_balance_remove(m: Wallets, k: Seq<u8>)
    requires
        m.dom().finite(),
        m.contains_key(k),
    ensures
        total_balance(m) == m[k].balance + total_balance(m.remove(k)),
    decreases m.dom().len(),
{
    let c = m.dom().choose();
    if c != k {
        lemma_total_balance_remove(m.remove(c), k);
        lemma_total_balance_remove(m.remove(k), c);
        assert(m.remove(c).remove(k) =~= m.remove(k).remove(c));
    } else {
        assert(m.remove(c) =~= m.remove(k));
    }
}

/// Creating a wallet and transferring keep every balance at least zero, so
/// every store reached from one without negative balances has none.
pub proof fn lemma_transactions_keep_balances_nonnegative(
    m: Wallets,
    author: Seq<u8>,
    name: Seq<char>,
    from: Seq<u8>,
    to: Seq<u8>,
    amount: u64,
)
    requires
        balances_nonnegative(m),
    ensures
        balances_nonnegative(create_wallet_state(m, author, name)),
        balances_nonnegative(transfer_state(m, from, to, amount)),
{
}

/// Every wallet of `m` is stored under its owner's key.
pub open spec fn keyed_by_owner(m: Wallets) -> bool {
    forall|k: Seq<u8>| m.contains_key(k) ==> #[trigger] m[k].pub_key == k
}

/// Creating a wallet and transferring keep each wallet under its owner's key,
/// and remove no wallet.
pub proof fn lemma_transactions_keep_wallets_keyed_by_owner(
    m: Wallets,
    author: Seq<u8>,
    name: Seq<char>,
    from: Seq<u8>,
    to: Seq<u8>,
    amount: u64,
)
    requires
        keyed_by_owner(m),
    ensures
        keyed_by_owner(create_wallet_state(m, author, name)),
        keyed_by_owner(transfer_state(m, from, to, amount)),
        m.dom().subset_of(create_wallet_state(m, author, name).dom()),
        m.dom().subset_of(transfer_state(m, from, to, amount).dom()),
{
}

/// A transfer, whether it succeeds or fails, leaves the sum of all balances
/// as it was.
pub proof fn lemma_transfer_conserves_total(m: Wallets, from: Seq<u8>, to: Seq<u8>, amount: u64)
    requires
        m.dom().finite(),
    ensures
        total_balance(transfer_state(m, from, to, amount)) == total_balance(m),
        transfer_state(m, from, to, amount).dom() == m.dom(),
{
    let n = transfer_state(m, from, to, amount);
    if transfer_result(m, from, to, amount) is Ok {
        assert(n.dom() =~= m.dom());
        lemma_total_balance_remove(n, to);
        lemma_total_balance_remove(n.remove(to), from);
        lemma_total_balance_remove(m, to);
        lemma_total_balance_remove(m.remove(to), from);
        assert(n.remove(to).remove(from) =~= m.remove(to).remove(from));
    }
}

/// Any sequence of transfers leaves the sum of all balances as it was.
pub proof fn lemma_transfers_conserve_total(m: Wallets, txs: Seq<(Seq<u8>, Seq<u8>, u64)>)
    requires
        m.dom().finite(),
    ensures
        total_balance(run_transfers(m, txs)) == total_balance(m),
        run_transfers(m, txs).dom() == m.dom(),
    decreases txs.len(),
{
    if txs.len() > 0 {
        let t = txs.last();
        lemma_transfers_conserve_total(m, txs.drop_last());
        lemma_transfer_conserves_total(run_transfers(m, txs.drop_last()), t.0, t.1, t.2);
    }
}

/// Creating a wallet twice for one author succeeds once, then fails with
/// `WalletAlreadyExists` and leaves the first wallet's name and balance.
pub proof fn lemma_create_wallet_twice(m: Wallets, author: Seq<u8>, first: Seq<char>, second: Seq<char>)
    requires
        !m.contains_key(author),
    ensures
        create_wallet_result(m, author) == Ok::<(), Error>(()),
        create_wallet_result(create_wallet_state(m, author, first), author) == Err::<(), Error>(
            Error::WalletAlreadyExists,
        ),
        create_wallet_state(create_wallet_state(m, author, first), author, second)
            == create_wallet_state(m, author, first),
        create_wallet_state(m, author, first)[author].name == first,
        create_wallet_state(m, author, first)[author].balance == INIT_BALANCE as int,
{
}

/// A transfer to oneself fails with `SenderSameAsReceiver` and changes
/// nothing, whatever the amount and whether the wallet exists.
pub proof fn lemma_self_transfer_fails(m: Wallets, key: Seq<u8>, amount: u64)
    ensures
        transfer_result(m, key, key, amount) == Err::<(), Error>(Error::SenderSameAsReceiver),
        transfer_state(m, key, key, amount) == m,
{
}

} // verus!
