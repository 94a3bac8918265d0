//! Execution of the service's transactions against the wallet store.

use vstd::prelude::*;

use crate::errors::Error;
use crate::schema::{CurrencySchema, PublicKey, Wallet, WalletView};
use crate::transactions::{TxCreateWallet, TxTransfer};

verus! {

/// Balance of a freshly created wallet.
pub const INIT_BALANCE: u64 = 100;

/// The store's model: wallets by key bytes.
pub type Wallets = Map<Seq<u8>, WalletView>;

/// Outcome of creating a wallet for `author` in `m`.
pub open spec fn create_wallet_result(m: Wallets, author: Seq<u8>) -> Result<(), Error> {
    if m.contains_key(author) {
        Err(Error::WalletAlreadyExists)
    } else {
        Ok(())
    }
}

/// Store after creating a wallet named `name` for `author` in `m`.
pub open spec fn create_wallet_state(m: Wallets, author: Seq<u8>, name: Seq<char>) -> Wallets {
    if m.contains_key(author) {
        m
    } else {
        m.insert(author, WalletView { pub_key: author, name, balance: INIT_BALANCE as int })
    }
}

/// Outcome of a transfer of `amount` from `from` to `to` in `m`; the checks
/// come in a fixed order.
pub open spec fn transfer_result(m: Wallets, from: Seq<u8>, to: Seq<u8>, amount: u64) -> Result<
    (),
    Error,
> {
    if from == to {
        Err(Error::SenderSameAsReceiver)
    } else if !m.contains_key(from) {
        Err(Error::SenderNotFound)
    } else if !m.contains_key(to) {
        Err(Error::ReceiverNotFound)
    } else if m[from].balance < amount {
        Err(Error::InsufficientCurrencyAmount)
    } else {
        Ok(())
    }
}

/// Store after a transfer of `amount` from `from` to `to` in `m`: both
/// wallets change together, or nothing changes.
pub open spec fn transfer_state(m: Wallets, from: Seq<u8>, to: Seq<u8>, amount: u64) -> Wallets {
    if transfer_result(m, from, to, amount) is Ok {
        m.insert(from, WalletView { balance: m[from].balance - amount, ..m[from] }).insert(
            to,
            WalletView { balance: m[to].balance + amount, ..m[to] },
        )
    } else {
        m
    }
}

/// Whether the receiver's balance stays representable where the transfer
/// goes through.
pub open spec fn transfer_fits(m: Wallets, from: Seq<u8>, to: Seq<u8>, amount: u64) -> bool {
    transfer_result(m, from, to, amount) is Ok ==> m[to].balance + amount <= u64::MAX
}

/// The cryptocurrency service.
#[derive(Clone, Copy, Debug)]
pub struct CryptocurrencyService;

impl CryptocurrencyService {
    /// Creates a wallet with the initial balance for `author`, unless it has one.
    pub fn create_wallet(
        &self,
        schema: &mut CurrencySchema,
        author: &PublicKey,
        arg: TxCreateWallet,
    ) -> (r: Result<(), Error>)
        requires
            old(schema).wallets.wf(),
        ensures
            final(schema).wallets.wf(),
            r == create_wallet_result(old(schema).wallets@, author@),
            final(schema).wallets@ == create_wallet_state(old(schema).wallets@, author@, arg.name@),
    {
        if schema.wallets.get(author).is_none() {
            let wallet = Wallet::new(author, arg.name.as_str(), INIT_BALANCE);
            schema.wallets.put(author, wallet);
            Ok(())
        } else {
            Err(Error::WalletAlreadyExists)
        }
    }

    /// Moves `arg.amount` from the author's wallet to that of `arg.to`.
    pub fn transfer(
        &self,
        schema: &mut CurrencySchema,
        author: &PublicKey,
        arg: TxTransfer,
    ) -> (r: Result<(), Error>)
        requires
            old(schema).wallets.wf(),
            transfer_fits(old(schema).wallets@, author@, arg.to@, arg.amount),
        ensures
            final(schema).wallets.wf(),
            r == transfer_result(old(schema).wallets@, author@, arg.to@, arg.amount),
            final(schema).wallets@ == transfer_state(old(schema).wallets@, author@, arg.to@, arg.amount),
    {
        if *author == arg.to {
            return Err(Error::SenderSameAsReceiver);
        }
        let sender = match schema.wallets.get(author) {
            Some(w) => w,
            None => return Err(Error::SenderNotFound),
        };
        let receiver = match schema.wallets.get(&arg.to) {
            Some(w) => w,
            None => return Err(Error::ReceiverNotFound),
        };
        let amount = arg.amount;
        if sender.balance >= amount {
            let sender = sender.decrease(amount);
            let receiver = receiver.increase(amount);
            schema.wallets.put(author, sender);
            schema.wallets.put(&arg.to, receiver);
            Ok(())
        } else {
            Err(Error::InsufficientCurrencyAmount)
        }
    }
}

} // verus!
