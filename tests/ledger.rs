use cryptocurrency::api::{CryptocurrencyApi, WalletQuery};
use cryptocurrency::contracts::{CryptocurrencyService, INIT_BALANCE};
use cryptocurrency::errors::Error;
use cryptocurrency::schema::{CurrencySchema, PublicKey, Wallet};
use cryptocurrency::transactions::{TxCreateWallet, TxTransfer};

fn key(b: u8) -> PublicKey {
    PublicKey::new([b; 32])
}

fn balance(schema: &CurrencySchema, k: PublicKey) -> Option<u64> {
    CryptocurrencyApi::get_wallet(schema, WalletQuery { pub_key: k }).map(|w| w.balance)
}

fn put(schema: &mut CurrencySchema, k: PublicKey, name: &str, balance: u64) {
    schema.wallets.put(&k, Wallet::new(&k, name, balance));
}

fn create(schema: &mut CurrencySchema, k: PublicKey, name: &str) -> Result<(), Error> {
    CryptocurrencyService.create_wallet(schema, &k, TxCreateWallet { name: name.to_string() })
}

fn transfer(schema: &mut CurrencySchema, from: PublicKey, to: PublicKey, amount: u64) -> Result<(), Error> {
    CryptocurrencyService.transfer(schema, &from, TxTransfer { to, amount, seed: 7 })
}

#[test]
fn create_then_create_again() {
    let mut s = CurrencySchema::new();
    let a = key(1);
    assert_eq!(create(&mut s, a, "Alice"), Ok(()));
    assert_eq!(balance(&s, a), Some(100));
    assert_eq!(create(&mut s, a, "Alice"), Err(Error::WalletAlreadyExists));
    assert_eq!(balance(&s, a), Some(100));
}

#[test]
fn second_create_keeps_name_and_balance() {
    let mut s = CurrencySchema::new();
    let a = key(1);
    assert_eq!(create(&mut s, a, "Alice"), Ok(()));
    assert_eq!(create(&mut s, a, "Mallory"), Err(Error::WalletAlreadyExists));
    let w = CryptocurrencyApi::get_wallet(&s, WalletQuery { pub_key: a }).unwrap();
    assert_eq!(w.name, "Alice");
    assert_eq!(w.balance, INIT_BALANCE);
    assert_eq!(w.pub_key, a);
}

#[test]
fn transfer_to_missing_receiver() {
    let mut s = CurrencySchema::new();
    let (a, b) = (key(1), key(2));
    create(&mut s, a, "Alice").unwrap();
    assert_eq!(transfer(&mut s, a, b, 10), Err(Error::ReceiverNotFound));
    assert_eq!(balance(&s, a), Some(100));
    assert_eq!(balance(&s, b), None);
}

#[test]
fn transfer_moves_amount() {
    let mut s = CurrencySchema::new();
    let (a, b) = (key(1), key(2));
    put(&mut s, a, "Alice", 100);
    put(&mut s, b, "Bob", 50);
    assert_eq!(transfer(&mut s, a, b, 30), Ok(()));
    assert_eq!(balance(&s, a), Some(70));
    assert_eq!(balance(&s, b), Some(80));
}

#[test]
fn transfer_over_balance() {
    let mut s = CurrencySchema::new();
    let (a, b) = (key(1), key(2));
    put(&mut s, a, "Alice", 20);
    put(&mut s, b, "Bob", 50);
    assert_eq!(transfer(&mut s, a, b, 50), Err(Error::InsufficientCurrencyAmount));
    assert_eq!(balance(&s, a), Some(20));
    assert_eq!(balance(&s, b), Some(50));
}

#[test]
fn transfer_of_zero() {
    let mut s = CurrencySchema::new();
    let (a, b) = (key(1), key(2));
    put(&mut s, a, "Alice", 100);
    put(&mut s, b, "Bob", 50);
    assert_eq!(transfer(&mut s, a, b, 0), Ok(()));
    assert_eq!(balance(&s, a), Some(100));
    assert_eq!(balance(&s, b), Some(50));
}

#[test]
fn transfer_of_whole_balance() {
    let mut s = CurrencySchema::new();
    let (a, b) = (key(1), key(2));
    put(&mut s, a, "Alice", 20);
    put(&mut s, b, "Bob", 0);
    assert_eq!(transfer(&mut s, a, b, 20), Ok(()));
    assert_eq!(balance(&s, a), Some(0));
    assert_eq!(balance(&s, b), Some(20));
}

#[test]
fn self_transfer_fails() {
    let mut s = CurrencySchema::new();
    let a = key(1);
    assert_eq!(transfer(&mut s, a, a, 0), Err(Error::SenderSameAsReceiver));
    create(&mut s, a, "Alice").unwrap();
    assert_eq!(transfer(&mut s, a, a, 0), Err(Error::SenderSameAsReceiver));
    assert_eq!(transfer(&mut s, a, a, 10), Err(Error::SenderSameAsReceiver));
    assert_eq!(transfer(&mut s, a, a, 1000), Err(Error::SenderSameAsReceiver));
    assert_eq!(balance(&s, a), Some(100));
}

#[test]
fn self_check_comes_before_lookups() {
    let mut s = CurrencySchema::new();
    let a = key(9);
    assert_eq!(transfer(&mut s, a, a, 5), Err(Error::SenderSameAsReceiver));
    assert_eq!(CryptocurrencyApi::get_wallets(&s).len(), 0);
}

#[test]
fn transfer_from_missing_sender() {
    let mut s = CurrencySchema::new();
    let (a, b) = (key(1), key(2));
    create(&mut s, b, "Bob").unwrap();
    assert_eq!(transfer(&mut s, a, b, 10), Err(Error::SenderNotFound));
    assert_eq!(balance(&s, b), Some(100));
}

#[test]
fn sender_checked_before_receiver() {
    let mut s = CurrencySchema::new();
    assert_eq!(transfer(&mut s, key(1), key(2), 10), Err(Error::SenderNotFound));
}

#[test]
fn receiver_checked_before_balance() {
    let mut s = CurrencySchema::new();
    let a = key(1);
    put(&mut s, a, "Alice", 5);
    assert_eq!(transfer(&mut s, a, key(2), 50), Err(Error::ReceiverNotFound));
}

#[test]
fn keys_differing_in_last_byte_are_distinct() {
    let mut s = CurrencySchema::new();
    let a = key(3);
    let mut bytes = [3u8; 32];
    bytes[31] = 4;
    let b = PublicKey::new(bytes);
    assert!(a != b);
    create(&mut s, a, "A").unwrap();
    assert_eq!(create(&mut s, b, "B"), Ok(()));
    assert_eq!(transfer(&mut s, a, b, 1), Ok(()));
    assert_eq!(balance(&s, a), Some(99));
    assert_eq!(balance(&s, b), Some(101));
}

#[test]
fn transfers_conserve_total() {
    let mut s = CurrencySchema::new();
    let ks = [key(1), key(2), key(3)];
    for (i, k) in ks.iter().enumerate() {
        create(&mut s, *k, &format!("w{}", i)).unwrap();
    }
    let moves = [(0, 1, 40), (1, 2, 140), (2, 0, 500), (0, 0, 1), (2, 1, 0), (1, 0, 60), (2, 0, 60)];
    for (f, t, amount) in moves {
        let _ = transfer(&mut s, ks[f], ks[t], amount);
        let total: u64 = CryptocurrencyApi::get_wallets(&s).iter().map(|w| w.balance).sum();
        assert_eq!(total, 300);
    }
    assert_eq!(balance(&s, ks[0]), Some(120));
    assert_eq!(balance(&s, ks[1]), Some(0));
    assert_eq!(balance(&s, ks[2]), Some(180));
}

#[test]
fn get_wallets_lists_each_once() {
    let mut s = CurrencySchema::new();
    assert!(CryptocurrencyApi::get_wallets(&s).is_empty());
    create(&mut s, key(1), "A").unwrap();
    create(&mut s, key(2), "B").unwrap();
    put(&mut s, key(1), "A", 7);
    let ws = CryptocurrencyApi::get_wallets(&s);
    assert_eq!(ws.len(), 2);
    let mut bs: Vec<u64> = ws.iter().map(|w| w.balance).collect();
    bs.sort();
    assert_eq!(bs, vec![7, 100]);
}

#[test]
fn get_missing_wallet() {
    let s = CurrencySchema::new();
    assert!(CryptocurrencyApi::get_wallet(&s, WalletQuery { pub_key: key(1) }).is_none());
}

#[test]
fn wallet_increase_and_decrease() {
    let a = key(1);
    let w = Wallet::new(&a, "Alice", 10);
    let w = w.increase(5);
    assert_eq!(w.balance, 15);
    assert_eq!(w.name, "Alice");
    let w = w.decrease(15);
    assert_eq!(w.balance, 0);
    assert_eq!(w.pub_key, a);
    let w = Wallet::new(&a, "Max", u64::MAX - 1).increase(1);
    assert_eq!(w.balance, u64::MAX);
}

#[test]
fn error_codes() {
    assert_eq!(Error::WalletAlreadyExists.code(), 0);
    assert_eq!(Error::SenderNotFound.code(), 1);
    assert_eq!(Error::ReceiverNotFound.code(), 2);
    assert_eq!(Error::InsufficientCurrencyAmount.code(), 3);
    assert_eq!(Error::SenderSameAsReceiver.code(), 4);
}
