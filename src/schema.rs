//! Persistent data: wallets and the store that holds them.

use vstd::prelude::*;

verus! {

/// Identifier of a wallet: the 32 bytes of its owner's public key.
#[derive(Clone, Copy, Debug, Eq, Hash)]
pub struct PublicKey {
    pub bytes: [u8; 32],
}

impl View for PublicKey {
    type V = Seq<u8>;

    open spec fn view(&self) -> Seq<u8> {
        self.bytes@
    }
}

impl PublicKey {
    pub fn new(bytes: [u8; 32]) -> (r: PublicKey)
        ensures
            r@ == bytes@,
    {
        PublicKey { bytes }
    }
}

impl PartialEq for PublicKey {
    fn eq(&self, other: &PublicKey) -> (r: bool) {
        let mut i: usize = 0;
        while i < 32
            invariant
                0 <= i <= 32,
                self@.len() == 32,
                other@.len() == 32,
                forall|j: int| 0 <= j < i ==> self@[j] == other@[j],
            decreases 32 - i,
        {
            if self.bytes[i] != other.bytes[i] {
                return false;
            }
            i = i + 1;
        }
        proof {
            assert(self@ =~= other@);
        }
        true
    }
}

impl vstd::std_specs::cmp::PartialEqSpecImpl for PublicKey {
    open spec fn obeys_eq_spec() -> bool {
        true
    }

    open spec fn eq_spec(&self, other: &PublicKey) -> bool {
        self@ == other@
    }
}

/// What a wallet holds, as mathematical values.
pub struct WalletView {
    pub pub_key: Seq<u8>,
    pub name: Seq<char>,
    pub balance: int,
}

/// A wallet: its owner's key, a display name and a balance.
#[derive(Clone, Debug)]
pub struct Wallet {
    pub pub_key: PublicKey,
    pub name: String,
    pub balance: u64,
}

impl View for Wallet {
    type V = WalletView;

    open spec fn view(&self) -> WalletView {
        WalletView { pub_key: self.pub_key@, name: self.name@, balance: self.balance as int }
    }
}

impl Wallet {
    /// Makes a wallet from its three fields.
    pub fn new(pub_key: &PublicKey, name: &str, balance: u64) -> (r: Self)
        ensures
            r@ == (WalletView { pub_key: pub_key@, name: name@, balance: balance as int }),
    {
        Wallet { pub_key: *pub_key, name: name.to_owned(), balance }
    }

    /// The same wallet with `amount` added to its balance.
    pub fn increase(self, amount: u64) -> (r: Self)
        requires
            self.balance + amount <= u64::MAX,
        ensures
            r@ == (WalletView { balance: self@.balance + amount, ..self@ }),
    {
        let balance = self.balance + amount;
        Self::new(&self.pub_key, self.name.as_str(), balance)
    }

    /// The same wallet with `amount` taken from its balance.
    pub fn decrease(self, amount: u64) -> (r: Self)
        requires
            self.balance >= amount,
        ensures
            r@ == (WalletView { balance: self@.balance - amount, ..self@ }),
    {
        let balance = self.balance - amount;
        Self::new(&self.pub_key, self.name.as_str(), balance)
    }
}

/// Whether some key of `m` holds the wallet `w`.
pub open spec fn stores(m: Map<Seq<u8>, WalletView>, w: WalletView) -> bool {
    exists|k: Seq<u8>| m.contains_key(k) && m[k] == w
}

/// Every wallet of `m` has a balance of at least zero.
pub open spec fn balances_nonnegative(m: Map<Seq<u8>, WalletView>) -> bool {
    forall|k: Seq<u8>| m.contains_key(k) ==> #[trigger] m[k].balance >= 0
}

/// An ordered store of wallets keyed by public key.
///
/// Its model is a finite map from key bytes to wallet; each key has at most one entry.
pub struct WalletMap {
    entries: Vec<(PublicKey, Wallet)>,
    model: Ghost<Map<Seq<u8>, WalletView>>,
}

impl View for WalletMap {
    type V = Map<Seq<u8>, WalletView>;

    closed spec fn view(&self) -> Map<Seq<u8>, WalletView> {
        self.model@
    }
}

impl WalletMap {
    /// The entries agree with the model, keys are unique, and the model is finite.
    pub closed spec fn wf(&self) -> bool {
        let e = self.entries@;
        let m = self.model@;
        &&& m.dom().finite()
        &&& e.len() == m.dom().len()
        &&& forall|i: int|
            0 <= i < e.len() ==> m.contains_key(#[trigger] e[i].0@) && m[e[i].0@] == e[i].1@
        &&& forall|k: Seq<u8>|
            #[trigger] m.contains_key(k) ==> exists|i: int| 0 <= i < e.len() && e[i].0@ == k
        &&& forall|i: int, j: int|
            0 <= i < e.len() && 0 <= j < e.len() && i != j ==> e[i].0@ != e[j].0@
    }

    /// No stored wallet has a negative balance.
    pub proof fn lemma_balances_nonnegative(&self)
        requires
            self.wf(),
        ensures
            balances_nonnegative(self@),
    {
        assert forall|k: Seq<u8>| self@.contains_key(k) implies #[trigger] self@[k].balance >= 0 by {
            let i = choose|i: int| 0 <= i < self.entries@.len() && self.entries@[i].0@ == k;
            assert(self@[self.entries@[i].0@] == self.entries@[i].1@);
        }
    }

    /// An empty store.
    pub fn new() -> (r: Self)
        ensures
            r.wf(),
            r@ == Map::<Seq<u8>, WalletView>::empty(),
    {
        WalletMap { entries: Vec::new(), model: Ghost(Map::empty()) }
    }

    /// Position of the entry under `key`, if there is one.
    fn find(&self, key: &PublicKey) -> (r: Option<usize>)
        requires
            self.wf(),
        ensures
            match r {
                Some(i) => i < self.entries@.len() && self.entries@[i as int].0@ == key@,
                None => !self@.contains_key(key@),
            },
    {
        let mut i: usize = 0;
        while i < self.entries.len()
            invariant
                self.wf(),
                0 <= i <= self.entries@.len(),
                forall|j: int| 0 <= j < i ==> self.entries@[j].0@ != key@,
            decreases self.entries@.len() - i,
        {
            if self.entries[i].0 == *key {
                return Some(i);
            }
            i = i + 1;
        }
        None
    }

    /// The wallet stored under `key`, if any.
    pub fn get(&self, key: &PublicKey) -> (r: Option<Wallet>)
        requires
            self.wf(),
        ensures
            match r {
                Some(w) => self@.contains_key(key@) && w@ == self@[key@],
                None => !self@.contains_key(key@),
            },
    {
        match self.find(key) {
            Some(i) => {
                let w = &self.entries[i].1;
                Some(Wallet::new(&w.pub_key, w.name.as_str(), w.balance))
            },
            None => None,
        }
    }

    /// Stores `wallet` under `key`, replacing what was there.
    pub fn put(&mut self, key: &PublicKey, wallet: Wallet)
        requires
            old(self).wf(),
        ensures
            final(self).wf(),
            final(self)@ == old(self)@.insert(key@, wallet@),
    {
        let ghost m = self.model@.insert(key@, wallet@);
        match self.find(key) {
            Some(i) => {
                self.entries.set(i, (*key, wallet));
                self.model = Ghost(m);
                assert(self.model@.dom() =~= old(self).model@.dom());
                assert forall|k: Seq<u8>| #[trigger] self.model@.contains_key(k) implies exists|j: int|
                    0 <= j < self.entries@.len() && self.entries@[j].0@ == k by {
                    let j = choose|j: int|
                        0 <= j < old(self).entries@.len() && old(self).entries@[j].0@ == k;
                    assert(self.entries@[j].0@ == k);
                }
                assert forall|j: int| 0 <= j < self.entries@.len() implies self.model@.contains_key(
                    #[trigger] self.entries@[j].0@) && self.model@[self.entries@[j].0@]
                    == self.entries@[j].1@ by {
                    if j != i {
                        assert(old(self).entries@[j].0@ != old(self).entries@[i as int].0@);
                    }
                }
            },
            None => {
                self.entries.push((*key, wallet));
                self.model = Ghost(m);
                assert forall|k: Seq<u8>| #[trigger] self.model@.contains_key(k) implies exists|i: int|
                    0 <= i < self.entries@.len() && self.entries@[i].0@ == k by {
                    if k != key@ {
                        let i = choose|i: int|
                            0 <= i < old(self).entries@.len() && old(self).entries@[i].0@ == k;
                        assert(self.entries@[i].0@ == k);
                    } else {
                        assert(self.entries@[self.entries@.len() - 1].0@ == k);
                    }
                }
            },
        }
    }

    /// Every stored wallet, one per key.
    pub fn values(&self) -> (r: Vec<Wallet>)
        requires
            self.wf(),
        ensures
            r@.len() == self@.len(),
            forall|i: int| 0 <= i < r@.len() ==> stores(self@, #[trigger] r@[i]@),
            forall|k: Seq<u8>|
                #[trigger] self@.contains_key(k) ==> exists|i: int|
                    0 <= i < r@.len() && r@[i]@ == self@[k],
    {
        let mut r: Vec<Wallet> = Vec::new();
        let mut i: usize = 0;
        while i < self.entries.len()
            invariant
                self.wf(),
                0 <= i <= self.entries@.len(),
                r@.len() == i,
                forall|j: int| 0 <= j < i ==> #[trigger] r@[j]@ == self.entries@[j].1@,
            decreases self.entries@.len() - i,
        {
            let w = &self.entries[i].1;
            r.push(Wallet::new(&w.pub_key, w.name.as_str(), w.balance));
            i = i + 1;
        }
        assert forall|j: int| 0 <= j < r@.len() implies stores(self@, #[trigger] r@[j]@) by {
            assert(self@.contains_key(self.entries@[j].0@));
        }
        assert forall|k: Seq<u8>| #[trigger] self@.contains_key(k) implies exists|j: int|
            0 <= j < r@.len() && r@[j]@ == self@[k] by {
            let j = choose|j: int| 0 <= j < self.entries@.len() && self.entries@[j].0@ == k;
            assert(r@[j]@ == self@[k]);
        }
        r
    }
}

/// The service's persistent data: the wallets, keyed by their owners' keys.
pub struct CurrencySchema {
    pub wallets: WalletMap,
}

impl CurrencySchema {
    /// A schema over an empty store.
    pub fn new() -> (r: Self)
        ensures
            r.wallets.wf(),
            r.wallets@ == Map::<Seq<u8>, WalletView>::empty(),
    {
        CurrencySchema { wallets: WalletMap::new() }
    }
}

} // verus!
