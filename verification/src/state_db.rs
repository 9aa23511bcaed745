//! The flat state store: account records by address, each with its storage
//! slots by key.

use vstd::prelude::*;
use crate::assoc::AssocMap;
use crate::word::{Address, Word, H256};

verus! {

/// The record of one account.
#[derive(Clone, Debug)]
pub struct Account {
    pub nonce: u64,
    pub balance: Word,
    pub storage: AssocMap<Word, Word>,
    pub code_hash: H256,
    pub keccak_code_hash: H256,
    pub code_size: u64,
}

/// What an account record holds, with its storage as a map.
pub struct AccountView {
    pub nonce: u64,
    pub balance: Word,
    pub storage: Map<Word, Word>,
    pub code_hash: H256,
    pub keccak_code_hash: H256,
    pub code_size: u64,
}

/// The word zero.
pub open spec fn zero_word() -> Word {
    Word { l0: 0, l1: 0, l2: 0, l3: 0 }
}

/// The record of an account that nobody has touched: no balance, no nonce,
/// no storage, and the two hashes of the empty code.
pub open spec fn zero_account(empty_code_hash: H256, empty_keccak_code_hash: H256) -> AccountView {
    AccountView {
        nonce: 0,
        balance: zero_word(),
        storage: Map::empty(),
        code_hash: empty_code_hash,
        keccak_code_hash: empty_keccak_code_hash,
        code_size: 0,
    }
}

/// An account is empty when it has no balance, no nonce and the empty code.
pub open spec fn account_is_empty(acc: AccountView, empty_code_hash: H256) -> bool {
    acc.nonce == 0 && acc.balance == zero_word() && acc.code_hash == empty_code_hash
}

/// The value of a slot, zero where the storage has none.
pub open spec fn slot_value(storage: Map<Word, Word>, key: Word) -> Word {
    if storage.contains_key(key) {
        storage[key]
    } else {
        zero_word()
    }
}

impl View for Account {
    type V = AccountView;

    open spec fn view(&self) -> AccountView {
        AccountView {
            nonce: self.nonce,
            balance: self.balance,
            storage: self.storage@,
            code_hash: self.code_hash,
            keccak_code_hash: self.keccak_code_hash,
            code_size: self.code_size,
        }
    }
}

impl Account {
    pub open spec fn wf(&self) -> bool {
        self.storage.wf()
    }

    /// The record of an untouched account.
    pub fn zero(empty_code_hash: H256, empty_keccak_code_hash: H256) -> (acc: Account)
        ensures
            acc.wf(),
            acc@ == zero_account(empty_code_hash, empty_keccak_code_hash),
    {
        Account {
            nonce: 0,
            balance: Word::zero(),
            storage: AssocMap::new(),
            code_hash: empty_code_hash,
            keccak_code_hash: empty_keccak_code_hash,
            code_size: 0,
        }
    }

    pub fn is_empty(&self, empty_code_hash: &H256) -> (e: bool)
        ensures
            e == account_is_empty(self@, *empty_code_hash),
    {
        self.nonce == 0 && self.balance.is_zero() && self.code_hash == *empty_code_hash
    }

    /// A record with the same fields and the same storage.
    pub fn duplicate(&self) -> (acc: Account)
        ensures
            acc@ == self@,
            self.wf() ==> acc.wf(),
    {
        Account {
            nonce: self.nonce,
            balance: self.balance,
            storage: self.storage.duplicate(),
            code_hash: self.code_hash,
            keccak_code_hash: self.keccak_code_hash,
            code_size: self.code_size,
        }
    }
}

/// The store. The two hashes of the empty code are those that an untouched
/// account is read with.
#[derive(Clone, Debug)]
pub struct StateDB {
    pub accounts: AssocMap<Address, Account>,
    pub empty_code_hash: H256,
    pub empty_keccak_code_hash: H256,
}

impl View for StateDB {
    type V = Map<Address, AccountView>;

    open spec fn view(&self) -> Map<Address, AccountView> {
        Map::new(
            |a: Address| self.accounts@.contains_key(a),
            |a: Address| self.accounts@[a]@,
        )
    }
}

impl StateDB {
    /// No address occurs twice, and in no account a storage key.
    pub open spec fn wf(&self) -> bool {
        &&& self.accounts.wf()
        &&& forall|a: Address| #[trigger]
            self.accounts@.contains_key(a) ==> self.accounts@[a].wf()
    }

    /// Whether the store has a record for `addr`.
    pub open spec fn has_account(&self, addr: Address) -> bool {
        self@.contains_key(addr)
    }

    /// The record read at `addr`: the one stored, or that of an untouched
    /// account.
    pub open spec fn account(&self, addr: Address) -> AccountView {
        if self@.contains_key(addr) {
            self@[addr]
        } else {
            zero_account(self.empty_code_hash, self.empty_keccak_code_hash)
        }
    }

    /// An empty store.
    pub fn new(empty_code_hash: H256, empty_keccak_code_hash: H256) -> (db: StateDB)
        ensures
            db.wf(),
            db@ == Map::<Address, AccountView>::empty(),
            db.empty_code_hash == empty_code_hash,
            db.empty_keccak_code_hash == empty_keccak_code_hash,
    {
        let db = StateDB { accounts: AssocMap::new(), empty_code_hash, empty_keccak_code_hash };
        proof {
            assert(db@ =~= Map::<Address, AccountView>::empty());
        }
        db
    }

    /// Whether the store has a record for `addr`, and the record read there.
    pub fn get_account(&self, addr: &Address) -> (r: (bool, Account))
        requires
            self.wf(),
        ensures
            r.0 == self.has_account(*addr),
            r.1@ == self.account(*addr),
            r.1.wf(),
    {
        match self.accounts.get(addr) {
            Some(acc) => (true, acc.duplicate()),
            None => (false, Account::zero(self.empty_code_hash, self.empty_keccak_code_hash)),
        }
    }

    /// Whether the account read at `addr` is empty.
    pub fn is_empty_at(&self, addr: &Address) -> (e: bool)
        requires
            self.wf(),
        ensures
            e == account_is_empty(self.account(*addr), self.empty_code_hash),
    {
        match self.accounts.get(addr) {
            Some(acc) => acc.is_empty(&self.empty_code_hash),
            None => true,
        }
    }

    /// The value of slot `key` of the account at `addr`, zero where the
    /// store has no such account or the account no such slot.
    pub fn get_storage(&self, addr: &Address, key: &Word) -> (v: Word)
        requires
            self.wf(),
        ensures
            v == slot_value(self.account(*addr).storage, *key),
    {
        match self.accounts.get(addr) {
            Some(acc) => {
                match acc.storage.get(key) {
                    Some(v) => *v,
                    None => Word::zero(),
                }
            },
            None => Word::zero(),
        }
    }

    /// Puts `acc` at `addr`, in place of what was there.
    pub fn set_account(&mut self, addr: &Address, acc: Account)
        requires
            old(self).wf(),
            acc.wf(),
        ensures
            final(self).wf(),
            final(self)@ == old(self)@.insert(*addr, acc@),
            final(self).empty_code_hash == old(self).empty_code_hash,
            final(self).empty_keccak_code_hash == old(self).empty_keccak_code_hash,
    {
        self.accounts.insert(*addr, acc);
        proof {
            assert(final(self)@ =~= old(self)@.insert(*addr, acc@));
        }
    }

    /// Takes the record at `addr` out of the store and returns it, or the
    /// record of an untouched account where the store has none.
    pub fn take_account(&mut self, addr: &Address) -> (acc: Account)
        requires
            old(self).wf(),
        ensures
            final(self).wf(),
            final(self)@ == old(self)@.remove(*addr),
            acc@ == old(self).account(*addr),
            acc.wf(),
            final(self).empty_code_hash == old(self).empty_code_hash,
            final(self).empty_keccak_code_hash == old(self).empty_keccak_code_hash,
    {
        let taken = self.accounts.remove(addr);
        proof {
            assert(final(self)@ =~= old(self)@.remove(*addr));
        }
        match taken {
            Some(a) => a,
            None => Account::zero(self.empty_code_hash, self.empty_keccak_code_hash),
        }
    }

    /// Sets slot `key` of the account at `addr` to `value`, whatever the
    /// value; an account that the store lacks is first made as an untouched
    /// one.
    pub fn set_storage(&mut self, addr: &Address, key: &Word, value: Word)
        requires
            old(self).wf(),
        ensures
            final(self).wf(),
            final(self)@ == old(self)@.insert(
                *addr,
                AccountView {
                    storage: old(self).account(*addr).storage.insert(*key, value),
                    ..old(self).account(*addr)
                },
            ),
            final(self).empty_code_hash == old(self).empty_code_hash,
            final(self).empty_keccak_code_hash == old(self).empty_keccak_code_hash,
    {
        let mut acc = self.take_account(addr);
        acc.storage.insert(*key, value);
        let ghost mid = self@;
        self.set_account(addr, acc);
        proof {
            assert(mid.insert(*addr, acc@) =~= old(self)@.insert(*addr, acc@));
        }
    }
}

} // verus!
