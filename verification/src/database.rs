//! The state database of one block: the flat store, the codes by hash, and
//! the rules by which a transaction's state diff is committed to the flat
//! store and to the state trie. The trie itself is kept by the caller: the
//! database says what to write to it and is told the roots that result.

use vstd::prelude::*;
use crate::assoc::AssocMap;
use crate::state_db::{
    account_is_empty, slot_value, zero_word, Account, AccountView, StateDB,
};
use crate::word::{Address, Word, H256};

verus! {

/// The leaf that the state trie holds for one account.
#[derive(Clone, Copy, Debug, PartialEq, Eq, Structural)]
pub struct AccountData {
    pub nonce: u64,
    pub balance: Word,
    pub keccak_code_hash: H256,
    pub poseidon_code_hash: H256,
    pub code_size: u64,
    pub storage_root: H256,
}

impl Default for AccountData {
    /// The leaf of an account that the trie does not hold: every field
    /// zero.
    fn default() -> (leaf: AccountData)
        ensures
            leaf == (AccountData {
                nonce: 0,
                balance: zero_word(),
                keccak_code_hash: H256 { h0: 0, h1: 0, h2: 0, h3: 0 },
                poseidon_code_hash: H256 { h0: 0, h1: 0, h2: 0, h3: 0 },
                code_size: 0,
                storage_root: H256 { h0: 0, h1: 0, h2: 0, h3: 0 },
            }),
    {
        AccountData {
            nonce: 0,
            balance: Word::zero(),
            keccak_code_hash: H256 { h0: 0, h1: 0, h2: 0, h3: 0 },
            poseidon_code_hash: H256 { h0: 0, h1: 0, h2: 0, h3: 0 },
            code_size: 0,
            storage_root: H256 { h0: 0, h1: 0, h2: 0, h3: 0 },
        }
    }
}

/// One slot of a diff: the value before the transaction and the value
/// after it.
#[derive(Clone, Copy, Debug, PartialEq, Eq, Structural)]
pub struct StorageSlot {
    pub original_value: Word,
    pub present_value: Word,
}

/// The fields of an account as the execution engine sees them.
#[derive(Clone, Debug)]
pub struct AccountInfo {
    pub balance: Word,
    pub nonce: u64,
    pub code_hash: H256,
    pub keccak_code_hash: H256,
    pub code: Option<Vec<u8>>,
}

/// The state of one account after a transaction, as the execution engine
/// reports it: its fields and the slots it touched.
#[derive(Clone, Debug)]
pub struct AccountChange {
    pub info: AccountInfo,
    pub storage: Vec<(Word, StorageSlot)>,
}

/// The hash zero.
pub open spec fn zero_hash() -> H256 {
    H256 { h0: 0, h1: 0, h2: 0, h3: 0 }
}

/// The Keccak-256 hash of the empty string.
pub open spec fn keccak_empty() -> H256 {
    H256 {
        h0: 0xc5d2_4601_86f7_233c,
        h1: 0x927e_7db2_dcc7_03c0,
        h2: 0xe500_b653_ca82_273b,
        h3: 0x7bfa_d804_5d85_a470,
    }
}

/// Whether the execution engine counts an account with these fields as
/// empty: no balance, no nonce, and a code hash that is zero or that of
/// the empty code.
pub open spec fn engine_empty(balance: Word, nonce: u64, code_hash: H256) -> bool {
    balance == zero_word() && nonce == 0 && (code_hash == keccak_empty() || code_hash
        == zero_hash())
}

/// Asks revm, by `AccountInfo::is_empty`, whether it counts an account
/// with this balance, nonce and code hash as empty. The contract is what
/// revm's source computes: balance and nonce are zero, and the code hash is
/// `KECCAK_EMPTY` or zero. It is believed, not proved.
#[verifier::external_body]
fn engine_is_empty(balance: &Word, nonce: u64, code_hash: &H256) -> (e: bool)
    ensures
        e == engine_empty(*balance, nonce, *code_hash),
{
    let hash = revm::primitives::U256::from_limbs(
        [code_hash.h3, code_hash.h2, code_hash.h1, code_hash.h0],
    );
    let info = revm::state::AccountInfo::new(
        revm::primitives::U256::from_limbs([balance.l0, balance.l1, balance.l2, balance.l3]),
        nonce,
        revm::primitives::B256::from(hash),
        revm::bytecode::Bytecode::default(),
    );
    info.is_empty()
}

impl AccountChange {
    /// Whether the engine counts the account as empty after the
    /// transaction, judged by its balance, its nonce and its protocol code
    /// hash.
    pub open spec fn counts_empty(&self) -> bool {
        engine_empty(self.info.balance, self.info.nonce, self.info.keccak_code_hash)
    }

    pub fn is_empty(&self) -> (e: bool)
        ensures
            e == self.counts_empty(),
    {
        engine_is_empty(&self.info.balance, self.info.nonce, &self.info.keccak_code_hash)
    }
}

/// One write to an account's storage trie.
#[derive(Clone, Copy, Debug, PartialEq, Eq, Structural)]
pub enum StorageWrite {
    Update { key: Word, value: Word },
    Delete { key: Word },
}

/// What the caller has to do to the trie for one account of a diff.
#[derive(Clone, Debug)]
pub enum CommitAction {
    /// Nothing: the account was empty and stays empty.
    Skip,
    /// Apply these writes to the account's storage trie, in order, then
    /// write the account's leaf.
    Write { storage: Vec<StorageWrite> },
}

/// A storage after one slot of a diff: a nonzero value is stored, a zero
/// value removes a slot that held a nonzero value, and any other slot
/// changes nothing.
pub open spec fn apply_slot(storage: Map<Word, Word>, key: Word, slot: StorageSlot) -> Map<
    Word,
    Word,
> {
    if slot.present_value != zero_word() {
        storage.insert(key, slot.present_value)
    } else if slot.original_value != zero_word() {
        storage.remove(key)
    } else {
        storage
    }
}

/// A storage after the slots of a diff, applied in order.
pub open spec fn storage_after(storage: Map<Word, Word>, diff: Seq<(Word, StorageSlot)>) -> Map<
    Word,
    Word,
>
    decreases diff.len(),
{
    if diff.len() == 0 {
        storage
    } else {
        apply_slot(storage_after(storage, diff.drop_last()), diff.last().0, diff.last().1)
    }
}

/// The writes to the storage trie that the slots of a diff ask for, in
/// order: an update for a nonzero value, a deletion for a zero value in a
/// slot that held a nonzero value, nothing for any other slot.
pub open spec fn storage_writes(diff: Seq<(Word, StorageSlot)>) -> Seq<StorageWrite>
    decreases diff.len(),
{
    if diff.len() == 0 {
        Seq::empty()
    } else {
        let before = storage_writes(diff.drop_last());
        let key = diff.last().0;
        let slot = diff.last().1;
        if slot.present_value != zero_word() {
            before.push(StorageWrite::Update { key: key, value: slot.present_value })
        } else if slot.original_value != zero_word() {
            before.push(StorageWrite::Delete { key: key })
        } else {
            before
        }
    }
}

/// The slots of a storage trie after `writes`, applied in order.
pub open spec fn apply_writes(slots: Map<Word, Word>, writes: Seq<StorageWrite>) -> Map<Word, Word>
    decreases writes.len(),
{
    if writes.len() == 0 {
        slots
    } else {
        let before = apply_writes(slots, writes.drop_last());
        match writes.last() {
            StorageWrite::Update { key, value } => before.insert(key, value),
            StorageWrite::Delete { key } => before.remove(key),
        }
    }
}

/// How many bytes of code a diff reports: none where it carries no code.
pub open spec fn code_len(info: AccountInfo) -> int {
    match info.code {
        Some(c) => c@.len() as int,
        None => 0,
    }
}

/// Whether a commit rewrites the code fields: the account was empty and is
/// not any more, or its code hash differs from the incoming one.
pub open spec fn code_changes(acc: AccountView, empty_code_hash: H256, incoming: AccountChange) -> bool {
    (account_is_empty(acc, empty_code_hash) && !incoming.counts_empty()) || acc.code_hash
        != incoming.info.code_hash
}

/// Whether a commit leaves the account alone: it was empty and stays
/// empty.
pub open spec fn is_noop(acc: AccountView, empty_code_hash: H256, incoming: AccountChange) -> bool {
    account_is_empty(acc, empty_code_hash) && incoming.counts_empty()
}

/// The record of an account after a commit of `incoming`.
pub open spec fn account_after(acc: AccountView, empty_code_hash: H256, incoming: AccountChange) -> AccountView {
    let code = code_changes(acc, empty_code_hash, incoming);
    AccountView {
        nonce: incoming.info.nonce,
        balance: incoming.info.balance,
        storage: storage_after(acc.storage, incoming.storage@),
        code_hash: if code {
            incoming.info.code_hash
        } else {
            acc.code_hash
        },
        keccak_code_hash: if code {
            incoming.info.keccak_code_hash
        } else {
            acc.keccak_code_hash
        },
        code_size: if code {
            code_len(incoming.info) as u64
        } else {
            acc.code_size
        },
    }
}

/// The leaf of an account after a commit of `incoming`, from the leaf that
/// the trie held and the root of the account's storage trie after the
/// diff's writes. Each field is rewritten where the flat record's field
/// is; the storage root is taken over where the diff touches any slot.
pub open spec fn leaf_after(
    acc: AccountView,
    empty_code_hash: H256,
    incoming: AccountChange,
    leaf: AccountData,
    storage_root: H256,
) -> AccountData {
    let code = code_changes(acc, empty_code_hash, incoming);
    AccountData {
        nonce: if acc.nonce != incoming.info.nonce {
            incoming.info.nonce
        } else {
            leaf.nonce
        },
        balance: if acc.balance != incoming.info.balance {
            incoming.info.balance
        } else {
            leaf.balance
        },
        keccak_code_hash: if code {
            incoming.info.keccak_code_hash
        } else {
            leaf.keccak_code_hash
        },
        poseidon_code_hash: if code {
            incoming.info.code_hash
        } else {
            leaf.poseidon_code_hash
        },
        code_size: if code {
            code_len(incoming.info) as u64
        } else {
            leaf.code_size
        },
        storage_root: if incoming.storage@.len() > 0 {
            storage_root
        } else {
            leaf.storage_root
        },
    }
}

/// The flat store and the storage trie move in step: the storage after a
/// diff is what the diff's trie writes make of the same slots.
pub proof fn lemma_storage_in_step(storage: Map<Word, Word>, diff: Seq<(Word, StorageSlot)>)
    ensures
        storage_after(storage, diff) == apply_writes(storage, storage_writes(diff)),
    decreases diff.len(),
{
    if diff.len() > 0 {
        lemma_storage_in_step(storage, diff.drop_last());
        let before = storage_writes(diff.drop_last());
        let slot = diff.last().1;
        if slot.present_value != zero_word() || slot.original_value != zero_word() {
            assert(storage_writes(diff).drop_last() =~= before);
        }
    }
}

/// Updates of two different slots give the same slots in either order.
pub proof fn lemma_updates_commute(
    slots: Map<Word, Word>,
    key_a: Word,
    value_a: Word,
    key_b: Word,
    value_b: Word,
)
    requires
        key_a != key_b,
    ensures
        apply_writes(
            slots,
            seq![
                StorageWrite::Update { key: key_a, value: value_a },
                StorageWrite::Update { key: key_b, value: value_b },
            ],
        ) == apply_writes(
            slots,
            seq![
                StorageWrite::Update { key: key_b, value: value_b },
                StorageWrite::Update { key: key_a, value: value_a },
            ],
        ),
{
    let a = StorageWrite::Update { key: key_a, value: value_a };
    let b = StorageWrite::Update { key: key_b, value: value_b };
    assert(seq![a, b].drop_last() =~= seq![a]);
    assert(seq![b, a].drop_last() =~= seq![b]);
    assert(seq![a].drop_last() =~= Seq::<StorageWrite>::empty());
    assert(seq![b].drop_last() =~= Seq::<StorageWrite>::empty());
    assert(apply_writes(slots, seq![a].drop_last()) == slots);
    assert(apply_writes(slots, seq![b].drop_last()) == slots);
    assert(apply_writes(slots, seq![a]) == slots.insert(key_a, value_a));
    assert(apply_writes(slots, seq![b]) == slots.insert(key_b, value_b));
    assert(slots.insert(key_a, value_a).insert(key_b, value_b) =~= slots.insert(
        key_b,
        value_b,
    ).insert(key_a, value_a));
}

/// A slot that is written with a nonzero value and then with zero is
/// absent afterwards, in the flat store and among the trie's slots, and
/// where it was absent before, both are again what they were.
pub proof fn lemma_storage_deletion(
    storage: Map<Word, Word>,
    key: Word,
    original: Word,
    value: Word,
)
    requires
        value != zero_word(),
    ensures
        ({
            let first = seq![(key, StorageSlot { original_value: original, present_value: value })];
            let second = seq![
                (key, StorageSlot { original_value: value, present_value: zero_word() }),
            ];
            let stored = storage_after(storage_after(storage, first), second);
            let trie = apply_writes(
                apply_writes(storage, storage_writes(first)),
                storage_writes(second),
            );
            &&& !stored.contains_key(key)
            &&& !trie.contains_key(key)
            &&& stored == trie
            &&& slot_value(stored, key) == zero_word()
            &&& !storage.contains_key(key) ==> stored == storage && trie == storage
        }),
{
    let first = seq![(key, StorageSlot { original_value: original, present_value: value })];
    let second = seq![(key, StorageSlot { original_value: value, present_value: zero_word() })];
    assert(first.drop_last() =~= Seq::<(Word, StorageSlot)>::empty());
    assert(second.drop_last() =~= Seq::<(Word, StorageSlot)>::empty());
    assert(storage_after(storage, first.drop_last()) == storage);
    assert(storage_after(storage, first) == storage.insert(key, value));
    let mid = storage.insert(key, value);
    assert(storage_after(mid, second.drop_last()) == mid);
    assert(storage_after(mid, second) == mid.remove(key));
    lemma_storage_in_step(storage, first);
    lemma_storage_in_step(mid, second);
    if !storage.contains_key(key) {
        assert(mid.remove(key) =~= storage);
    }
}

/// The flat record that a trie leaf stands for: its fields, and no storage.
pub open spec fn account_of_leaf(leaf: AccountData) -> AccountView {
    AccountView {
        nonce: leaf.nonce,
        balance: leaf.balance,
        storage: Map::empty(),
        code_hash: leaf.poseidon_code_hash,
        keccak_code_hash: leaf.keccak_code_hash,
        code_size: leaf.code_size,
    }
}

/// The store that holds the record of each of `accounts`, a later one in
/// place of an earlier one at the same address.
pub open spec fn load_accounts(accounts: Seq<(Address, AccountData)>) -> Map<Address, AccountView>
    decreases accounts.len(),
{
    if accounts.len() == 0 {
        Map::empty()
    } else {
        load_accounts(accounts.drop_last()).insert(
            accounts.last().0,
            account_of_leaf(accounts.last().1),
        )
    }
}

/// The store `m` after each of `slots`, an address, a key and a value, has
/// been written to it in order. An address that the store lacks starts as
/// `untouched`.
pub open spec fn load_storage(
    m: Map<Address, AccountView>,
    untouched: AccountView,
    slots: Seq<(Address, Word, Word)>,
) -> Map<Address, AccountView>
    decreases slots.len(),
{
    if slots.len() == 0 {
        m
    } else {
        let before = load_storage(m, untouched, slots.drop_last());
        let addr = slots.last().0;
        let acc = if before.contains_key(addr) {
            before[addr]
        } else {
            untouched
        };
        before.insert(
            addr,
            AccountView { storage: acc.storage.insert(slots.last().1, slots.last().2), ..acc },
        )
    }
}

/// The code found at `hash` among `codes`, the last one where several have
/// that hash, and the empty code where none has.
pub open spec fn code_among(codes: Seq<(H256, Vec<u8>)>, hash: H256) -> Seq<u8>
    decreases codes.len(),
{
    if codes.len() == 0 {
        Seq::empty()
    } else if codes.last().0 == hash {
        codes.last().1@
    } else {
        code_among(codes.drop_last(), hash)
    }
}

/// A vector with the same bytes.
pub fn copy_bytes(bytes: &Vec<u8>) -> (r: Vec<u8>)
    ensures
        r@ == bytes@,
{
    let mut r: Vec<u8> = Vec::new();
    let mut i: usize = 0;
    while i < bytes.len()
        invariant
            i <= bytes@.len(),
            r@ == bytes@.take(i as int),
        decreases bytes@.len() - i,
    {
        r.push(bytes[i]);
        proof {
            assert(r@ =~= bytes@.take(i + 1));
        }
        i = i + 1;
    }
    proof {
        assert(r@ =~= bytes@);
    }
    r
}

/// The writes to an account's storage trie that a diff asks for.
pub fn gen_storage_writes(diff: &Vec<(Word, StorageSlot)>) -> (writes: Vec<StorageWrite>)
    ensures
        writes@ == storage_writes(diff@),
{
    let mut writes: Vec<StorageWrite> = Vec::new();
    let mut i: usize = 0;
    proof {
        assert(diff@.take(0) =~= Seq::<(Word, StorageSlot)>::empty());
    }
    while i < diff.len()
        invariant
            i <= diff@.len(),
            writes@ == storage_writes(diff@.take(i as int)),
        decreases diff@.len() - i,
    {
        let key = diff[i].0;
        let slot = diff[i].1;
        proof {
            assert(diff@.take(i + 1).drop_last() =~= diff@.take(i as int));
        }
        if !slot.present_value.is_zero() {
            writes.push(StorageWrite::Update { key, value: slot.present_value });
        } else if !slot.original_value.is_zero() {
            writes.push(StorageWrite::Delete { key });
        }
        i = i + 1;
    }
    proof {
        assert(diff@.take(diff@.len() as int) =~= diff@);
    }
    writes
}

/// The database of one block.
#[derive(Debug)]
pub struct EvmDatabase {
    /// The number of the transaction that is committed next, from one.
    pub tx_id: usize,
    /// The codes by their hash.
    pub code_db: AssocMap<H256, Vec<u8>>,
    /// The flat store.
    pub sdb: StateDB,
    /// The root of the state trie as the caller last reported it.
    pub root: H256,
}

impl EvmDatabase {
    pub open spec fn wf(&self) -> bool {
        self.sdb.wf() && self.code_db.wf()
    }

    /// The code kept at `hash`, the empty code where none is kept.
    pub open spec fn code(&self, hash: H256) -> Seq<u8> {
        if self.code_db@.contains_key(hash) {
            self.code_db@[hash]@
        } else {
            Seq::empty()
        }
    }

    /// The database before the first transaction of a block: the flat
    /// store holds the record of each of `accounts` and then each of
    /// `slots`, the codes are those of `codes` and the empty code, and the
    /// trie stands at `root`.
    pub fn new(
        accounts: &Vec<(Address, AccountData)>,
        slots: &Vec<(Address, Word, Word)>,
        codes: &Vec<(H256, Vec<u8>)>,
        root: H256,
        empty_code_hash: H256,
        empty_keccak_code_hash: H256,
    ) -> (db: EvmDatabase)
        ensures
            db.wf(),
            db.tx_id == 1,
            db.root == root,
            db.sdb.empty_code_hash == empty_code_hash,
            db.sdb.empty_keccak_code_hash == empty_keccak_code_hash,
            db.sdb@ == load_storage(
                load_accounts(accounts@),
                crate::state_db::zero_account(empty_code_hash, empty_keccak_code_hash),
                slots@,
            ),
            forall|hash: H256| #[trigger] db.code(hash) == code_among(codes@, hash),
    {
        let mut sdb = StateDB::new(empty_code_hash, empty_keccak_code_hash);
        let mut i: usize = 0;
        proof {
            assert(accounts@.take(0) =~= Seq::<(Address, AccountData)>::empty());
        }
        while i < accounts.len()
            invariant
                i <= accounts@.len(),
                sdb.wf(),
                sdb.empty_code_hash == empty_code_hash,
                sdb.empty_keccak_code_hash == empty_keccak_code_hash,
                sdb@ == load_accounts(accounts@.take(i as int)),
            decreases accounts@.len() - i,
        {
            let addr = accounts[i].0;
            let leaf = accounts[i].1;
            let acc = Account {
                nonce: leaf.nonce,
                balance: leaf.balance,
                storage: AssocMap::new(),
                code_hash: leaf.poseidon_code_hash,
                keccak_code_hash: leaf.keccak_code_hash,
                code_size: leaf.code_size,
            };
            proof {
                assert(accounts@.take(i + 1).drop_last() =~= accounts@.take(i as int));
            }
            sdb.set_account(&addr, acc);
            i = i + 1;
        }
        proof {
            assert(accounts@.take(accounts@.len() as int) =~= accounts@);
            assert(slots@.take(0) =~= Seq::<(Address, Word, Word)>::empty());
        }
        let ghost loaded = sdb@;
        let ghost untouched = crate::state_db::zero_account(
            empty_code_hash,
            empty_keccak_code_hash,
        );
        let mut j: usize = 0;
        while j < slots.len()
            invariant
                j <= slots@.len(),
                sdb.wf(),
                sdb.empty_code_hash == empty_code_hash,
                sdb.empty_keccak_code_hash == empty_keccak_code_hash,
                untouched == crate::state_db::zero_account(empty_code_hash, empty_keccak_code_hash),
                sdb@ == load_storage(loaded, untouched, slots@.take(j as int)),
            decreases slots@.len() - j,
        {
            let addr = slots[j].0;
            let key = slots[j].1;
            let value = slots[j].2;
            proof {
                assert(slots@.take(j + 1).drop_last() =~= slots@.take(j as int));
            }
            sdb.set_storage(&addr, &key, value);
            j = j + 1;
        }
        proof {
            assert(slots@.take(slots@.len() as int) =~= slots@);
        }
        let mut code_db: AssocMap<H256, Vec<u8>> = AssocMap::new();
        code_db.insert(empty_code_hash, Vec::new());
        let mut k: usize = 0;
        proof {
            assert(codes@.take(0) =~= Seq::<(H256, Vec<u8>)>::empty());
        }
        while k < codes.len()
            invariant
                k <= codes@.len(),
                code_db.wf(),
                forall|hash: H256|
                    (if #[trigger] code_db@.contains_key(hash) {
                        code_db@[hash]@
                    } else {
                        Seq::empty()
                    }) == code_among(codes@.take(k as int), hash),
            decreases codes@.len() - k,
        {
            let hash = codes[k].0;
            let code = copy_bytes(&codes[k].1);
            proof {
                assert(codes@.take(k + 1).drop_last() =~= codes@.take(k as int));
            }
            code_db.insert(hash, code);
            k = k + 1;
        }
        proof {
            assert(codes@.take(codes@.len() as int) =~= codes@);
        }
        EvmDatabase { tx_id: 1, code_db, sdb, root }
    }

    /// The root of the state trie as the caller last reported it.
    pub fn root(&self) -> (r: H256)
        ensures
            r == self.root,
    {
        self.root
    }

    /// The fields and the code of the account at `address`, or `None`
    /// where the flat store has no record of it.
    pub fn basic_ref(&self, address: &Address) -> (r: Option<AccountInfo>)
        requires
            self.wf(),
        ensures
            match r {
                Some(info) => {
                    let acc = self.sdb.account(*address);
                    &&& self.sdb.has_account(*address)
                    &&& info.balance == acc.balance
                    &&& info.nonce == acc.nonce
                    &&& info.code_hash == acc.code_hash
                    &&& info.keccak_code_hash == acc.keccak_code_hash
                    &&& info.code matches Some(c) && c@ == self.code(acc.code_hash)
                },
                None => !self.sdb.has_account(*address),
            },
    {
        match self.sdb.accounts.get(address) {
            Some(acc) => {
                let code = match self.code_db.get(&acc.code_hash) {
                    Some(c) => copy_bytes(c),
                    None => Vec::new(),
                };
                Some(
                    AccountInfo {
                        balance: acc.balance,
                        nonce: acc.nonce,
                        code_hash: acc.code_hash,
                        keccak_code_hash: acc.keccak_code_hash,
                        code: Some(code),
                    },
                )
            },
            None => None,
        }
    }

    /// The value of slot `index` of the account at `address`, zero where
    /// there is none.
    pub fn storage_ref(&self, address: &Address, index: &Word) -> (v: Word)
        requires
            self.wf(),
        ensures
            v == slot_value(self.sdb.account(*address).storage, *index),
    {
        self.sdb.get_storage(address, index)
    }

    /// What the caller has to do to the trie for the account at `addr`
    /// before it commits `incoming`: nothing where the account was empty
    /// and stays empty, else the diff's storage writes and then the leaf.
    pub fn begin_commit(&self, addr: &Address, incoming: &AccountChange) -> (action: CommitAction)
        requires
            self.wf(),
        ensures
            match action {
                CommitAction::Skip => is_noop(
                    self.sdb.account(*addr),
                    self.sdb.empty_code_hash,
                    *incoming,
                ),
                CommitAction::Write { storage } => {
                    &&& !is_noop(self.sdb.account(*addr), self.sdb.empty_code_hash, *incoming)
                    &&& storage@ == storage_writes(incoming.storage@)
                },
            },
    {
        if self.sdb.is_empty_at(addr) && incoming.is_empty() {
            CommitAction::Skip
        } else {
            CommitAction::Write { storage: gen_storage_writes(&incoming.storage) }
        }
    }

    /// Commits `incoming` for the account at `addr` to the flat store and
    /// returns the leaf to write to the trie. `leaf` is the leaf that the
    /// trie holds for the account, or the default leaf; `storage_root` is
    /// the root of the account's storage trie after the diff's writes.
    /// Where the account was empty and stays empty, nothing changes and no
    /// leaf is returned.
    pub fn commit_account(
        &mut self,
        addr: &Address,
        incoming: &AccountChange,
        leaf: AccountData,
        storage_root: H256,
    ) -> (r: Option<AccountData>)
        requires
            old(self).wf(),
        ensures
            final(self).wf(),
            final(self).tx_id == old(self).tx_id,
            final(self).root == old(self).root,
            final(self).code_db == old(self).code_db,
            final(self).sdb.empty_code_hash == old(self).sdb.empty_code_hash,
            final(self).sdb.empty_keccak_code_hash == old(self).sdb.empty_keccak_code_hash,
            is_noop(old(self).sdb.account(*addr), old(self).sdb.empty_code_hash, *incoming) ==> r
                == None::<AccountData> && *final(self) == *old(self),
            !is_noop(old(self).sdb.account(*addr), old(self).sdb.empty_code_hash, *incoming) ==> {
                &&& r == Some(
                    leaf_after(
                        old(self).sdb.account(*addr),
                        old(self).sdb.empty_code_hash,
                        *incoming,
                        leaf,
                        storage_root,
                    ),
                )
                &&& final(self).sdb@ == old(self).sdb@.insert(
                    *addr,
                    account_after(
                        old(self).sdb.account(*addr),
                        old(self).sdb.empty_code_hash,
                        *incoming,
                    ),
                )
            },
    {
        let empty_code_hash = self.sdb.empty_code_hash;
        let is_empty = self.sdb.is_empty_at(addr);
        let stays_empty = incoming.is_empty();
        if is_empty && stays_empty {
            return None;
        }
        let mut acc = self.sdb.take_account(addr);
        let mut acc_data = leaf;
        let ghost before = acc@;
        let ghost taken = self.sdb@;

        let mut i: usize = 0;
        proof {
            assert(incoming.storage@.take(0) =~= Seq::<(Word, StorageSlot)>::empty());
        }
        while i < incoming.storage.len()
            invariant
                i <= incoming.storage@.len(),
                acc.storage.wf(),
                acc.storage@ == storage_after(before.storage, incoming.storage@.take(i as int)),
                acc.nonce == before.nonce,
                acc.balance == before.balance,
                acc.code_hash == before.code_hash,
                acc.keccak_code_hash == before.keccak_code_hash,
                acc.code_size == before.code_size,
            decreases incoming.storage@.len() - i,
        {
            let key = incoming.storage[i].0;
            let slot = incoming.storage[i].1;
            proof {
                assert(incoming.storage@.take(i + 1).drop_last() =~= incoming.storage@.take(
                    i as int,
                ));
            }
            if !slot.present_value.is_zero() {
                acc.storage.insert(key, slot.present_value);
            } else if !slot.original_value.is_zero() {
                acc.storage.remove(&key);
            }
            i = i + 1;
        }
        proof {
            assert(incoming.storage@.take(incoming.storage@.len() as int) =~= incoming.storage@);
        }
        if incoming.storage.len() > 0 {
            acc_data.storage_root = storage_root;
        }
        if acc.balance != incoming.info.balance {
            acc.balance = incoming.info.balance;
            acc_data.balance = incoming.info.balance;
        }
        if acc.nonce != incoming.info.nonce {
            acc.nonce = incoming.info.nonce;
            acc_data.nonce = incoming.info.nonce;
        }
        if (is_empty && !stays_empty) || acc.code_hash != incoming.info.code_hash {
            let code_size: u64 = match &incoming.info.code {
                Some(c) => c.len() as u64,
                None => 0,
            };
            acc.code_hash = incoming.info.code_hash;
            acc.keccak_code_hash = incoming.info.keccak_code_hash;
            acc.code_size = code_size;
            acc_data.poseidon_code_hash = incoming.info.code_hash;
            acc_data.keccak_code_hash = incoming.info.keccak_code_hash;
            acc_data.code_size = code_size;
        }
        self.sdb.set_account(addr, acc);
        proof {
            assert(taken.insert(*addr, acc@) =~= old(self).sdb@.insert(*addr, acc@));
            assert(acc@.storage == account_after(before, empty_code_hash, *incoming).storage);
            assert(acc@ == account_after(before, empty_code_hash, *incoming));
        }
        Some(acc_data)
    }

    /// Ends the commit of one transaction: takes over the root that the
    /// trie has after the leaves were written, and moves on to the next
    /// transaction.
    pub fn finish_commit(&mut self, root: H256)
        requires
            old(self).tx_id < usize::MAX,
        ensures
            final(self).tx_id == old(self).tx_id + 1,
            final(self).root == root,
            final(self).sdb == old(self).sdb,
            final(self).code_db == old(self).code_db,
    {
        self.tx_id = self.tx_id + 1;
        self.root = root;
    }
}

} // verus!
