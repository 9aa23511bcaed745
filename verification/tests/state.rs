use zkevm_witness::assoc::AssocMap;
use zkevm_witness::database::{
    gen_storage_writes, AccountChange, AccountData, AccountInfo, CommitAction, EvmDatabase,
    StorageSlot, StorageWrite,
};
use zkevm_witness::state_db::StateDB;
use zkevm_witness::word::{Address, Word, H256};

fn h(x: u64) -> H256 {
    H256 { h0: x, h1: 0, h2: 0, h3: x }
}

fn a(x: u64) -> Address {
    Address { a0: 0, a1: x, a2: x }
}

fn w(x: u64) -> Word {
    Word::from_u64(x)
}

const EMPTY: u64 = 0xe0;

fn keccak_empty() -> H256 {
    H256 {
        h0: 0xc5d2460186f7233c,
        h1: 0x927e7db2dcc703c0,
        h2: 0xe500b653ca82273b,
        h3: 0x7bfad8045d85a470,
    }
}

fn leaf(nonce: u64, balance: u64, code: u64, size: u64, root: u64) -> AccountData {
    AccountData {
        nonce,
        balance: w(balance),
        keccak_code_hash: h(code + 1),
        poseidon_code_hash: h(code),
        code_size: size,
        storage_root: h(root),
    }
}

fn database() -> EvmDatabase {
    EvmDatabase::new(
        &vec![(a(1), leaf(3, 100, 0x50, 4, 0x70)), (a(2), leaf(0, 0, EMPTY, 0, 0))],
        &vec![(a(1), w(10), w(11)), (a(3), w(20), w(0))],
        &vec![(h(0x50), vec![1, 2, 3, 4])],
        h(0xaa),
        h(EMPTY),
        keccak_empty(),
    )
}

fn change(balance: u64, nonce: u64, code: u64, bytes: Option<Vec<u8>>) -> AccountChange {
    AccountChange {
        info: AccountInfo {
            balance: w(balance),
            nonce,
            code_hash: h(code),
            keccak_code_hash: h(code + 1),
            code: bytes,
        },
        storage: vec![],
    }
}

fn slot(original: u64, present: u64) -> StorageSlot {
    StorageSlot { original_value: w(original), present_value: w(present) }
}

#[test]
fn assoc_map_insert_get_remove() {
    let mut m: AssocMap<Word, Word> = AssocMap::new();
    assert_eq!(m.get(&w(1)), None);
    m.insert(w(1), w(10));
    m.insert(w(2), w(20));
    m.insert(w(1), w(11));
    assert_eq!(m.entries.len(), 2);
    assert_eq!(m.get(&w(1)), Some(&w(11)));
    assert_eq!(m.get(&w(2)), Some(&w(20)));
    assert!(m.contains_key(&w(2)));
    assert_eq!(m.remove(&w(1)), Some(w(11)));
    assert_eq!(m.remove(&w(1)), None);
    assert_eq!(m.get(&w(1)), None);
    assert_eq!(m.get(&w(2)), Some(&w(20)));
    assert_eq!(m.duplicate().entries, m.entries);
}

#[test]
fn untouched_account_reads_as_zero_and_absent() {
    let db = StateDB::new(h(EMPTY), keccak_empty());
    let (exists, acc) = db.get_account(&a(9));
    assert!(!exists);
    assert_eq!(acc.nonce, 0);
    assert!(acc.balance.is_zero());
    assert_eq!(acc.code_hash, h(EMPTY));
    assert_eq!(acc.keccak_code_hash, keccak_empty());
    assert_eq!(acc.code_size, 0);
    assert!(acc.storage.entries.is_empty());
    assert!(acc.is_empty(&h(EMPTY)));
    assert_eq!(db.get_storage(&a(9), &w(1)), Word::zero());
    assert!(db.is_empty_at(&a(9)));
}

#[test]
fn new_database_holds_accounts_slots_and_codes() {
    let db = database();
    assert_eq!(db.tx_id, 1);
    assert_eq!(db.root(), h(0xaa));
    let info = db.basic_ref(&a(1)).unwrap();
    assert_eq!(info.balance, w(100));
    assert_eq!(info.nonce, 3);
    assert_eq!(info.code_hash, h(0x50));
    assert_eq!(info.keccak_code_hash, h(0x51));
    assert_eq!(info.code, Some(vec![1, 2, 3, 4]));
    let info = db.basic_ref(&a(2)).unwrap();
    assert_eq!(info.code, Some(vec![]));
    assert_eq!(info.code_hash, h(EMPTY));
    assert!(db.basic_ref(&a(4)).is_none());
    // a slot read for an address without a leaf makes an untouched account
    let info = db.basic_ref(&a(3)).unwrap();
    assert_eq!(info.code_hash, h(EMPTY));
    assert_eq!(info.keccak_code_hash, keccak_empty());
    assert_eq!(db.storage_ref(&a(1), &w(10)), w(11));
    assert_eq!(db.storage_ref(&a(1), &w(12)), w(0));
    assert_eq!(db.storage_ref(&a(3), &w(20)), w(0));
    assert_eq!(db.storage_ref(&a(4), &w(20)), w(0));
    let (exists, acc) = db.sdb.get_account(&a(1));
    assert!(exists);
    assert_eq!(acc.code_size, 4);
    assert_eq!(acc.storage.get(&w(10)), Some(&w(11)));
}

#[test]
fn code_of_unknown_hash_is_empty() {
    let db = EvmDatabase::new(
        &vec![(a(1), leaf(1, 1, 0x99, 2, 0))],
        &vec![],
        &vec![(h(0x50), vec![1]), (h(0x50), vec![2, 3])],
        h(1),
        h(EMPTY),
        keccak_empty(),
    );
    assert_eq!(db.basic_ref(&a(1)).unwrap().code, Some(vec![]));
    assert_eq!(db.code_db.get(&h(0x50)), Some(&vec![2, 3]));
    assert_eq!(db.code_db.get(&h(EMPTY)), Some(&vec![]));
}

#[test]
fn commit_of_empty_to_empty_changes_nothing() {
    let mut db = database();
    let incoming = AccountChange {
        info: AccountInfo {
            balance: w(0),
            nonce: 0,
            code_hash: h(EMPTY),
            keccak_code_hash: keccak_empty(),
            code: None,
        },
        storage: vec![(w(1), slot(0, 5))],
    };
    assert!(incoming.is_empty());
    for addr in [a(2), a(4)] {
        let accounts = db.sdb.accounts.entries.len();
        assert!(matches!(db.begin_commit(&addr, &incoming), CommitAction::Skip));
        assert_eq!(db.commit_account(&addr, &incoming, AccountData::default(), h(5)), None);
        assert_eq!(db.sdb.accounts.entries.len(), accounts);
        assert_eq!(db.storage_ref(&addr, &w(1)), w(0));
    }
    assert!(db.basic_ref(&a(4)).is_none());
    assert_eq!(db.root(), h(0xaa));
    assert_eq!(db.tx_id, 1);
}

#[test]
fn commit_rewrites_balance_nonce_and_code() {
    let mut db = database();
    let incoming = change(70, 4, 0x60, Some(vec![1, 2, 3, 4, 5, 6]));
    match db.begin_commit(&a(1), &incoming) {
        CommitAction::Write { storage } => assert!(storage.is_empty()),
        CommitAction::Skip => panic!("the account is not empty"),
    }
    let before = leaf(3, 100, 0x50, 4, 0x70);
    let after = db.commit_account(&a(1), &incoming, before, h(0x71)).unwrap();
    // no slot was touched: the storage root stays
    assert_eq!(after, leaf(4, 70, 0x60, 6, 0x70));
    let (_, acc) = db.sdb.get_account(&a(1));
    assert_eq!(acc.balance, w(70));
    assert_eq!(acc.nonce, 4);
    assert_eq!(acc.code_hash, h(0x60));
    assert_eq!(acc.keccak_code_hash, h(0x61));
    assert_eq!(acc.code_size, 6);
    assert_eq!(db.storage_ref(&a(1), &w(10)), w(11));
}

#[test]
fn commit_keeps_leaf_fields_that_the_flat_store_already_has() {
    let mut db = database();
    // same balance, nonce and code hash as the flat record
    let incoming = change(100, 3, 0x50, None);
    let stale = leaf(1, 2, 0x40, 9, 0x70);
    let after = db.commit_account(&a(1), &incoming, stale, h(0x71)).unwrap();
    assert_eq!(after, stale);
}

#[test]
fn commit_of_a_new_account_takes_code_fields_over() {
    let mut db = database();
    let incoming = change(5, 0, EMPTY, None);
    let after = db.commit_account(&a(4), &incoming, AccountData::default(), h(0)).unwrap();
    assert_eq!(after.balance, w(5));
    assert_eq!(after.nonce, 0);
    assert_eq!(after.poseidon_code_hash, h(EMPTY));
    assert_eq!(after.keccak_code_hash, h(EMPTY + 1));
    assert!(!incoming.is_empty());
    assert_eq!(after.code_size, 0);
    assert_eq!(after.storage_root, AccountData::default().storage_root);
    let info = db.basic_ref(&a(4)).unwrap();
    assert_eq!(info.balance, w(5));
}

#[test]
fn storage_write_then_zero_removes_the_slot() {
    let mut db = database();
    let mut incoming = change(100, 3, 0x50, None);
    incoming.storage = vec![(w(30), slot(0, 8))];
    match db.begin_commit(&a(1), &incoming) {
        CommitAction::Write { storage } => {
            assert_eq!(storage, vec![StorageWrite::Update { key: w(30), value: w(8) }])
        }
        CommitAction::Skip => panic!("the account is not empty"),
    }
    let first = db.commit_account(&a(1), &incoming, leaf(3, 100, 0x50, 4, 0x70), h(0x71)).unwrap();
    assert_eq!(first.storage_root, h(0x71));
    assert_eq!(db.storage_ref(&a(1), &w(30)), w(8));

    incoming.storage = vec![(w(30), slot(8, 0))];
    match db.begin_commit(&a(1), &incoming) {
        CommitAction::Write { storage } => {
            assert_eq!(storage, vec![StorageWrite::Delete { key: w(30) }])
        }
        CommitAction::Skip => panic!("the account is not empty"),
    }
    let second = db.commit_account(&a(1), &incoming, first, h(0x70)).unwrap();
    assert_eq!(second.storage_root, h(0x70));
    assert_eq!(db.storage_ref(&a(1), &w(30)), w(0));
    let (_, acc) = db.sdb.get_account(&a(1));
    assert!(!acc.storage.contains_key(&w(30)));
    assert_eq!(acc.storage.get(&w(10)), Some(&w(11)));
    assert_eq!(acc.storage.entries.len(), 1);
}

#[test]
fn storage_writes_follow_the_diff_in_order() {
    let diff = vec![
        (w(1), slot(0, 5)),
        (w(2), slot(0, 0)),
        (w(3), slot(7, 0)),
        (w(1), slot(5, 6)),
    ];
    assert_eq!(
        gen_storage_writes(&diff),
        vec![
            StorageWrite::Update { key: w(1), value: w(5) },
            StorageWrite::Delete { key: w(3) },
            StorageWrite::Update { key: w(1), value: w(6) },
        ]
    );
}

#[test]
fn zero_write_to_a_slot_that_was_zero_is_ignored() {
    let mut db = database();
    let mut incoming = change(100, 3, 0x50, None);
    incoming.storage = vec![(w(10), slot(0, 0))];
    let after = db.commit_account(&a(1), &incoming, leaf(3, 100, 0x50, 4, 0x70), h(0x72)).unwrap();
    // the diff names a slot, so the root reported for the sub-trie is taken
    assert_eq!(after.storage_root, h(0x72));
    assert_eq!(db.storage_ref(&a(1), &w(10)), w(11));
}

#[test]
fn finish_commit_takes_the_root_and_counts_the_transaction() {
    let mut db = database();
    db.finish_commit(h(0xbb));
    assert_eq!(db.root(), h(0xbb));
    assert_eq!(db.tx_id, 2);
}

#[test]
fn default_leaf_is_all_zero() {
    let d = AccountData::default();
    assert_eq!(d.nonce, 0);
    assert!(d.balance.is_zero());
    assert_eq!(d.code_size, 0);
    assert_eq!(d.storage_root, H256 { h0: 0, h1: 0, h2: 0, h3: 0 });
    assert_eq!(d.poseidon_code_hash, d.keccak_code_hash);
}

#[test]
fn engine_counts_empty_by_balance_nonce_and_code_hash() {
    let info = |balance: u64, nonce: u64, keccak: H256| AccountChange {
        info: AccountInfo {
            balance: w(balance),
            nonce,
            code_hash: h(EMPTY),
            keccak_code_hash: keccak,
            code: None,
        },
        storage: vec![],
    };
    let zero = H256 { h0: 0, h1: 0, h2: 0, h3: 0 };
    assert!(info(0, 0, keccak_empty()).is_empty());
    assert!(info(0, 0, zero).is_empty());
    assert!(!info(1, 0, keccak_empty()).is_empty());
    assert!(!info(0, 1, keccak_empty()).is_empty());
    assert!(!info(0, 0, h(1)).is_empty());
    let mut swapped = keccak_empty();
    swapped.h0 = keccak_empty().h3;
    swapped.h3 = keccak_empty().h0;
    assert!(!info(0, 0, swapped).is_empty());
    let high = AccountChange {
        info: AccountInfo {
            balance: Word { l0: 0, l1: 0, l2: 0, l3: 1 },
            nonce: 0,
            code_hash: h(EMPTY),
            keccak_code_hash: keccak_empty(),
            code: None,
        },
        storage: vec![],
    };
    assert!(!high.is_empty());
}

#[test]
fn commit_of_an_account_that_becomes_empty_is_written() {
    let mut db = database();
    let incoming = AccountChange {
        info: AccountInfo {
            balance: w(0),
            nonce: 0,
            code_hash: h(EMPTY),
            keccak_code_hash: keccak_empty(),
            code: None,
        },
        storage: vec![],
    };
    assert!(incoming.is_empty());
    assert!(matches!(db.begin_commit(&a(1), &incoming), CommitAction::Write { .. }));
    let after = db.commit_account(&a(1), &incoming, leaf(3, 100, 0x50, 4, 0x70), h(0)).unwrap();
    assert_eq!(after.nonce, 0);
    assert_eq!(after.balance, w(0));
    assert_eq!(after.poseidon_code_hash, h(EMPTY));
    assert_eq!(after.keccak_code_hash, keccak_empty());
    assert_eq!(after.code_size, 0);
    assert_eq!(after.storage_root, h(0x70));
}
