use raiko_host::primitives::{Address, Hash32, SlotKey, Word};
use raiko_host::provider_db::{
    history_numbers, DbError, FetchRequest, FetchedBlock, ProviderDb, Read, WriteSet,
};
use raiko_host::state::{placeholder_account, AccountInfo, Header};

fn hash(n: u64) -> Hash32 {
    Hash32 { high: 7, low: n as u128 }
}

fn header(n: u64) -> Header {
    Header {
        parent_hash: hash(n.wrapping_sub(1)),
        ommers_hash: Hash32 { high: 0, low: 0 },
        beneficiary: Address { high: 0, low: 0 },
        state_root: hash(1000 + n),
        transactions_root: hash(2000 + n),
        receipts_root: hash(3000 + n),
        withdrawals_root: None,
        logs_bloom: vec![0u8; 256],
        difficulty: Word { high: 0, low: 0 },
        number: n,
        gas_limit: 30_000_000,
        gas_used: 21_000,
        timestamp: 1_700_000_000 + n,
        mix_hash: Hash32 { high: 0, low: 0 },
        nonce: 0,
        base_fee_per_gas: Some(7),
        blob_gas_used: None,
        excess_blob_gas: None,
        parent_beacon_block_root: None,
        extra_data: vec![],
    }
}

fn block(n: u64) -> FetchedBlock {
    FetchedBlock { number: Some(n), hash: Some(hash(n)), header: header(n) }
}

fn seeded(lo: u64, hi: u64) -> ProviderDb {
    let blocks: Vec<FetchedBlock> = (lo..=hi).map(block).collect();
    match ProviderDb::new(hi, blocks) {
        Ok(db) => db,
        Err(e) => panic!("seeding failed: {:?}", e),
    }
}

fn addr(n: u128) -> Address {
    Address { high: 0, low: n }
}

fn account(balance: u128, nonce: u64) -> AccountInfo {
    AccountInfo {
        balance: Word { high: 0, low: balance },
        nonce,
        code_hash: hash(99),
        code: vec![0x60, 0x00],
    }
}

fn resolved_hash(r: Result<Read<Hash32>, DbError>) -> Hash32 {
    match r {
        Ok(Read::Resolved(h)) => h,
        other => panic!("expected a resolved hash, got {:?}", other),
    }
}

#[test]
fn seeded_block_hash_hits_cache_and_strict_miss_fetches_once() {
    let mut db = seeded(100, 105);
    assert_eq!(resolved_hash(db.block_hash(Word::from_u64(103))), hash(103));

    match db.block_hash(Word::from_u64(50)) {
        Ok(Read::Fetch(FetchRequest::Block(50))) => {}
        other => panic!("expected one fetch of block 50, got {:?}", other),
    }
    db.store_fetched_block_hash(50, hash(50));
    assert_eq!(resolved_hash(db.block_hash(Word::from_u64(50))), hash(50));
    assert_eq!(resolved_hash(db.block_hash(Word::from_u64(50))), hash(50));
}

#[test]
fn optimistic_storage_read_of_unknown_address_is_pending() {
    let mut db = seeded(100, 105);
    db.optimistic = true;
    let a = addr(0xabc);
    match db.storage(a, Word::from_u64(1)) {
        Read::Placeholder(v) => assert_eq!(v, Word::zero()),
        other => panic!("expected a placeholder, got {:?}", other),
    }
    assert_eq!(db.pending_accounts.to_vec(), vec![a]);
    assert_eq!(
        db.pending_slots.to_vec(),
        vec![SlotKey { address: a, index: Word::from_u64(1) }]
    );
    assert!(db.pending_block_hashes.to_vec().is_empty());
    assert!(!db.is_valid_run());
}

#[test]
fn refilled_values_are_promoted_on_a_valid_rerun() {
    let mut db = seeded(100, 105);
    db.optimistic = true;
    let a = addr(0xabc);
    let key = SlotKey { address: a, index: Word::from_u64(1) };
    let _ = db.storage(a, Word::from_u64(1));
    let valid = db.apply_refill(vec![account(5, 3)], vec![Word::from_u64(42)], vec![]);
    assert!(!valid);
    assert!(db.is_valid_run());

    match db.storage(a, Word::from_u64(1)) {
        Read::Resolved(v) => assert_eq!(v, Word::from_u64(42)),
        other => panic!("expected the staged value, got {:?}", other),
    }
    match db.basic(a) {
        Read::Resolved(info) => assert_eq!(info.nonce, 3),
        other => panic!("expected the staged account, got {:?}", other),
    }
    assert!(db.is_valid_run());
    assert_eq!(db.initial_db.storage.get(&key), Some(Word::from_u64(42)));
    let promoted = db.initial_db.accounts.get(&a).expect("account promoted");
    assert_eq!(promoted.balance, Word { high: 0, low: 5 });
}

#[test]
fn optimistic_account_placeholder_has_empty_code() {
    let mut db = seeded(100, 105);
    db.optimistic = true;
    match db.basic(addr(1)) {
        Read::Placeholder(info) => {
            assert_eq!(info.balance, Word::zero());
            assert_eq!(info.nonce, u64::MAX);
            assert!(info.code.is_empty());
        }
        other => panic!("expected a placeholder, got {:?}", other),
    }
    assert!(!db.is_valid_run());
}

#[test]
fn placeholder_code_hash_is_keccak_of_empty_input() {
    let info = placeholder_account();
    // keccak256("") = c5d2460186f7233c927e7db2dcc703c0e500b653ca82273b7bfad8045d85a470
    assert_eq!(
        info.code_hash,
        Hash32 {
            high: 0xc5d2460186f7233c927e7db2dcc703c0,
            low: 0xe500b653ca82273b7bfad8045d85a470,
        }
    );
}

#[test]
fn optimistic_block_hash_miss_is_pending() {
    let mut db = seeded(100, 105);
    db.optimistic = true;
    match db.block_hash(Word::from_u64(7)) {
        Ok(Read::Placeholder(h)) => assert_eq!(h, Hash32::zero()),
        other => panic!("expected a placeholder, got {:?}", other),
    }
    assert_eq!(db.pending_block_hashes.to_vec(), vec![7]);
    let valid = db.apply_refill(vec![], vec![], vec![block(7)]);
    assert!(!valid);
    assert_eq!(resolved_hash(db.block_hash(Word::from_u64(7))), hash(7));
    assert!(db.initial_headers.contains(&7));
}

#[test]
fn strict_reads_are_stable() {
    let mut db = seeded(100, 105);
    let a = addr(9);
    match db.basic(a) {
        Read::Fetch(FetchRequest::Account(x)) => assert_eq!(x, a),
        other => panic!("expected a fetch, got {:?}", other),
    }
    let got = db.store_fetched_account(a, account(10, 1));
    assert_eq!(got.nonce, 1);
    for _ in 0..2 {
        match db.basic(a) {
            Read::Resolved(info) => {
                assert_eq!(info.nonce, 1);
                assert_eq!(info.balance, Word { high: 0, low: 10 });
            }
            other => panic!("expected a resolved account, got {:?}", other),
        }
    }
    match db.storage(a, Word::from_u64(4)) {
        Read::Fetch(FetchRequest::Slot(k)) => {
            assert_eq!(k, SlotKey { address: a, index: Word::from_u64(4) })
        }
        other => panic!("expected a slot fetch, got {:?}", other),
    }
    db.store_fetched_slot(a, Word::from_u64(4), Word::from_u64(77));
    for _ in 0..2 {
        match db.storage(a, Word::from_u64(4)) {
            Read::Resolved(v) => assert_eq!(v, Word::from_u64(77)),
            other => panic!("expected a resolved slot, got {:?}", other),
        }
    }
}

#[test]
fn strict_storage_read_of_unknown_account_fetches_the_account_first() {
    let mut db = seeded(100, 105);
    match db.storage(addr(3), Word::from_u64(1)) {
        Read::Fetch(FetchRequest::Account(x)) => assert_eq!(x, addr(3)),
        other => panic!("expected an account fetch, got {:?}", other),
    }
}

#[test]
fn commit_shadows_snapshot_and_staging() {
    let mut db = seeded(100, 105);
    let a = addr(5);
    db.store_fetched_account(a, account(1, 1));
    db.store_fetched_slot(a, Word::from_u64(2), Word::from_u64(20));
    db.commit(WriteSet {
        accounts: vec![(a, account(2, 2)), (a, account(3, 3))],
        storage: vec![(SlotKey { address: a, index: Word::from_u64(2) }, Word::from_u64(21))],
    });
    match db.basic(a) {
        Read::Resolved(info) => assert_eq!(info.nonce, 3),
        other => panic!("expected the committed account, got {:?}", other),
    }
    match db.storage(a, Word::from_u64(2)) {
        Read::Resolved(v) => assert_eq!(v, Word::from_u64(21)),
        other => panic!("expected the committed value, got {:?}", other),
    }
    // the initial snapshot keeps the pre-state
    assert_eq!(
        db.initial_db.storage.get(&SlotKey { address: a, index: Word::from_u64(2) }),
        Some(Word::from_u64(20))
    );
}

#[test]
fn refill_after_invalid_pass_wipes_delta_store() {
    let mut db = seeded(100, 105);
    db.optimistic = true;
    let a = addr(5);
    db.commit(WriteSet { accounts: vec![(a, account(2, 2))], storage: vec![] });
    let _ = db.basic(addr(6));
    assert!(!db.apply_refill(vec![account(0, 0)], vec![], vec![]));
    assert!(db.current_db.accounts.keys().is_empty());
}

#[test]
fn second_refill_changes_nothing() {
    let mut db = seeded(100, 105);
    db.optimistic = true;
    db.commit(WriteSet { accounts: vec![(addr(5), account(2, 2))], storage: vec![] });
    let _ = db.basic(addr(6));
    assert!(!db.apply_refill(vec![account(0, 0)], vec![], vec![]));
    db.commit(WriteSet { accounts: vec![(addr(5), account(2, 2))], storage: vec![] });
    assert!(db.apply_refill(vec![account(9, 9)], vec![Word::from_u64(1)], vec![block(3)]));
    assert!(db.staging_db.accounts.get(&addr(6)).map(|i| i.nonce) == Some(0));
    assert_eq!(db.staging_db.accounts.keys(), vec![addr(6)]);
    assert!(db.staging_db.storage.keys().is_empty());
    assert!(db.staging_db.block_hashes.keys().is_empty());
    assert_eq!(db.current_db.accounts.keys(), vec![addr(5)]);
}

#[test]
fn valid_refill_keeps_delta_store() {
    let mut db = seeded(100, 105);
    db.commit(WriteSet { accounts: vec![(addr(5), account(2, 2))], storage: vec![] });
    assert!(db.apply_refill(vec![], vec![], vec![]));
    assert_eq!(db.current_db.accounts.keys(), vec![addr(5)]);
}

#[test]
fn proof_plan_is_union_of_snapshot_and_delta_keys() {
    let mut db = seeded(100, 105);
    let a = addr(5);
    let k = |i: u64| SlotKey { address: a, index: Word::from_u64(i) };
    db.store_fetched_slot(a, Word::from_u64(1), Word::from_u64(10));
    db.store_fetched_slot(a, Word::from_u64(2), Word::from_u64(20));
    db.commit(WriteSet {
        accounts: vec![],
        storage: vec![(k(2), Word::from_u64(21)), (k(3), Word::from_u64(30))],
    });
    let plan = db.proof_plan().expect("counts fit");
    assert_eq!(plan.initial_keys, vec![k(1), k(2)]);
    assert_eq!(plan.latest_keys, vec![k(1), k(2), k(3)]);
    assert_eq!(plan.num_initial_values, 2);
    assert_eq!(plan.num_storage_proofs, 5);
}

#[test]
fn proof_plan_of_empty_database() {
    let db = seeded(100, 105);
    let plan = db.proof_plan().expect("counts fit");
    assert!(plan.initial_keys.is_empty());
    assert!(plan.latest_keys.is_empty());
    assert_eq!(plan.num_storage_proofs, 0);
}

#[test]
fn ancestors_run_from_earliest_cached_hash() {
    let mut db = seeded(100, 105);
    assert_eq!(db.earliest_block(), 100);
    assert_eq!(db.first_ancestor(), 100);
    assert!(db.missing_ancestors().is_empty());
    let chain = db.ancestor_headers().expect("all cached");
    let numbers: Vec<u64> = chain.iter().map(|h| h.number).collect();
    assert_eq!(numbers, vec![100, 101, 102, 103, 104]);

    db.store_fetched_block_hash(97, hash(97));
    assert_eq!(db.missing_ancestors(), vec![97, 98, 99]);
    assert!(db.ancestor_headers().is_none());
    for n in [97, 98, 99] {
        db.cache_header(n, header(n));
    }
    let chain = db.ancestor_headers().expect("all cached");
    assert_eq!(chain.len(), 8);
    assert_eq!(chain[0].number, 97);
}

#[test]
fn ancestors_never_exceed_the_history_window() {
    let mut db = seeded(1000, 1000);
    db.store_fetched_block_hash(10, hash(10));
    assert_eq!(db.earliest_block(), 10);
    assert_eq!(db.first_ancestor(), 1000 - 256);
    assert_eq!(db.missing_ancestors().len(), 256);
}

#[test]
fn empty_database_has_no_ancestors() {
    let db = ProviderDb::new(42, vec![]).expect("nothing to seed");
    assert_eq!(db.earliest_block(), 42);
    assert_eq!(db.ancestor_headers().map(|v| v.len()), Some(0));
}

#[test]
fn history_covers_the_block_and_255_before_it() {
    let r = history_numbers(1000);
    assert_eq!(r.len(), 256);
    assert_eq!(r[0], 745);
    assert_eq!(r[255], 1000);
    assert_eq!(history_numbers(3), vec![0, 1, 2, 3]);
    assert_eq!(history_numbers(0), vec![0]);
}

#[test]
fn seeding_rejects_blocks_without_number_or_hash() {
    let mut no_number = block(3);
    no_number.number = None;
    let mut no_hash = block(4);
    no_hash.hash = None;
    assert_eq!(
        ProviderDb::new(5, vec![block(2), no_number, no_hash.clone()]).err(),
        Some(DbError::MissingBlockNumber)
    );
    assert_eq!(
        ProviderDb::new(5, vec![block(2), no_hash]).err(),
        Some(DbError::MissingBlockHash)
    );
}

#[test]
fn block_hash_of_a_number_beyond_64_bits_is_a_conversion_error() {
    let mut db = seeded(100, 105);
    let r = db.block_hash(Word { high: 1, low: 0 });
    assert!(matches!(r, Err(DbError::Conversion)));
    let r = db.block_hash(Word { high: 0, low: u64::MAX as u128 + 1 });
    assert!(matches!(r, Err(DbError::Conversion)));
}
