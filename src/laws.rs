//! Properties of the database that relate several operations.
use crate::mem_db::StoreModel;
use crate::primitives::{Address, Hash32, SlotKey, Word};
use crate::provider_db::{
    insert_all, DbModel, FetchRequest, FetchedBlock, Read, WriteSetModel, HISTORY_WINDOW,
};
use crate::state::AccountModel;
use crate::table::seq_add;
use vstd::prelude::*;

verus! {

/// Inserting pairs in turn leaves each key with the value of its last pair.
proof fn lemma_insert_all_last<K, V>(m: Map<K, V>, s: Seq<(K, V)>, i: int)
    requires
        0 <= i < s.len(),
        forall|j: int| i < j < s.len() ==> s[j].0 != s[i].0,
    ensures
        insert_all(m, s).contains_key(s[i].0),
        insert_all(m, s)[s[i].0] == s[i].1,
    decreases s.len(),
{
    if i < s.len() - 1 {
        let p = s.drop_last();
        assert(p[i] == s[i]);
        assert forall|j: int| i < j < p.len() implies p[j].0 != p[i].0 by {
            assert(p[j] == s[j]);
        }
        lemma_insert_all_last(m, p, i);
    }
}

/// Inserting pairs keeps every key already present and adds every key of the pairs.
proof fn lemma_insert_all_keys<K, V>(m: Map<K, V>, s: Seq<(K, V)>)
    ensures
        forall|k: K| m.contains_key(k) ==> insert_all(m, s).contains_key(k),
        forall|j: int| 0 <= j < s.len() ==> insert_all(m, s).contains_key(#[trigger] s[j].0),
    decreases s.len(),
{
    if s.len() > 0 {
        let p = s.drop_last();
        lemma_insert_all_keys(m, p);
        assert forall|j: int| 0 <= j < s.len() implies insert_all(m, s).contains_key(
            #[trigger] s[j].0,
        ) by {
            if j < s.len() - 1 {
                assert(p[j] == s[j]);
            }
        }
    }
}

/// A value that a read resolved is resolved again, unchanged, by a later read
/// of the same key, whatever other reads came between: reading only ever moves
/// a staged value into the initial snapshot, where it keeps its value.
pub proof fn read_stability(m: DbModel, a: Address, key: SlotKey, n: u64, b: Address, key2: SlotKey, n2: u64)
    ensures
        m.account_read(a) is Resolved ==> {
            &&& m.after_account_read(b).account_read(a) == m.account_read(a)
            &&& m.after_storage_read(key2).account_read(a) == m.account_read(a)
            &&& m.after_block_hash_read(n2).account_read(a) == m.account_read(a)
        },
        m.storage_read(key) is Resolved ==> {
            &&& m.after_account_read(b).storage_read(key) == m.storage_read(key)
            &&& m.after_storage_read(key2).storage_read(key) == m.storage_read(key)
            &&& m.after_block_hash_read(n2).storage_read(key) == m.storage_read(key)
        },
        m.block_hash_read(n) is Resolved ==> {
            &&& m.after_account_read(b).block_hash_read(n) == m.block_hash_read(n)
            &&& m.after_storage_read(key2).block_hash_read(n) == m.block_hash_read(n)
            &&& m.after_block_hash_read(n2).block_hash_read(n) == m.block_hash_read(n)
        },
{
    let m1 = m.after_account_read(key2.address);
    assert(m.storage_read(key) is Resolved ==> m1.storage_read(key) == m.storage_read(key));
    assert(m.block_hash_read(n) is Resolved ==> m1.block_hash_read(n) == m.block_hash_read(n));
    assert(m.account_read(a) is Resolved ==> m1.account_read(a) == m.account_read(a));
}

/// In strict mode, once a missing value has been fetched and handed back, every
/// later read of its key resolves to it.
pub proof fn fetched_values_are_stable(
    m: DbModel,
    a: Address,
    info: AccountModel,
    key: SlotKey,
    value: Word,
    n: u64,
    hash: Hash32,
)
    requires
        !m.optimistic,
    ensures
        m.account_read(a) is Fetch ==> m.after_account_read(a).after_store_fetched_account(
            a,
            info,
        ).account_read(a) == Read::Resolved(info),
        m.storage_read(key) == Read::<Word>::Fetch(
            FetchRequest::Slot(key),
        ) ==> m.after_storage_read(key).after_store_fetched_slot(key, value).storage_read(key)
            == Read::Resolved(value),
        m.block_hash_read(n) is Fetch ==> m.after_block_hash_read(n).after_store_fetched_block_hash(
            n,
            hash,
        ).block_hash_read(n) == Read::Resolved(hash),
{
}

/// After a commit writes an account, a read of it returns the committed value,
/// never what the initial snapshot or the staging store holds; reads leave the
/// delta store as it is, so this holds for the rest of the run.
pub proof fn write_shadowing(m: DbModel, w: WriteSetModel, i: int, j: int, b: Address, key2: SlotKey, n2: u64)
    requires
        0 <= i < w.accounts.len(),
        forall|k: int| i < k < w.accounts.len() ==> w.accounts[k].0 != w.accounts[i].0,
        0 <= j < w.storage.len(),
        forall|k: int| j < k < w.storage.len() ==> w.storage[k].0 != w.storage[j].0,
    ensures
        m.after_commit(w).account_read(w.accounts[i].0) == Read::Resolved(w.accounts[i].1),
        m.after_commit(w).storage_read(w.storage[j].0) == Read::Resolved(w.storage[j].1),
        m.after_account_read(b).current == m.current,
        m.after_storage_read(key2).current == m.current,
        m.after_block_hash_read(n2).current == m.current,
{
    lemma_insert_all_last(m.current.accounts, w.accounts, i);
    lemma_insert_all_last(m.current.storage, w.storage, j);
}

/// Every key for which a placeholder is handed out is pending afterwards, and
/// the run is then no longer valid; reads never drop a pending key.
pub proof fn placeholders_are_pending(m: DbModel, a: Address, key: SlotKey, n: u64)
    ensures
        m.account_read(a) is Placeholder ==> m.after_account_read(a).pending_accounts.contains(a)
            && !m.after_account_read(a).valid_run(),
        m.storage_read(key) is Placeholder ==> m.after_storage_read(key).pending_slots.contains(key)
            && !m.after_storage_read(key).valid_run(),
        m.block_hash_read(n) is Placeholder ==> m.after_block_hash_read(n).pending_blocks.contains(n)
            && !m.after_block_hash_read(n).valid_run(),
        forall|x: Address|
            m.pending_accounts.contains(x) ==> {
                &&& m.after_account_read(a).pending_accounts.contains(x)
                &&& m.after_storage_read(key).pending_accounts.contains(x)
                &&& m.after_block_hash_read(n).pending_accounts.contains(x)
            },
        forall|x: SlotKey|
            m.pending_slots.contains(x) ==> {
                &&& m.after_account_read(a).pending_slots.contains(x)
                &&& m.after_storage_read(key).pending_slots.contains(x)
                &&& m.after_block_hash_read(n).pending_slots.contains(x)
            },
        forall|x: u64|
            m.pending_blocks.contains(x) ==> {
                &&& m.after_account_read(a).pending_blocks.contains(x)
                &&& m.after_storage_read(key).pending_blocks.contains(x)
                &&& m.after_block_hash_read(n).pending_blocks.contains(x)
            },
        m.valid_run() <==> (m.pending_accounts.len() == 0 && m.pending_slots.len() == 0
            && m.pending_blocks.len() == 0),
{
    lemma_seq_add_keeps(m.pending_accounts, a);
    lemma_seq_add_keeps(m.pending_accounts, key.address);
    let m1 = m.after_account_read(key.address);
    lemma_seq_add_keeps(m1.pending_slots, key);
    lemma_seq_add_keeps(m.pending_slots, key);
    lemma_seq_add_keeps(m.pending_blocks, n);
}

proof fn lemma_seq_add_keeps<K>(s: Seq<K>, k: K)
    ensures
        seq_add(s, k).contains(k),
        forall|x: K| s.contains(x) ==> seq_add(s, k).contains(x),
{
    if !s.contains(k) {
        assert(s.push(k)[s.len() as int] == k);
        assert forall|x: K| s.contains(x) implies s.push(k).contains(x) by {
            let i = choose|i: int| 0 <= i < s.len() && s[i] == x;
            assert(s.push(k)[i] == x);
        }
    }
}

/// A refill run right after another, with no read in between, changes nothing:
/// the first one left no pending key and a valid run.
pub proof fn refill_idempotent(
    m: DbModel,
    a1: Seq<AccountModel>,
    s1: Seq<Word>,
    b1: Seq<FetchedBlock>,
    a2: Seq<AccountModel>,
    s2: Seq<Word>,
    b2: Seq<FetchedBlock>,
)
    ensures
        m.after_refill(a1, s1, b1).valid_run(),
        m.after_refill(a1, s1, b1).after_refill(a2, s2, b2) == m.after_refill(a1, s1, b1),
{
}

/// A refill after a pass that handed out a placeholder leaves the delta store empty.
pub proof fn invalid_run_rollback(
    m: DbModel,
    a: Seq<AccountModel>,
    s: Seq<Word>,
    b: Seq<FetchedBlock>,
)
    requires
        !m.valid_run(),
    ensures
        m.after_refill(a, s, b).current == StoreModel::empty(),
{
}

/// The storage keys sent for Merkle proofs cover every slot read or written
/// during a valid run: a slot resolved while the run is valid, a slot fetched
/// in strict mode, and a slot written by a commit all end up among them, and
/// no read, fetch or commit ever removes one.
pub proof fn proof_keys_cover_reads_and_writes(
    m: DbModel,
    key: SlotKey,
    value: Word,
    w: WriteSetModel,
    a: Address,
    n: u64,
)
    ensures
        m.valid_run() && m.storage_read(key) is Resolved ==> m.after_storage_read(
            key,
        ).proof_keys().contains(key),
        m.after_store_fetched_slot(key, value).proof_keys().contains(key),
        forall|j: int|
            0 <= j < w.storage.len() ==> m.after_commit(w).proof_keys().contains(
                #[trigger] w.storage[j].0,
            ),
        m.proof_keys().subset_of(m.after_storage_read(key).proof_keys()),
        m.proof_keys().subset_of(m.after_account_read(a).proof_keys()),
        m.proof_keys().subset_of(m.after_block_hash_read(n).proof_keys()),
        m.proof_keys().subset_of(m.after_store_fetched_slot(key, value).proof_keys()),
        m.proof_keys().subset_of(m.after_commit(w).proof_keys()),
{
    lemma_insert_all_keys(m.current.storage, w.storage);
}

/// The ancestor chain starts at the earliest cached block hash whenever that
/// lies within the history window, and is never longer than the window.
pub proof fn ancestor_bound(m: DbModel, e: u64)
    requires
        m.is_earliest(e),
        e + HISTORY_WINDOW >= m.block_number,
    ensures
        m.first_ancestor() == e,
        m.ancestor_count() <= HISTORY_WINDOW,
{
    let c = m.earliest();
    assert(m.is_earliest(c));
    if !(m.initial.block_hashes.dom() =~= Set::empty()) {
        assert(c <= e && e <= c);
    }
}

} // verus!
