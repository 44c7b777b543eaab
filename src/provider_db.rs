//! The tiered state database: an initial snapshot (pre-state), a delta store
//! (writes made during execution) and a staging store (filled by batched
//! refills), probed in that order behind one read interface.
//!
//! Reads never wait on the remote data source. In optimistic mode a miss is
//! recorded as pending and a placeholder is handed out; in strict mode a miss
//! is reported as a fetch request, and the caller hands the fetched value back
//! through one of the `store_fetched_*` methods.
//!
//! A value met in the staging store while the run is still valid is promoted
//! into the initial snapshot. Such promotions are kept when the run later turns
//! out invalid: they hold real data fetched from the source, not placeholders.
use crate::mem_db::{MemDb, StoreModel};
use crate::primitives::{Address, Hash32, SlotKey, Word};
use crate::state::{
    placeholder_account, placeholder_account_spec, AccountInfo, AccountModel, Header, HeaderModel,
};
use crate::table::{seq_add, KeyList, Table, TableValue};
use vstd::prelude::*;

verus! {

/// The number of preceding blocks whose hashes the execution engine may ask for.
pub const HISTORY_WINDOW: u64 = 256;

/// A key whose value must be fetched from the remote data source.
#[derive(Clone, Copy, Debug, PartialEq, Eq, Structural)]
pub enum FetchRequest {
    Account(Address),
    Slot(SlotKey),
    Block(u64),
}

/// The outcome of a read.
#[derive(Clone, Debug)]
pub enum Read<T> {
    /// The value, found in one of the tiers.
    Resolved(T),
    /// A stand-in value; the key was recorded as pending (optimistic mode).
    Placeholder(T),
    /// Nothing is known yet; the key must be fetched (strict mode).
    Fetch(FetchRequest),
}

impl<T: View> View for Read<T> {
    type V = Read<T::V>;

    open spec fn view(&self) -> Read<T::V> {
        match self {
            Read::Resolved(v) => Read::Resolved(v@),
            Read::Placeholder(v) => Read::Placeholder(v@),
            Read::Fetch(f) => Read::Fetch(*f),
        }
    }
}

#[derive(Clone, Copy, Debug, PartialEq, Eq, Structural)]
pub enum DbError {
    /// A block number does not fit in 64 bits.
    Conversion,
    /// A block from the data source carries no number.
    MissingBlockNumber,
    /// A block from the data source carries no hash.
    MissingBlockHash,
    /// A count does not fit in a machine word.
    Overflow,
}

/// A block as the data source returns it.
#[derive(Clone, Debug)]
pub struct FetchedBlock {
    pub number: Option<u64>,
    pub hash: Option<Hash32>,
    pub header: Header,
}

/// A batch of writes produced by execution.
#[derive(Clone, Debug)]
pub struct WriteSet {
    pub accounts: Vec<(Address, AccountInfo)>,
    pub storage: Vec<(SlotKey, Word)>,
}

pub struct WriteSetModel {
    pub accounts: Seq<(Address, AccountModel)>,
    pub storage: Seq<(SlotKey, Word)>,
}

impl View for WriteSet {
    type V = WriteSetModel;

    open spec fn view(&self) -> WriteSetModel {
        WriteSetModel {
            accounts: self.accounts@.map_values(|p: (Address, AccountInfo)| (p.0, p.1@)),
            storage: self.storage@,
        }
    }
}

/// `m` with each pair of `s` inserted in turn; a later pair wins over an earlier one.
pub open spec fn insert_all<K, V>(m: Map<K, V>, s: Seq<(K, V)>) -> Map<K, V>
    decreases s.len(),
{
    if s.len() == 0 {
        m
    } else {
        insert_all(m, s.drop_last()).insert(s.last().0, s.last().1)
    }
}

/// `m` with the first `n` keys of `ks` mapped to the values at the same positions of `vs`.
pub open spec fn zip_into<K, V>(m: Map<K, V>, ks: Seq<K>, vs: Seq<V>, n: int) -> Map<K, V>
    decreases n,
{
    if n <= 0 {
        m
    } else {
        zip_into(m, ks, vs, n - 1).insert(ks[n - 1], vs[n - 1])
    }
}

pub open spec fn min_len(a: int, b: int) -> int {
    if a < b {
        a
    } else {
        b
    }
}

/// The hashes of fetched blocks, which must all carry one.
pub open spec fn hashes_of(blocks: Seq<FetchedBlock>) -> Seq<Hash32> {
    blocks.map_values(|b: FetchedBlock| b.hash.unwrap())
}

pub open spec fn headers_of(blocks: Seq<FetchedBlock>) -> Seq<HeaderModel> {
    blocks.map_values(|b: FetchedBlock| b.header@)
}

/// The error, if any, met when seeding from `blocks` in order.
pub open spec fn seed_error(blocks: Seq<FetchedBlock>) -> Option<DbError>
    decreases blocks.len(),
{
    if blocks.len() == 0 {
        None
    } else if seed_error(blocks.drop_last()) is Some {
        seed_error(blocks.drop_last())
    } else if blocks.last().number is None {
        Some(DbError::MissingBlockNumber)
    } else if blocks.last().hash is None {
        Some(DbError::MissingBlockHash)
    } else {
        None
    }
}

pub open spec fn seeded_hashes(blocks: Seq<FetchedBlock>) -> Map<u64, Hash32>
    decreases blocks.len(),
{
    if blocks.len() == 0 {
        Map::empty()
    } else {
        seeded_hashes(blocks.drop_last()).insert(
            blocks.last().number.unwrap(),
            blocks.last().hash.unwrap(),
        )
    }
}

pub open spec fn seeded_headers(blocks: Seq<FetchedBlock>) -> Map<u64, HeaderModel>
    decreases blocks.len(),
{
    if blocks.len() == 0 {
        Map::empty()
    } else {
        seeded_headers(blocks.drop_last()).insert(blocks.last().number.unwrap(), blocks.last().header@)
    }
}

/// The first block whose hash seeds a new database for `block_number`: the
/// seeding history is the block itself and up to 255 blocks before it.
pub open spec fn history_start(block_number: u64) -> u64 {
    if block_number < HISTORY_WINDOW - 1 {
        0
    } else {
        (block_number - (HISTORY_WINDOW - 1)) as u64
    }
}

/// The numbers of `[lo, hi)`, ascending.
pub open spec fn range_seq(lo: int, hi: int) -> Seq<u64> {
    Seq::new(if lo < hi { (hi - lo) as nat } else { 0 }, |i: int| (lo + i) as u64)
}

/// The storage keys that Merkle proofs are requested for, and the counts used
/// to page through the two proof requests.
pub struct ProofPlan {
    /// The keys of the initial snapshot (pre-state proofs).
    pub initial_keys: Vec<SlotKey>,
    /// The keys of the initial snapshot and of the delta store (post-state proofs).
    pub latest_keys: Vec<SlotKey>,
    pub num_initial_values: usize,
    pub num_storage_proofs: usize,
}

/// Once seeding fails on a prefix, it fails the same way on the whole sequence.
proof fn lemma_seed_error_extends(blocks: Seq<FetchedBlock>, n: int)
    requires
        0 <= n <= blocks.len(),
        seed_error(blocks.subrange(0, n)) is Some,
    ensures
        seed_error(blocks) == seed_error(blocks.subrange(0, n)),
    decreases blocks.len() - n,
{
    if n < blocks.len() {
        let next = blocks.subrange(0, n + 1);
        assert(next.drop_last() =~= blocks.subrange(0, n));
        lemma_seed_error_extends(blocks, n + 1);
    } else {
        assert(blocks.subrange(0, n) =~= blocks);
    }
}

/// The numbers of the blocks whose hashes seed a new database for
/// `block_number`, ascending: the block itself and up to 255 before it.
pub fn history_numbers(block_number: u64) -> (r: Vec<u64>)
    ensures
        r@ == range_seq(history_start(block_number) as int, block_number + 1),
{
    let start: u64 = block_number.saturating_sub(HISTORY_WINDOW - 1);
    let mut r: Vec<u64> = Vec::new();
    let mut n: u64 = start;
    loop
        invariant
            start == history_start(block_number),
            start <= n <= block_number,
            r@ == range_seq(start as int, n as int),
        decreases block_number - n,
    {
        r.push(n);
        assert(r@ =~= range_seq(start as int, n + 1));
        if n == block_number {
            return r;
        }
        n = n + 1;
    }
}

/// Everything the database holds.
pub struct DbModel {
    pub block_number: u64,
    pub optimistic: bool,
    pub initial: StoreModel,
    pub current: StoreModel,
    pub staging: StoreModel,
    pub headers: Map<u64, HeaderModel>,
    pub pending_accounts: Seq<Address>,
    pub pending_slots: Seq<SlotKey>,
    pub pending_blocks: Seq<u64>,
}

pub struct ProviderDb {
    pub block_number: u64,
    pub initial_db: MemDb,
    pub initial_headers: Table<u64, Header>,
    pub current_db: MemDb,
    pub optimistic: bool,
    pub staging_db: MemDb,
    pub pending_accounts: KeyList<Address>,
    pub pending_slots: KeyList<SlotKey>,
    pub pending_block_hashes: KeyList<u64>,
}

impl View for ProviderDb {
    type V = DbModel;

    open spec fn view(&self) -> DbModel {
        DbModel {
            block_number: self.block_number,
            optimistic: self.optimistic,
            initial: self.initial_db@,
            current: self.current_db@,
            staging: self.staging_db@,
            headers: self.initial_headers@,
            pending_accounts: self.pending_accounts@,
            pending_slots: self.pending_slots@,
            pending_blocks: self.pending_block_hashes@,
        }
    }
}

impl DbModel {
    /// No placeholder has been handed out since the last refill.
    pub open spec fn valid_run(self) -> bool {
        self.pending_accounts.len() == 0 && self.pending_slots.len() == 0
            && self.pending_blocks.len() == 0
    }

    pub open spec fn with_initial(self, initial: StoreModel) -> DbModel {
        DbModel { initial, ..self }
    }

    // ---- accounts ----

    pub open spec fn account_read(self, a: Address) -> Read<AccountModel> {
        if self.current.accounts.contains_key(a) {
            Read::Resolved(self.current.accounts[a])
        } else if self.initial.accounts.contains_key(a) {
            Read::Resolved(self.initial.accounts[a])
        } else if self.staging.accounts.contains_key(a) {
            Read::Resolved(self.staging.accounts[a])
        } else if self.optimistic {
            Read::Placeholder(placeholder_account_spec())
        } else {
            Read::Fetch(FetchRequest::Account(a))
        }
    }

    pub open spec fn after_account_read(self, a: Address) -> DbModel {
        if self.current.accounts.contains_key(a) || self.initial.accounts.contains_key(a) {
            self
        } else if self.staging.accounts.contains_key(a) {
            if self.valid_run() {
                self.with_initial(
                    StoreModel {
                        accounts: self.initial.accounts.insert(a, self.staging.accounts[a]),
                        ..self.initial
                    },
                )
            } else {
                self
            }
        } else if self.optimistic {
            DbModel { pending_accounts: seq_add(self.pending_accounts, a), ..self }
        } else {
            self
        }
    }

    pub open spec fn after_store_fetched_account(self, a: Address, info: AccountModel) -> DbModel {
        self.with_initial(
            StoreModel { accounts: self.initial.accounts.insert(a, info), ..self.initial },
        )
    }

    // ---- storage ----

    pub open spec fn storage_read(self, key: SlotKey) -> Read<Word> {
        if self.current.storage.contains_key(key) {
            Read::Resolved(self.current.storage[key])
        } else if self.initial.storage.contains_key(key) {
            Read::Resolved(self.initial.storage[key])
        } else if self.staging.storage.contains_key(key) {
            Read::Resolved(self.staging.storage[key])
        } else if self.optimistic {
            Read::Placeholder(Word::zero_spec())
        } else if self.account_read(key.address) is Fetch {
            Read::Fetch(FetchRequest::Account(key.address))
        } else {
            Read::Fetch(FetchRequest::Slot(key))
        }
    }

    pub open spec fn after_storage_read(self, key: SlotKey) -> DbModel {
        if self.current.storage.contains_key(key) || self.initial.storage.contains_key(key) {
            self
        } else if self.staging.storage.contains_key(key) {
            if self.valid_run() {
                self.with_initial(
                    StoreModel {
                        storage: self.initial.storage.insert(key, self.staging.storage[key]),
                        ..self.initial
                    },
                )
            } else {
                self
            }
        } else if self.optimistic {
            let m = self.after_account_read(key.address);
            DbModel { pending_slots: seq_add(m.pending_slots, key), ..m }
        } else {
            self.after_account_read(key.address)
        }
    }

    pub open spec fn after_store_fetched_slot(self, key: SlotKey, value: Word) -> DbModel {
        self.with_initial(
            StoreModel { storage: self.initial.storage.insert(key, value), ..self.initial },
        )
    }

    // ---- block hashes ----

    pub open spec fn block_hash_read(self, n: u64) -> Read<Hash32> {
        if self.initial.block_hashes.contains_key(n) {
            Read::Resolved(self.initial.block_hashes[n])
        } else if self.staging.block_hashes.contains_key(n) {
            Read::Resolved(self.staging.block_hashes[n])
        } else if self.optimistic {
            Read::Placeholder(Hash32::zero_spec())
        } else {
            Read::Fetch(FetchRequest::Block(n))
        }
    }

    pub open spec fn after_block_hash_read(self, n: u64) -> DbModel {
        if self.initial.block_hashes.contains_key(n) {
            self
        } else if self.staging.block_hashes.contains_key(n) {
            if self.valid_run() {
                self.with_initial(
                    StoreModel {
                        block_hashes: self.initial.block_hashes.insert(
                            n,
                            self.staging.block_hashes[n],
                        ),
                        ..self.initial
                    },
                )
            } else {
                self
            }
        } else if self.optimistic {
            DbModel { pending_blocks: seq_add(self.pending_blocks, n), ..self }
        } else {
            self
        }
    }

    pub open spec fn after_store_fetched_block_hash(self, n: u64, hash: Hash32) -> DbModel {
        self.with_initial(
            StoreModel { block_hashes: self.initial.block_hashes.insert(n, hash), ..self.initial },
        )
    }

    // ---- writes ----

    pub open spec fn after_commit(self, w: WriteSetModel) -> DbModel {
        DbModel {
            current: StoreModel {
                accounts: insert_all(self.current.accounts, w.accounts),
                storage: insert_all(self.current.storage, w.storage),
                ..self.current
            },
            ..self
        }
    }

    // ---- refill ----

    pub open spec fn after_refill(
        self,
        accounts: Seq<AccountModel>,
        slots: Seq<Word>,
        blocks: Seq<FetchedBlock>,
    ) -> DbModel {
        let na = min_len(self.pending_accounts.len() as int, accounts.len() as int);
        let ns = min_len(self.pending_slots.len() as int, slots.len() as int);
        let nb = min_len(self.pending_blocks.len() as int, blocks.len() as int);
        DbModel {
            staging: StoreModel {
                accounts: zip_into(self.staging.accounts, self.pending_accounts, accounts, na),
                storage: zip_into(self.staging.storage, self.pending_slots, slots, ns),
                block_hashes: zip_into(
                    self.staging.block_hashes,
                    self.pending_blocks,
                    hashes_of(blocks),
                    nb,
                ),
            },
            headers: zip_into(self.headers, self.pending_blocks, headers_of(blocks), nb),
            current: if self.valid_run() {
                self.current
            } else {
                StoreModel::empty()
            },
            pending_accounts: Seq::empty(),
            pending_slots: Seq::empty(),
            pending_blocks: Seq::empty(),
            ..self
        }
    }

    // ---- proofs and ancestors ----

    /// Every storage key that a proof is needed for: those of the initial
    /// snapshot and those of the delta store.
    pub open spec fn proof_keys(self) -> Set<SlotKey> {
        self.initial.storage.dom().union(self.current.storage.dom())
    }

    /// `e` is the smallest block number with a cached hash, or the database's
    /// block number when none is cached.
    pub open spec fn is_earliest(self, e: u64) -> bool {
        if self.initial.block_hashes.dom() =~= Set::empty() {
            e == self.block_number
        } else {
            self.initial.block_hashes.contains_key(e) && forall|k: u64|
                self.initial.block_hashes.contains_key(k) ==> e <= k
        }
    }

    pub open spec fn earliest(self) -> u64 {
        choose|e: u64| self.is_earliest(e)
    }

    /// The first ancestor to return, given the earliest cached number `e`:
    /// `e`, but never more than the history window below the block.
    pub open spec fn ancestor_start(self, e: u64) -> u64 {
        if self.block_number >= HISTORY_WINDOW && e < self.block_number - HISTORY_WINDOW {
            (self.block_number - HISTORY_WINDOW) as u64
        } else {
            e
        }
    }

    pub open spec fn first_ancestor(self) -> u64 {
        self.ancestor_start(self.earliest())
    }

    /// The number of ancestor headers returned.
    pub open spec fn ancestor_count(self) -> int {
        if self.first_ancestor() < self.block_number {
            self.block_number - self.first_ancestor()
        } else {
            0
        }
    }

    pub open spec fn ancestors_cached(self) -> bool {
        forall|n: u64|
            self.first_ancestor() <= n < self.block_number ==> #[trigger] self.headers.contains_key(n)
    }
}

proof fn lemma_earliest_unique(m: DbModel, e: u64)
    requires
        m.is_earliest(e),
    ensures
        m.earliest() == e,
{
    let c = m.earliest();
    assert(m.is_earliest(c));
    if !(m.initial.block_hashes.dom() =~= Set::empty()) {
        assert(c <= e && e <= c);
    }
}

impl ProviderDb {
    pub open spec fn wf(&self) -> bool {
        &&& self.initial_db.wf()
        &&& self.current_db.wf()
        &&& self.staging_db.wf()
        &&& self.initial_headers.wf()
        &&& self.pending_accounts.wf()
        &&& self.pending_slots.wf()
        &&& self.pending_block_hashes.wf()
    }

    /// A fresh database for block `block_number`, its initial snapshot seeded
    /// with the hashes and headers of `history` (see `history_numbers`). Fails on
    /// the first block that carries no number or no hash.
    pub fn new(block_number: u64, history: Vec<FetchedBlock>) -> (r: Result<ProviderDb, DbError>)
        ensures
            r is Err <==> seed_error(history@) is Some,
            r matches Err(e) ==> seed_error(history@) == Some(e),
            r matches Ok(db) ==> {
                &&& db.wf()
                &&& db@ == (DbModel {
                    block_number,
                    optimistic: false,
                    initial: StoreModel { block_hashes: seeded_hashes(history@), ..StoreModel::empty() },
                    current: StoreModel::empty(),
                    staging: StoreModel::empty(),
                    headers: seeded_headers(history@),
                    pending_accounts: Seq::empty(),
                    pending_slots: Seq::empty(),
                    pending_blocks: Seq::empty(),
                })
            },
    {
        let mut db = ProviderDb {
            block_number,
            initial_db: MemDb::new(),
            initial_headers: Table::new(),
            current_db: MemDb::new(),
            optimistic: false,
            staging_db: MemDb::new(),
            pending_accounts: KeyList::new(),
            pending_slots: KeyList::new(),
            pending_block_hashes: KeyList::new(),
        };
        let ghost m0 = db@;
        let mut i: usize = 0;
        while i < history.len()
            invariant
                db.wf(),
                i <= history@.len(),
                seed_error(history@.subrange(0, i as int)) is None,
                db@ == (DbModel {
                    initial: StoreModel {
                        block_hashes: seeded_hashes(history@.subrange(0, i as int)),
                        ..m0.initial
                    },
                    headers: seeded_headers(history@.subrange(0, i as int)),
                    ..m0
                }),
            decreases history@.len() - i,
        {
            let ghost pre = history@.subrange(0, i as int);
            let ghost next = history@.subrange(0, i + 1);
            assert(next.drop_last() =~= pre);
            let number = match history[i].number {
                Some(n) => n,
                None => {
                    proof {
                        lemma_seed_error_extends(history@, i as int + 1);
                    }
                    return Err(DbError::MissingBlockNumber);
                },
            };
            let hash = match history[i].hash {
                Some(h) => h,
                None => {
                    proof {
                        lemma_seed_error_extends(history@, i as int + 1);
                    }
                    return Err(DbError::MissingBlockHash);
                },
            };
            db.initial_db.block_hashes.insert(number, hash);
            db.initial_headers.insert(number, history[i].header.duplicate());
            i = i + 1;
        }
        assert(history@.subrange(0, i as int) =~= history@);
        Ok(db)
    }

    /// True iff no placeholder has been handed out since the last refill.
    pub fn is_valid_run(&self) -> (r: bool)
        ensures
            r == self@.valid_run(),
    {
        self.pending_accounts.is_empty() && self.pending_slots.is_empty()
            && self.pending_block_hashes.is_empty()
    }

    pub fn is_optimistic(&self) -> (r: bool)
        ensures
            r == self.optimistic,
    {
        self.optimistic
    }

    /// Reads an account: delta store, then initial snapshot, then staging store.
    pub fn basic(&mut self, a: Address) -> (r: Read<AccountInfo>)
        requires
            old(self).wf(),
        ensures
            final(self).wf(),
            r@ == old(self)@.account_read(a),
            final(self)@ == old(self)@.after_account_read(a),
    {
        if let Some(v) = self.current_db.accounts.get(&a) {
            return Read::Resolved(v);
        }
        if let Some(v) = self.initial_db.accounts.get(&a) {
            return Read::Resolved(v);
        }
        if let Some(v) = self.staging_db.accounts.get(&a) {
            if self.is_valid_run() {
                self.initial_db.accounts.insert(a, v.duplicate());
            }
            return Read::Resolved(v);
        }
        if self.optimistic {
            self.pending_accounts.add(a);
            return Read::Placeholder(placeholder_account());
        }
        Read::Fetch(FetchRequest::Account(a))
    }

    /// Caches an account fetched from the data source in the initial snapshot,
    /// and returns it.
    pub fn store_fetched_account(&mut self, a: Address, info: AccountInfo) -> (r: AccountInfo)
        requires
            old(self).wf(),
        ensures
            final(self).wf(),
            r@ == info@,
            final(self)@ == old(self)@.after_store_fetched_account(a, info@),
    {
        let r = info.duplicate();
        self.initial_db.accounts.insert(a, info);
        r
    }
    /// Reads a storage slot: delta store, then initial snapshot, then staging store.
    /// On a miss the owning account is read first, so that it is resolved, pending,
    /// or requested before the slot itself.
    pub fn storage(&mut self, a: Address, index: Word) -> (r: Read<Word>)
        requires
            old(self).wf(),
        ensures
            final(self).wf(),
            r@ == old(self)@.storage_read(SlotKey { address: a, index }),
            final(self)@ == old(self)@.after_storage_read(SlotKey { address: a, index }),
    {
        let key = SlotKey { address: a, index };
        if let Some(v) = self.current_db.storage.get(&key) {
            return Read::Resolved(v);
        }
        if let Some(v) = self.initial_db.storage.get(&key) {
            return Read::Resolved(v);
        }
        if let Some(v) = self.staging_db.storage.get(&key) {
            if self.is_valid_run() {
                self.initial_db.storage.insert(key, v);
            }
            return Read::Resolved(v);
        }
        if self.optimistic {
            let _ = self.basic(a);
            self.pending_slots.add(key);
            return Read::Placeholder(Word::zero());
        }
        match self.basic(a) {
            Read::Fetch(f) => Read::Fetch(f),
            _ => Read::Fetch(FetchRequest::Slot(key)),
        }
    }

    /// Caches a storage value fetched from the data source in the initial snapshot.
    pub fn store_fetched_slot(&mut self, a: Address, index: Word, value: Word)
        requires
            old(self).wf(),
        ensures
            final(self).wf(),
            final(self)@ == old(self)@.after_store_fetched_slot(SlotKey { address: a, index }, value),
    {
        self.initial_db.storage.insert(SlotKey { address: a, index }, value);
    }

    /// Reads the hash of block `number`: initial snapshot, then staging store.
    /// Fails when the number does not fit in 64 bits.
    pub fn block_hash(&mut self, number: Word) -> (r: Result<Read<Hash32>, DbError>)
        requires
            old(self).wf(),
        ensures
            final(self).wf(),
            number.as_u64_spec() is None ==> r == Err::<Read<Hash32>, DbError>(DbError::Conversion)
                && final(self)@ == old(self)@,
            number.as_u64_spec() matches Some(n) ==> r == Ok::<Read<Hash32>, DbError>(
                old(self)@.block_hash_read(n),
            ) && final(self)@ == old(self)@.after_block_hash_read(n),
    {
        let n = match number.to_u64() {
            Some(n) => n,
            None => return Err(DbError::Conversion),
        };
        if let Some(h) = self.initial_db.block_hashes.get(&n) {
            return Ok(Read::Resolved(h));
        }
        if let Some(h) = self.staging_db.block_hashes.get(&n) {
            if self.is_valid_run() {
                self.initial_db.block_hashes.insert(n, h);
            }
            return Ok(Read::Resolved(h));
        }
        if self.optimistic {
            self.pending_block_hashes.add(n);
            return Ok(Read::Placeholder(Hash32::zero()));
        }
        Ok(Read::Fetch(FetchRequest::Block(n)))
    }

    /// Caches a block hash fetched from the data source in the initial snapshot.
    pub fn store_fetched_block_hash(&mut self, n: u64, hash: Hash32)
        requires
            old(self).wf(),
        ensures
            final(self).wf(),
            final(self)@ == old(self)@.after_store_fetched_block_hash(n, hash),
    {
        self.initial_db.block_hashes.insert(n, hash);
    }

    /// Applies a batch of writes to the delta store; the other tiers are untouched.
    pub fn commit(&mut self, changes: WriteSet)
        requires
            old(self).wf(),
        ensures
            final(self).wf(),
            final(self)@ == old(self)@.after_commit(changes@),
    {
        let ghost m0 = self@;
        let ghost w = changes@;
        let WriteSet { accounts, storage } = changes;
        let mut i: usize = 0;
        while i < accounts.len()
            invariant
                self.wf(),
                i <= accounts@.len(),
                w.accounts == accounts@.map_values(|p: (Address, AccountInfo)| (p.0, p.1@)),
                self@ == (DbModel {
                    current: StoreModel {
                        accounts: insert_all(m0.current.accounts, w.accounts.subrange(0, i as int)),
                        ..m0.current
                    },
                    ..m0
                }),
            decreases accounts@.len() - i,
        {
            let a = accounts[i].0;
            let info = accounts[i].1.duplicate();
            self.current_db.accounts.insert(a, info);
            i = i + 1;
            assert(w.accounts.subrange(0, i as int).drop_last() =~= w.accounts.subrange(0, i - 1));
        }
        assert(w.accounts.subrange(0, i as int) =~= w.accounts);
        let ghost m1 = self@;
        let mut j: usize = 0;
        while j < storage.len()
            invariant
                self.wf(),
                j <= storage@.len(),
                w.storage == storage@,
                self@ == (DbModel {
                    current: StoreModel {
                        storage: insert_all(m1.current.storage, w.storage.subrange(0, j as int)),
                        ..m1.current
                    },
                    ..m1
                }),
            decreases storage@.len() - j,
        {
            let (key, value) = storage[j];
            self.current_db.storage.insert(key, value);
            j = j + 1;
            assert(w.storage.subrange(0, j as int).drop_last() =~= w.storage.subrange(0, j - 1));
        }
        assert(w.storage.subrange(0, j as int) =~= w.storage);
    }
    /// Ends a refill: stages the fetched values against the pending keys,
    /// position by position, clears the pending keys, and wipes the delta store
    /// if the pass that just ended handed out a placeholder. Returns whether that
    /// pass was valid.
    pub fn apply_refill(
        &mut self,
        accounts: Vec<AccountInfo>,
        slots: Vec<Word>,
        blocks: Vec<FetchedBlock>,
    ) -> (valid: bool)
        requires
            old(self).wf(),
            forall|i: int| 0 <= i < blocks@.len() ==> blocks@[i].hash is Some,
        ensures
            final(self).wf(),
            valid == old(self)@.valid_run(),
            final(self)@ == old(self)@.after_refill(
                accounts@.map_values(|a: AccountInfo| a@),
                slots@,
                blocks@,
            ),
    {
        let ghost m0 = self@;
        let valid = self.is_valid_run();

        let keys = self.pending_accounts.to_vec();
        let ghost av = accounts@.map_values(|a: AccountInfo| a@);
        let na: usize = if keys.len() < accounts.len() { keys.len() } else { accounts.len() };
        let mut i: usize = 0;
        while i < na
            invariant
                self.wf(),
                na == min_len(m0.pending_accounts.len() as int, av.len() as int),
                keys@ == m0.pending_accounts,
                av == accounts@.map_values(|a: AccountInfo| a@),
                na <= keys@.len(),
                na <= accounts@.len(),
                i <= na,
                self@ == (DbModel {
                    staging: StoreModel {
                        accounts: zip_into(m0.staging.accounts, keys@, av, i as int),
                        ..m0.staging
                    },
                    ..m0
                }),
            decreases na - i,
        {
            self.staging_db.accounts.insert(keys[i], accounts[i].duplicate());
            i = i + 1;
        }
        let ghost m1 = self@;

        let keys = self.pending_slots.to_vec();
        let ns: usize = if keys.len() < slots.len() { keys.len() } else { slots.len() };
        let mut i: usize = 0;
        while i < ns
            invariant
                self.wf(),
                ns == min_len(m0.pending_slots.len() as int, slots@.len() as int),
                keys@ == m0.pending_slots,
                ns <= keys@.len(),
                ns <= slots@.len(),
                i <= ns,
                self@ == (DbModel {
                    staging: StoreModel {
                        storage: zip_into(m1.staging.storage, keys@, slots@, i as int),
                        ..m1.staging
                    },
                    ..m1
                }),
            decreases ns - i,
        {
            self.staging_db.storage.insert(keys[i], slots[i]);
            i = i + 1;
        }
        let ghost m2 = self@;

        let keys = self.pending_block_hashes.to_vec();
        let nb: usize = if keys.len() < blocks.len() { keys.len() } else { blocks.len() };
        let mut i: usize = 0;
        while i < nb
            invariant
                self.wf(),
                nb == min_len(m0.pending_blocks.len() as int, blocks@.len() as int),
                keys@ == m0.pending_blocks,
                forall|j: int| 0 <= j < blocks@.len() ==> blocks@[j].hash is Some,
                nb <= keys@.len(),
                nb <= blocks@.len(),
                i <= nb,
                self@ == (DbModel {
                    staging: StoreModel {
                        block_hashes: zip_into(
                            m2.staging.block_hashes,
                            keys@,
                            hashes_of(blocks@),
                            i as int,
                        ),
                        ..m2.staging
                    },
                    headers: zip_into(m2.headers, keys@, headers_of(blocks@), i as int),
                    ..m2
                }),
            decreases nb - i,
        {
            let hash = match blocks[i].hash {
                Some(h) => h,
                None => Hash32::zero(),
            };
            self.staging_db.block_hashes.insert(keys[i], hash);
            self.initial_headers.insert(keys[i], blocks[i].header.duplicate());
            i = i + 1;
        }

        self.pending_accounts = KeyList::new();
        self.pending_slots = KeyList::new();
        self.pending_block_hashes = KeyList::new();
        if !valid {
            self.current_db = MemDb::new();
        }
        proof {
            assert(self@.staging =~= m0.after_refill(av, slots@, blocks@).staging);
            assert(self@.pending_accounts =~= Seq::<Address>::empty());
            assert(self@.pending_slots =~= Seq::<SlotKey>::empty());
            assert(self@.pending_blocks =~= Seq::<u64>::empty());
        }
        valid
    }
    /// The storage keys and counts for the pre- and post-state proof requests.
    /// Fails only when the total count does not fit in a `usize`.
    pub fn proof_plan(&self) -> (r: Result<ProofPlan, DbError>)
        requires
            self.wf(),
        ensures
            r is Err <==> self@.initial.storage.dom().len() + self@.proof_keys().len() > usize::MAX,
            r is Err ==> r == Err::<ProofPlan, DbError>(DbError::Overflow),
            r matches Ok(p) ==> {
                &&& p.initial_keys@.no_duplicates()
                &&& p.initial_keys@.to_set() == self@.initial.storage.dom()
                &&& p.latest_keys@.no_duplicates()
                &&& p.latest_keys@.to_set() == self@.proof_keys()
                &&& p.num_initial_values == self@.initial.storage.dom().len()
                &&& p.num_storage_proofs == p.num_initial_values + self@.proof_keys().len()
            },
    {
        let initial_keys = self.initial_db.storage.keys();
        let current_keys = self.current_db.storage.keys();
        let mut latest_keys = self.initial_db.storage.keys();
        let mut i: usize = 0;
        while i < current_keys.len()
            invariant
                self.wf(),
                i <= current_keys@.len(),
                current_keys@.no_duplicates(),
                forall|k: SlotKey| current_keys@.contains(k) <==> self@.current.storage.contains_key(k),
                latest_keys@.no_duplicates(),
                forall|k: SlotKey|
                    latest_keys@.contains(k) <==> (self@.initial.storage.contains_key(k) || exists|j: int|
                        0 <= j < i && current_keys@[j] == k),
            decreases current_keys@.len() - i,
        {
            let k = current_keys[i];
            let ghost prev = latest_keys@;
            let ghost pushed = !self@.initial.storage.contains_key(k);
            if !self.initial_db.storage.contains(&k) {
                proof {
                    assert(!prev.contains(k)) by {
                        if prev.contains(k) {
                            let j = choose|j: int| 0 <= j < i && current_keys@[j] == k;
                            assert(current_keys@[j] == current_keys@[i as int]);
                        }
                    }
                }
                latest_keys.push(k);
            }
            proof {
                assert forall|x: SlotKey|
                    latest_keys@.contains(x) <==> (prev.contains(x) || (pushed && x == k)) by {
                    if pushed {
                        assert(latest_keys@ == prev.push(k));
                        if latest_keys@.contains(x) {
                            let j = choose|j: int| 0 <= j < latest_keys@.len() && latest_keys@[j] == x;
                            if j < prev.len() {
                                assert(prev[j] == x);
                            }
                        }
                        if prev.contains(x) {
                            let j = choose|j: int| 0 <= j < prev.len() && prev[j] == x;
                            assert(latest_keys@[j] == x);
                        }
                        if x == k {
                            assert(latest_keys@[prev.len() as int] == x);
                        }
                    }
                }
            }
            i = i + 1;
            proof {
                assert forall|x: SlotKey|
                    latest_keys@.contains(x) <==> (self@.initial.storage.contains_key(x) || exists|j: int|
                        0 <= j < i && current_keys@[j] == x) by {
                    if exists|j: int| 0 <= j < i && current_keys@[j] == x {
                        let j = choose|j: int| 0 <= j < i && current_keys@[j] == x;
                        if j < i - 1 {
                            assert(prev.contains(x));
                        } else {
                            assert(x == k);
                        }
                    }
                    if prev.contains(x) && !self@.initial.storage.contains_key(x) {
                        let j = choose|j: int| 0 <= j < i - 1 && current_keys@[j] == x;
                        assert(0 <= j < i && current_keys@[j] == x);
                    }
                    if pushed && x == k {
                        assert(current_keys@[i - 1] == x);
                    }
                }
            }
        }
        proof {
            assert(initial_keys@.to_set() =~= self@.initial.storage.dom());
            assert forall|x: SlotKey| latest_keys@.contains(x) <==> self@.proof_keys().contains(x) by {
                if latest_keys@.contains(x) && !self@.initial.storage.contains_key(x) {
                    let j = choose|j: int| 0 <= j < i && current_keys@[j] == x;
                    assert(current_keys@.contains(x));
                }
                if self@.current.storage.contains_key(x) {
                    assert(current_keys@.contains(x));
                    let j = choose|j: int| 0 <= j < current_keys@.len() && current_keys@[j] == x;
                    assert(current_keys@[j] == x);
                }
            }
            assert(latest_keys@.to_set() =~= self@.proof_keys());
            initial_keys@.unique_seq_to_set();
            latest_keys@.unique_seq_to_set();
        }
        if initial_keys.len() > usize::MAX - latest_keys.len() {
            return Err(DbError::Overflow);
        }
        let num_initial_values = initial_keys.len();
        let num_storage_proofs = num_initial_values + latest_keys.len();
        Ok(ProofPlan { initial_keys, latest_keys, num_initial_values, num_storage_proofs })
    }

    /// The smallest block number with a cached hash, or the database's block
    /// number when none is cached.
    pub fn earliest_block(&self) -> (r: u64)
        requires
            self.wf(),
        ensures
            self@.is_earliest(r),
            r == self@.earliest(),
    {
        let keys = self.initial_db.block_hashes.keys();
        if keys.len() == 0 {
            proof {
                assert forall|k: u64| !self@.initial.block_hashes.contains_key(k) by {
                    if self@.initial.block_hashes.contains_key(k) {
                        assert(keys@.contains(k));
                    }
                }
                assert(self@.initial.block_hashes.dom() =~= Set::empty());
                lemma_earliest_unique(self@, self.block_number);
            }
            return self.block_number;
        }
        let mut e = keys[0];
        let mut i: usize = 1;
        while i < keys.len()
            invariant
                1 <= i <= keys@.len(),
                keys@.contains(e),
                forall|j: int| 0 <= j < i ==> e <= keys@[j],
            decreases keys@.len() - i,
        {
            if keys[i] < e {
                e = keys[i];
            }
            i = i + 1;
        }
        proof {
            assert(self@.initial.block_hashes.contains_key(e));
            assert(self@.initial.block_hashes.dom().contains(e));
            assert forall|k: u64| self@.initial.block_hashes.contains_key(k) implies e <= k by {
                assert(keys@.contains(k));
                let j = keys@.index_of(k);
                assert(keys@[j] == k);
            }
            lemma_earliest_unique(self@, e);
        }
        e
    }

    /// The number of the oldest ancestor header to return.
    pub fn first_ancestor(&self) -> (r: u64)
        requires
            self.wf(),
        ensures
            r == self@.first_ancestor(),
            self@.is_earliest(self@.earliest()),
    {
        let e = self.earliest_block();
        if self.block_number >= HISTORY_WINDOW && e < self.block_number - HISTORY_WINDOW {
            self.block_number - HISTORY_WINDOW
        } else {
            e
        }
    }

    /// The ancestor numbers whose headers are not cached yet, ascending.
    pub fn missing_ancestors(&self) -> (r: Vec<u64>)
        requires
            self.wf(),
        ensures
            forall|i: int, j: int| 0 <= i < j < r@.len() ==> r@[i] < r@[j],
            forall|n: u64|
                r@.contains(n) <==> (self@.first_ancestor() <= n < self.block_number
                    && !self@.headers.contains_key(n)),
    {
        let start = self.first_ancestor();
        let mut r: Vec<u64> = Vec::new();
        let mut n: u64 = start;
        while n < self.block_number
            invariant
                self.wf(),
                start == self@.first_ancestor(),
                start <= n,
                n <= self.block_number || n == start,
                forall|i: int| 0 <= i < r@.len() ==> start <= #[trigger] r@[i] < n,
                forall|i: int, j: int| 0 <= i < j < r@.len() ==> r@[i] < r@[j],
                forall|m: u64|
                    r@.contains(m) <==> (start <= m < n && !self@.headers.contains_key(m)),
            decreases self.block_number - n,
        {
            let ghost prev = r@;
            if !self.initial_headers.contains(&n) {
                r.push(n);
            }
            n = n + 1;
            proof {
                assert forall|m: u64|
                    r@.contains(m) <==> (start <= m < n && !self@.headers.contains_key(m)) by {
                    if m == n - 1 && !self@.headers.contains_key(m) {
                        assert(r@[r@.len() - 1] == m);
                    }
                    if prev.contains(m) {
                        let j = prev.index_of(m);
                        assert(r@[j] == m);
                    }
                    if r@.contains(m) && !prev.contains(m) {
                        assert(m == n - 1);
                    }
                }
            }
        }
        r
    }

    /// Caches the header of block `n`; cached headers are kept for the whole run.
    pub fn cache_header(&mut self, n: u64, header: Header)
        requires
            old(self).wf(),
        ensures
            final(self).wf(),
            final(self)@ == (DbModel { headers: old(self)@.headers.insert(n, header@), ..old(self)@ }),
    {
        self.initial_headers.insert(n, header);
    }

    /// The ancestor headers, oldest first: every block from the first ancestor
    /// up to, and not including, the database's block. `None` while one of them
    /// is not cached.
    pub fn ancestor_headers(&self) -> (r: Option<Vec<Header>>)
        requires
            self.wf(),
        ensures
            r is Some <==> self@.ancestors_cached(),
            r matches Some(v) ==> {
                &&& v@.len() == self@.ancestor_count()
                &&& v@.len() <= HISTORY_WINDOW
                &&& forall|i: int|
                    0 <= i < v@.len() ==> v@[i]@ == self@.headers[(self@.first_ancestor() + i) as u64]
            },
    {
        let start = self.first_ancestor();
        let mut v: Vec<Header> = Vec::new();
        let mut n: u64 = start;
        while n < self.block_number
            invariant
                self.wf(),
                start == self@.first_ancestor(),
                start <= n,
                n <= self.block_number || n == start,
                v@.len() == n - start,
                forall|m: u64| start <= m < n ==> self@.headers.contains_key(m),
                forall|i: int| 0 <= i < v@.len() ==> v@[i]@ == self@.headers[(start + i) as u64],
            decreases self.block_number - n,
        {
            match self.initial_headers.get(&n) {
                Some(h) => v.push(h),
                None => {
                    assert(!self@.headers.contains_key(n));
                    assert(!self@.ancestors_cached());
                    return None;
                },
            }
            n = n + 1;
        }
        proof {
            let e = self@.earliest();
            assert(self@.is_earliest(e));
            assert(v@.len() <= HISTORY_WINDOW) by {
                if self.block_number >= HISTORY_WINDOW {
                    assert(start >= self.block_number - HISTORY_WINDOW);
                }
            }
        }
        Some(v)
    }
}


} // verus!
