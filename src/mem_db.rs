//! One tier of state: accounts, storage slots and block hashes.
use crate::primitives::{Address, Hash32, SlotKey, Word};
use crate::state::{AccountInfo, AccountModel};
use crate::table::Table;
use vstd::prelude::*;

verus! {

pub struct MemDb {
    pub accounts: Table<Address, AccountInfo>,
    pub storage: Table<SlotKey, Word>,
    pub block_hashes: Table<u64, Hash32>,
}

/// What a tier holds.
pub struct StoreModel {
    pub accounts: Map<Address, AccountModel>,
    pub storage: Map<SlotKey, Word>,
    pub block_hashes: Map<u64, Hash32>,
}

impl StoreModel {
    pub open spec fn empty() -> StoreModel {
        StoreModel { accounts: Map::empty(), storage: Map::empty(), block_hashes: Map::empty() }
    }
}

impl View for MemDb {
    type V = StoreModel;

    open spec fn view(&self) -> StoreModel {
        StoreModel {
            accounts: self.accounts@,
            storage: self.storage@,
            block_hashes: self.block_hashes@,
        }
    }
}

impl MemDb {
    pub open spec fn wf(&self) -> bool {
        self.accounts.wf() && self.storage.wf() && self.block_hashes.wf()
    }

    pub fn new() -> (r: MemDb)
        ensures
            r.wf(),
            r@ == StoreModel::empty(),
    {
        MemDb { accounts: Table::new(), storage: Table::new(), block_hashes: Table::new() }
    }
}

} // verus!
