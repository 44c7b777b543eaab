//! Accounts and block headers, and the views that contracts speak of.
use crate::primitives::{Address, Hash32, Word};
use crate::table::TableValue;
use vstd::prelude::*;

verus! {

/// An account: balance, nonce, hash of its code, and the code itself.
#[derive(Clone, Debug)]
pub struct AccountInfo {
    pub balance: Word,
    pub nonce: u64,
    pub code_hash: Hash32,
    pub code: Vec<u8>,
}

pub struct AccountModel {
    pub balance: Word,
    pub nonce: u64,
    pub code_hash: Hash32,
    pub code: Seq<u8>,
}

impl View for AccountInfo {
    type V = AccountModel;

    open spec fn view(&self) -> AccountModel {
        AccountModel {
            balance: self.balance,
            nonce: self.nonce,
            code_hash: self.code_hash,
            code: self.code@,
        }
    }
}

fn copy_bytes(b: &Vec<u8>) -> (r: Vec<u8>)
    ensures
        r@ == b@,
{
    let mut r: Vec<u8> = Vec::new();
    let mut i: usize = 0;
    while i < b.len()
        invariant
            i <= b@.len(),
            r@ == b@.subrange(0, i as int),
        decreases b@.len() - i,
    {
        r.push(b[i]);
        i = i + 1;
        assert(r@ =~= b@.subrange(0, i as int));
    }
    assert(r@ =~= b@);
    r
}

impl TableValue for AccountInfo {
    fn duplicate(&self) -> (r: AccountInfo) {
        AccountInfo {
            balance: self.balance,
            nonce: self.nonce,
            code_hash: self.code_hash,
            code: copy_bytes(&self.code),
        }
    }
}

/// The Keccak-256 digest of a byte string.
pub uninterp spec fn keccak_of(data: Seq<u8>) -> Hash32;

/// Relies on alloy_primitives::keccak256: the Keccak-256 digest of the bytes,
/// which depends on the bytes alone.
#[verifier::external_body]
fn keccak256(data: &Vec<u8>) -> (r: Hash32)
    ensures
        r == keccak_of(data@),
{
    let h = alloy_primitives::keccak256(data);
    let mut high = [0u8; 16];
    let mut low = [0u8; 16];
    high.copy_from_slice(&h.0[0..16]);
    low.copy_from_slice(&h.0[16..32]);
    Hash32 { high: u128::from_be_bytes(high), low: u128::from_be_bytes(low) }
}

/// The account handed out for an address that could not be resolved yet:
/// zero balance, the largest nonce, empty code.
pub open spec fn placeholder_account_spec() -> AccountModel {
    AccountModel {
        balance: Word::zero_spec(),
        nonce: u64::MAX,
        code_hash: keccak_of(Seq::empty()),
        code: Seq::empty(),
    }
}

pub fn placeholder_account() -> (r: AccountInfo)
    ensures
        r@ == placeholder_account_spec(),
{
    let code: Vec<u8> = Vec::new();
    let code_hash = keccak256(&code);
    AccountInfo { balance: Word::zero(), nonce: u64::MAX, code_hash, code }
}

/// A block header.
#[derive(Clone, Debug)]
pub struct Header {
    pub parent_hash: Hash32,
    pub ommers_hash: Hash32,
    pub beneficiary: Address,
    pub state_root: Hash32,
    pub transactions_root: Hash32,
    pub receipts_root: Hash32,
    pub withdrawals_root: Option<Hash32>,
    pub logs_bloom: Vec<u8>,
    pub difficulty: Word,
    pub number: u64,
    pub gas_limit: u64,
    pub gas_used: u64,
    pub timestamp: u64,
    pub mix_hash: Hash32,
    pub nonce: u64,
    pub base_fee_per_gas: Option<u64>,
    pub blob_gas_used: Option<u64>,
    pub excess_blob_gas: Option<u64>,
    pub parent_beacon_block_root: Option<Hash32>,
    pub extra_data: Vec<u8>,
}

pub struct HeaderModel {
    pub parent_hash: Hash32,
    pub ommers_hash: Hash32,
    pub beneficiary: Address,
    pub state_root: Hash32,
    pub transactions_root: Hash32,
    pub receipts_root: Hash32,
    pub withdrawals_root: Option<Hash32>,
    pub logs_bloom: Seq<u8>,
    pub difficulty: Word,
    pub number: u64,
    pub gas_limit: u64,
    pub gas_used: u64,
    pub timestamp: u64,
    pub mix_hash: Hash32,
    pub nonce: u64,
    pub base_fee_per_gas: Option<u64>,
    pub blob_gas_used: Option<u64>,
    pub excess_blob_gas: Option<u64>,
    pub parent_beacon_block_root: Option<Hash32>,
    pub extra_data: Seq<u8>,
}

impl View for Header {
    type V = HeaderModel;

    open spec fn view(&self) -> HeaderModel {
        HeaderModel {
            parent_hash: self.parent_hash,
            ommers_hash: self.ommers_hash,
            beneficiary: self.beneficiary,
            state_root: self.state_root,
            transactions_root: self.transactions_root,
            receipts_root: self.receipts_root,
            withdrawals_root: self.withdrawals_root,
            logs_bloom: self.logs_bloom@,
            difficulty: self.difficulty,
            number: self.number,
            gas_limit: self.gas_limit,
            gas_used: self.gas_used,
            timestamp: self.timestamp,
            mix_hash: self.mix_hash,
            nonce: self.nonce,
            base_fee_per_gas: self.base_fee_per_gas,
            blob_gas_used: self.blob_gas_used,
            excess_blob_gas: self.excess_blob_gas,
            parent_beacon_block_root: self.parent_beacon_block_root,
            extra_data: self.extra_data@,
        }
    }
}

impl TableValue for Header {
    fn duplicate(&self) -> (r: Header) {
        Header {
            parent_hash: self.parent_hash,
            ommers_hash: self.ommers_hash,
            beneficiary: self.beneficiary,
            state_root: self.state_root,
            transactions_root: self.transactions_root,
            receipts_root: self.receipts_root,
            withdrawals_root: self.withdrawals_root,
            logs_bloom: copy_bytes(&self.logs_bloom),
            difficulty: self.difficulty,
            number: self.number,
            gas_limit: self.gas_limit,
            gas_used: self.gas_used,
            timestamp: self.timestamp,
            mix_hash: self.mix_hash,
            nonce: self.nonce,
            base_fee_per_gas: self.base_fee_per_gas,
            blob_gas_used: self.blob_gas_used,
            excess_blob_gas: self.excess_blob_gas,
            parent_beacon_block_root: self.parent_beacon_block_root,
            extra_data: copy_bytes(&self.extra_data),
        }
    }
}

} // verus!
