//! Proof backend parameters, and the field-by-field comparison of a computed
//! block header against a reference header.
use crate::primitives::{Address, Hash32, Word};
use crate::state::{Header, HeaderModel};
use vstd::prelude::*;
use vstd::string::StringExecFns;

verus! {

/// The native backend: replays the block without producing a cryptographic proof.
pub struct NativeProver;

/// Parameters of the native backend.
#[derive(Clone, Debug)]
pub struct NativeParam {
    pub save_test_input: bool,
}

/// The kind of proof the zero-knowledge backend produces.
#[derive(Clone, Copy, Debug, PartialEq, Eq, Structural)]
pub enum RecursionMode {
    /// A core proof.
    Core,
    /// A compressed proof.
    Compressed,
    /// A PlonK proof.
    Plonk,
    /// A Groth16 proof.
    Groth16,
}

/// Where the zero-knowledge backend runs its prover.
#[derive(Clone, Copy, Debug, PartialEq, Eq, Structural)]
pub enum ProverMode {
    Mock,
    Local,
    Remote,
}

/// Parameters of the zero-knowledge backend.
#[derive(Clone, Debug)]
pub struct Sp1Param {
    pub recursion: RecursionMode,
    pub prover: ProverMode,
    pub save_test_input: bool,
}

/// What the zero-knowledge backend returns: the serialized proof.
#[derive(Clone, Debug)]
pub struct Sp1Response {
    pub proof: String,
}

/// The zero-knowledge backend.
pub struct Sp1Prover;

/// Values whose equality can be decided by executable code, through their views.
pub trait FieldEq: View {
    fn field_eq(&self, other: &Self) -> (r: bool)
        ensures
            r == (self@ == other@),
    ;
}

impl FieldEq for u64 {
    fn field_eq(&self, other: &u64) -> (r: bool) {
        *self == *other
    }
}

impl FieldEq for Word {
    fn field_eq(&self, other: &Word) -> (r: bool) {
        *self == *other
    }
}

impl FieldEq for Hash32 {
    fn field_eq(&self, other: &Hash32) -> (r: bool) {
        *self == *other
    }
}

impl FieldEq for Address {
    fn field_eq(&self, other: &Address) -> (r: bool) {
        *self == *other
    }
}

impl FieldEq for Option<u64> {
    fn field_eq(&self, other: &Option<u64>) -> (r: bool) {
        match (self, other) {
            (Some(a), Some(b)) => *a == *b,
            (None, None) => true,
            _ => false,
        }
    }
}

impl FieldEq for Option<Hash32> {
    fn field_eq(&self, other: &Option<Hash32>) -> (r: bool) {
        match (self, other) {
            (Some(a), Some(b)) => *a == *b,
            (None, None) => true,
            _ => false,
        }
    }
}

impl FieldEq for Vec<u8> {
    fn field_eq(&self, other: &Vec<u8>) -> (r: bool) {
        if self.len() != other.len() {
            return false;
        }
        let mut i: usize = 0;
        while i < self.len()
            invariant
                self@.len() == other@.len(),
                i <= self@.len(),
                forall|j: int| 0 <= j < i ==> self@[j] == other@[j],
            decreases self@.len() - i,
        {
            if self[i] != other[i] {
                return false;
            }
            i = i + 1;
        }
        assert(self@ =~= other@);
        true
    }
}

/// The message to report when `expected` and `actual` differ; `None` when they agree.
pub fn check_eq<T: FieldEq>(expected: &T, actual: &T, message: &str) -> (r: Option<String>)
    ensures
        r is Some <==> expected@ != actual@,
        r matches Some(m) ==> m@ == message@,
{
    if expected.field_eq(actual) {
        None
    } else {
        Some(String::from_str(message))
    }
}

/// A field of a block header.
#[derive(Clone, Copy, Debug, PartialEq, Eq, Structural)]
pub enum HeaderField {
    ParentHash,
    OmmersHash,
    Beneficiary,
    StateRoot,
    TransactionsRoot,
    ReceiptsRoot,
    WithdrawalsRoot,
    LogsBloom,
    Difficulty,
    Number,
    GasLimit,
    GasUsed,
    Timestamp,
    MixHash,
    Nonce,
    BaseFeePerGas,
    BlobGasUsed,
    ExcessBlobGas,
    ParentBeaconBlockRoot,
    ExtraData,
}

pub open spec fn field_if(differs: bool, f: HeaderField) -> Seq<HeaderField> {
    if differs {
        seq![f]
    } else {
        Seq::empty()
    }
}

/// The comparison is split into runs of consecutive fields, which keeps each
/// proof small.
pub open spec fn mismatches_from_parent_hash(e: HeaderModel, a: HeaderModel) -> Seq<HeaderField> {
    field_if(e.parent_hash != a.parent_hash, HeaderField::ParentHash)
        + field_if(e.ommers_hash != a.ommers_hash, HeaderField::OmmersHash)
        + field_if(e.beneficiary != a.beneficiary, HeaderField::Beneficiary)
        + field_if(e.state_root != a.state_root, HeaderField::StateRoot)
        + field_if(e.transactions_root != a.transactions_root, HeaderField::TransactionsRoot)
}

pub open spec fn mismatches_from_receipts_root(e: HeaderModel, a: HeaderModel) -> Seq<HeaderField> {
    field_if(e.receipts_root != a.receipts_root, HeaderField::ReceiptsRoot)
        + field_if(e.withdrawals_root != a.withdrawals_root, HeaderField::WithdrawalsRoot)
        + field_if(e.logs_bloom != a.logs_bloom, HeaderField::LogsBloom)
        + field_if(e.difficulty != a.difficulty, HeaderField::Difficulty)
        + field_if(e.number != a.number, HeaderField::Number)
}

pub open spec fn mismatches_from_gas_limit(e: HeaderModel, a: HeaderModel) -> Seq<HeaderField> {
    field_if(e.gas_limit != a.gas_limit, HeaderField::GasLimit)
        + field_if(e.gas_used != a.gas_used, HeaderField::GasUsed)
        + field_if(e.timestamp != a.timestamp, HeaderField::Timestamp)
        + field_if(e.mix_hash != a.mix_hash, HeaderField::MixHash)
        + field_if(e.nonce != a.nonce, HeaderField::Nonce)
}

pub open spec fn mismatches_from_base_fee(e: HeaderModel, a: HeaderModel) -> Seq<HeaderField> {
    field_if(e.base_fee_per_gas != a.base_fee_per_gas, HeaderField::BaseFeePerGas)
        + field_if(e.blob_gas_used != a.blob_gas_used, HeaderField::BlobGasUsed)
        + field_if(e.excess_blob_gas != a.excess_blob_gas, HeaderField::ExcessBlobGas)
        + field_if(e.parent_beacon_block_root != a.parent_beacon_block_root, HeaderField::ParentBeaconBlockRoot)
        + field_if(e.extra_data != a.extra_data, HeaderField::ExtraData)
}

/// The fields in which two headers differ, in declaration order.
pub open spec fn mismatched_fields(e: HeaderModel, a: HeaderModel) -> Seq<HeaderField> {
    mismatches_from_parent_hash(e, a) + mismatches_from_receipts_root(e, a) + mismatches_from_gas_limit(e, a)
        + mismatches_from_base_fee(e, a)
}

proof fn lemma_no_mismatch_iff_equal(e: HeaderModel, a: HeaderModel)
    ensures
        mismatched_fields(e, a).len() == 0 <==> e == a,
{
    if mismatched_fields(e, a).len() == 0 {
        assert(e.logs_bloom == a.logs_bloom);
        assert(e.extra_data == a.extra_data);
    }
}

fn push_if<T: FieldEq>(r: &mut Vec<HeaderField>, e: &T, a: &T, f: HeaderField)
    ensures
        final(r)@ == old(r)@ + field_if(e@ != a@, f),
{
    if !e.field_eq(a) {
        r.push(f);
    }
    assert(final(r)@ =~= old(r)@ + field_if(e@ != a@, f));
}

fn push_mismatches_from_parent_hash(r: &mut Vec<HeaderField>, expected: &Header, actual: &Header)
    ensures
        final(r)@ == old(r)@ + mismatches_from_parent_hash(expected@, actual@),
{
    let ghost r0 = r@;
    push_if(r, &expected.parent_hash, &actual.parent_hash, HeaderField::ParentHash);
    push_if(r, &expected.ommers_hash, &actual.ommers_hash, HeaderField::OmmersHash);
    push_if(r, &expected.beneficiary, &actual.beneficiary, HeaderField::Beneficiary);
    push_if(r, &expected.state_root, &actual.state_root, HeaderField::StateRoot);
    push_if(r, &expected.transactions_root, &actual.transactions_root, HeaderField::TransactionsRoot);
    assert(r@ =~= r0 + mismatches_from_parent_hash(expected@, actual@));
}

fn push_mismatches_from_receipts_root(r: &mut Vec<HeaderField>, expected: &Header, actual: &Header)
    ensures
        final(r)@ == old(r)@ + mismatches_from_receipts_root(expected@, actual@),
{
    let ghost r0 = r@;
    push_if(r, &expected.receipts_root, &actual.receipts_root, HeaderField::ReceiptsRoot);
    push_if(r, &expected.withdrawals_root, &actual.withdrawals_root, HeaderField::WithdrawalsRoot);
    push_if(r, &expected.logs_bloom, &actual.logs_bloom, HeaderField::LogsBloom);
    push_if(r, &expected.difficulty, &actual.difficulty, HeaderField::Difficulty);
    push_if(r, &expected.number, &actual.number, HeaderField::Number);
    assert(r@ =~= r0 + mismatches_from_receipts_root(expected@, actual@));
}

fn push_mismatches_from_gas_limit(r: &mut Vec<HeaderField>, expected: &Header, actual: &Header)
    ensures
        final(r)@ == old(r)@ + mismatches_from_gas_limit(expected@, actual@),
{
    let ghost r0 = r@;
    push_if(r, &expected.gas_limit, &actual.gas_limit, HeaderField::GasLimit);
    push_if(r, &expected.gas_used, &actual.gas_used, HeaderField::GasUsed);
    push_if(r, &expected.timestamp, &actual.timestamp, HeaderField::Timestamp);
    push_if(r, &expected.mix_hash, &actual.mix_hash, HeaderField::MixHash);
    push_if(r, &expected.nonce, &actual.nonce, HeaderField::Nonce);
    assert(r@ =~= r0 + mismatches_from_gas_limit(expected@, actual@));
}

fn push_mismatches_from_base_fee(r: &mut Vec<HeaderField>, expected: &Header, actual: &Header)
    ensures
        final(r)@ == old(r)@ + mismatches_from_base_fee(expected@, actual@),
{
    let ghost r0 = r@;
    push_if(r, &expected.base_fee_per_gas, &actual.base_fee_per_gas, HeaderField::BaseFeePerGas);
    push_if(r, &expected.blob_gas_used, &actual.blob_gas_used, HeaderField::BlobGasUsed);
    push_if(r, &expected.excess_blob_gas, &actual.excess_blob_gas, HeaderField::ExcessBlobGas);
    push_if(r, &expected.parent_beacon_block_root, &actual.parent_beacon_block_root, HeaderField::ParentBeaconBlockRoot);
    push_if(r, &expected.extra_data, &actual.extra_data, HeaderField::ExtraData);
    assert(r@ =~= r0 + mismatches_from_base_fee(expected@, actual@));
}

/// Compares a computed header with a reference header, field by field, and
/// lists every field that differs.
pub fn compare_headers(expected: &Header, actual: &Header) -> (r: Vec<HeaderField>)
    ensures
        r@ == mismatched_fields(expected@, actual@),
        r@.len() == 0 <==> expected@ == actual@,
{
    proof {
        lemma_no_mismatch_iff_equal(expected@, actual@);
    }
    let mut r: Vec<HeaderField> = Vec::new();
    push_mismatches_from_parent_hash(&mut r, expected, actual);
    push_mismatches_from_receipts_root(&mut r, expected, actual);
    push_mismatches_from_gas_limit(&mut r, expected, actual);
    push_mismatches_from_base_fee(&mut r, expected, actual);
    assert(r@ =~= mismatched_fields(expected@, actual@));
    r
}

} // verus!
