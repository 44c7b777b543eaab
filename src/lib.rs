//! A tiered, speculative state database that supplies an execution engine with
//! accounts, storage slots and block hashes, plus the bookkeeping needed to
//! request Merkle proofs and ancestor headers once a block has been replayed.
pub mod laws;
pub mod mem_db;
pub mod primitives;
pub mod provider_db;
pub mod prover;
pub mod sgx;
pub mod state;
pub mod table;
