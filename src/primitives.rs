//! Chain-native values held as plain integers.
use vstd::prelude::*;

verus! {

/// A 160-bit account address, split big-endian into its high 32 and low 128 bits.
#[derive(Clone, Copy, Debug, PartialEq, Eq, Hash, Structural)]
pub struct Address {
    pub high: u32,
    pub low: u128,
}

/// A 256-bit unsigned word (balances, storage indices and values), big-endian halves.
#[derive(Clone, Copy, Debug, PartialEq, Eq, Hash, Structural)]
pub struct Word {
    pub high: u128,
    pub low: u128,
}

/// A 32-byte hash, big-endian halves.
#[derive(Clone, Copy, Debug, PartialEq, Eq, Hash, Structural)]
pub struct Hash32 {
    pub high: u128,
    pub low: u128,
}

impl Word {
    pub open spec fn zero_spec() -> Word {
        Word { high: 0, low: 0 }
    }

    pub fn zero() -> (r: Word)
        ensures
            r == Word::zero_spec(),
    {
        Word { high: 0, low: 0 }
    }

    /// The word's value, if it fits in 64 bits.
    pub open spec fn as_u64_spec(self) -> Option<u64> {
        if self.high == 0 && self.low <= u64::MAX as u128 {
            Some(self.low as u64)
        } else {
            None
        }
    }

    pub fn to_u64(&self) -> (r: Option<u64>)
        ensures
            r == self.as_u64_spec(),
    {
        if self.high == 0 && self.low <= u64::MAX as u128 {
            Some(self.low as u64)
        } else {
            None
        }
    }

    pub fn from_u64(n: u64) -> (r: Word)
        ensures
            r == (Word { high: 0, low: n as u128 }),
            r.as_u64_spec() == Some(n),
    {
        Word { high: 0, low: n as u128 }
    }
}

impl Hash32 {
    pub open spec fn zero_spec() -> Hash32 {
        Hash32 { high: 0, low: 0 }
    }

    pub fn zero() -> (r: Hash32)
        ensures
            r == Hash32::zero_spec(),
    {
        Hash32 { high: 0, low: 0 }
    }
}

impl View for Address {
    type V = Address;

    open spec fn view(&self) -> Address {
        *self
    }
}

impl View for Word {
    type V = Word;

    open spec fn view(&self) -> Word {
        *self
    }
}

impl View for Hash32 {
    type V = Hash32;

    open spec fn view(&self) -> Hash32 {
        *self
    }
}

/// A storage slot key: the owning account and the slot index.
#[derive(Clone, Copy, Debug, PartialEq, Eq, Hash, Structural)]
pub struct SlotKey {
    pub address: Address,
    pub index: Word,
}

} // verus!
