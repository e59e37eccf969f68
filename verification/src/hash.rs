//! Fixed-size identifiers: hashes and account addresses.

use vstd::prelude::*;

verus! {

/// A 32-byte hash.
#[derive(Clone, Copy, Debug, PartialEq, Eq)]
pub struct HashValue {
    pub bytes: [u8; 32],
}

/// The bytes of the hash that is all zeros.
pub open spec fn zero_hash_bytes() -> Seq<u8> {
    Seq::new(32, |i: int| 0u8)
}

impl HashValue {
    /// The hash that is all zeros.
    pub fn zero() -> (hash: Self)
        ensures
            hash.bytes@ == zero_hash_bytes(),
    {
        let hash = HashValue { bytes: [0u8; 32] };
        assert(hash.bytes@ =~= zero_hash_bytes());
        hash
    }
}

/// The 32-byte address of an account.
#[derive(Clone, Copy, Debug, PartialEq, Eq)]
pub struct AccountAddress {
    pub bytes: [u8; 32],
}

/// The bytes of the address under which the core framework is published: `0x1`.
pub open spec fn core_code_address() -> Seq<u8> {
    Seq::new(32, |i: int| if i == 31 { 1u8 } else { 0u8 })
}

impl AccountAddress {
    /// Whether this is the address of the core framework.
    pub open spec fn is_core(self) -> bool {
        self.bytes@ == core_code_address()
    }

    /// Whether this is the address of the core framework.
    pub fn is_core_code_address(&self) -> (core: bool)
        ensures
            core == self.is_core(),
    {
        let mut i: usize = 0;
        while i < 31
            invariant
                i <= 31,
                forall|j: int| 0 <= j < i ==> self.bytes@[j] == 0,
            decreases 31 - i,
        {
            if self.bytes[i] != 0 {
                assert(self.bytes@[i as int] != core_code_address()[i as int]);
                return false;
            }
            i += 1;
        }
        if self.bytes[31] != 1 {
            assert(self.bytes@[31] != core_code_address()[31]);
            return false;
        }
        assert(self.bytes@ =~= core_code_address());
        true
    }
}

} // verus!
