//! Identities of callers, owners and staff: 32-byte public keys.

use vstd::array::spec_array_fill_for_copy_type;
use vstd::prelude::*;
use vstd::std_specs::cmp::PartialEqSpecImpl;

verus! {

/// A 32-byte public key naming an account owner, a caller or a staff member.
#[derive(Clone, Copy, Debug, Eq, Hash)]
pub struct Pubkey {
    pub bytes: [u8; 32],
}

impl PartialEq for Pubkey {
    /// Two keys are equal when all 32 bytes agree.
    fn eq(&self, other: &Pubkey) -> (r: bool) {
        let mut i: usize = 0;
        while i < 32
            invariant
                i <= 32,
                forall|j: int| 0 <= j < i ==> self.bytes[j] == other.bytes[j],
            decreases 32 - i,
        {
            if self.bytes[i] != other.bytes[i] {
                return false;
            }
            i += 1;
        }
        assert(self.bytes@ =~= other.bytes@);
        assert(self.bytes == other.bytes);
        true
    }
}

impl PartialEqSpecImpl for Pubkey {
    open spec fn obeys_eq_spec() -> bool {
        true
    }

    open spec fn eq_spec(&self, other: &Pubkey) -> bool {
        *self == *other
    }
}

impl Default for Pubkey {
    /// The all-zero key, which stands for "no key yet".
    fn default() -> (key: Pubkey)
        ensures
            key == Pubkey::unset(),
    {
        Pubkey { bytes: [0u8; 32] }
    }
}

impl Pubkey {
    /// The all-zero key, which stands for "no key yet".
    pub open spec fn unset() -> Pubkey {
        Pubkey { bytes: spec_array_fill_for_copy_type(0u8) }
    }

    /// The key made of the given bytes.
    pub fn new_from_array(bytes: [u8; 32]) -> (key: Pubkey)
        ensures
            key.bytes == bytes,
    {
        Pubkey { bytes }
    }

    /// The bytes of the key.
    pub fn to_bytes(&self) -> (bytes: [u8; 32])
        ensures
            bytes == self.bytes,
    {
        self.bytes
    }
}

/// Whether `key` occurs in `keys`.
pub fn contains_key(keys: &Vec<Pubkey>, key: &Pubkey) -> (found: bool)
    ensures
        found == keys@.contains(*key),
{
    let mut i: usize = 0;
    while i < keys.len()
        invariant
            i <= keys.len(),
            forall|j: int| 0 <= j < i ==> keys[j] != *key,
        decreases keys.len() - i,
    {
        if keys[i] == *key {
            return true;
        }
        i += 1;
    }
    false
}

} // verus!
