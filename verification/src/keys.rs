//! Signing keys, held as their raw 32 bytes.
use vstd::prelude::*;

verus! {

broadcast use vstd::array::group_array_axioms;

/// Two byte arrays of a key are equal exactly when their byte sequences are.
pub fn key_bytes_eq(a: &[u8; 32], b: &[u8; 32]) -> (r: bool)
    ensures
        r == (*a == *b),
{
    let mut i: usize = 0;
    while i < 32
        invariant
            i <= 32,
            a@.len() == 32,
            b@.len() == 32,
            forall|j: int| 0 <= j < i ==> a@[j] == b@[j],
        decreases 32 - i,
    {
        if a[i] != b[i] {
            assert(a@[i as int] != b@[i as int]);
            return false;
        }
        i += 1;
    }
    assert(a@ =~= b@);
    assert(*a =~= *b);
    true
}

/// An Ed25519 public key.
#[derive(Copy, Clone, Debug)]
pub struct PublicKey {
    pub bytes: [u8; 32],
}

/// An Ed25519 private key.
#[derive(Copy, Clone, Debug)]
pub struct PrivateKey {
    pub bytes: [u8; 32],
}

impl PublicKey {
    /// The public key with the given encoding.
    pub fn from_bytes(bytes: [u8; 32]) -> (r: Self)
        ensures
            r.bytes == bytes,
    {
        PublicKey { bytes }
    }

    /// The 32-byte encoding of the key.
    pub fn as_bytes(&self) -> (r: [u8; 32])
        ensures
            r == self.bytes,
    {
        self.bytes
    }

    /// Key equality, byte by byte.
    pub fn eq(&self, other: &Self) -> (r: bool)
        ensures
            r == (*self == *other),
    {
        key_bytes_eq(&self.bytes, &other.bytes)
    }
}

} // verus!
