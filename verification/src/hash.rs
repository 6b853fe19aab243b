//! SHA-256 hashes.

use sha2::Digest;
use std::hash::{Hash, Hasher};
use vstd::prelude::*;

verus! {

/// The SHA-256 digest of a sequence of bytes.
pub uninterp spec fn sha256_digest(bytes: Seq<u8>) -> Seq<u8>;

/// Calls `sha2::Sha256::digest`: the SHA-256 digest of `bytes`.
#[verifier::external_body]
fn sha256(bytes: &[u8]) -> (digest: [u8; 32])
    ensures
        digest@ == sha256_digest(bytes@),
{
    sha2::Sha256::digest(bytes).into()
}

/// Calls `std::hash::Hasher::write`: hands `bytes` to a hasher. What the hasher makes of them is up to
/// its type, so nothing is claimed of it.
#[verifier::external_body]
fn hasher_write<H: Hasher>(state: &mut H, bytes: &[u8]) {
    state.write(bytes);
}

/// A hash of 32 bytes. Its view is those bytes.
#[derive(Debug, Copy, Clone, PartialEq, Eq, PartialOrd, Ord)]
pub struct CryptoHash(pub [u8; 32]);

impl View for CryptoHash {
    type V = Seq<u8>;

    open spec fn view(&self) -> Seq<u8> {
        self.0@
    }
}

impl CryptoHash {
    /// The length of a hash in bytes.
    pub const LENGTH: usize = 32;

    /// The hash whose bytes are all zero.
    pub fn new() -> (h: CryptoHash)
        ensures
            h@ == Seq::new(32, |i: int| 0u8),
    {
        CryptoHash([0; 32])
    }

    /// Calculates hash of given bytes.
    pub fn hash_bytes(bytes: &[u8]) -> (h: CryptoHash)
        ensures
            h@ == sha256_digest(bytes@),
    {
        CryptoHash(sha256(bytes))
    }

    /// The bytes of the hash.
    pub fn as_bytes(&self) -> (bytes: &[u8])
        ensures
            bytes@ == self@,
    {
        self.0.as_slice()
    }

    /// Whether two hashes have the same bytes.
    pub fn same(&self, other: &CryptoHash) -> (b: bool)
        ensures
            b == (*self == *other),
            b == (self@ == other@),
    {
        let mut i: usize = 0;
        while i < 32
            invariant
                i <= 32,
                forall|j: int| 0 <= j < i ==> self.0@[j] == other.0@[j],
            decreases 32 - i,
        {
            if self.0[i] != other.0[i] {
                assert(self.0@[i as int] != other.0@[i as int]);
                return false;
            }
            i += 1;
        }
        assert(self.0 =~= other.0);
        true
    }
}

impl AsRef<[u8]> for CryptoHash {
    fn as_ref(&self) -> (bytes: &[u8])
        ensures
            bytes@ == self@,
    {
        self.as_bytes()
    }
}

impl Hash for CryptoHash {
    /// Writes the bytes of the hash, and nothing else.
    fn hash<H: Hasher>(&self, state: &mut H) {
        hasher_write(state, self.as_bytes());
    }
}

impl Default for CryptoHash {
    fn default() -> (h: CryptoHash)
        ensures
            h@ == Seq::new(32, |i: int| 0u8),
    {
        CryptoHash::new()
    }
}

/// Calculates a hash of a bytes slice.
pub fn hash(data: &[u8]) -> (h: CryptoHash)
    ensures
        h@ == sha256_digest(data@),
{
    CryptoHash::hash_bytes(data)
}

} // verus!
