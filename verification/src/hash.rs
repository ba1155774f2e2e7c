//! 32-byte digests and the double SHA-256 that produces them.

use vstd::prelude::*;

verus! {

/// A 32-byte digest, in the byte order in which Bitcoin hashes are written
/// to the wire.
#[derive(Clone, Copy, Debug)]
pub struct Hash {
    pub bytes: [u8; 32],
}

impl View for Hash {
    type V = Seq<u8>;

    open spec fn view(&self) -> Seq<u8> {
        self.bytes@
    }
}

impl PartialEq for Hash {
    fn eq(&self, other: &Hash) -> (r: bool) {
        let mut i: usize = 0;
        while i < 32
            invariant
                i <= 32,
                forall|j: int| 0 <= j < i ==> self.bytes@[j] == other.bytes@[j],
            decreases 32 - i,
        {
            if self.bytes[i] != other.bytes[i] {
                return false;
            }
            i += 1;
        }
        assert(self.bytes@ =~= other.bytes@);
        true
    }
}

impl vstd::std_specs::cmp::PartialEqSpecImpl for Hash {
    open spec fn obeys_eq_spec() -> bool {
        true
    }

    open spec fn eq_spec(&self, other: &Hash) -> bool {
        self@ == other@
    }
}

impl Hash {
    /// The digest of 32 zero bytes.
    pub fn all_zeros() -> (r: Hash)
        ensures
            r@ == Seq::new(32, |i: int| 0u8),
    {
        let r = Hash { bytes: [0u8; 32] };
        assert(r@ =~= Seq::new(32, |i: int| 0u8));
        r
    }

    /// Wraps 32 bytes as a digest.
    pub fn from_byte_array(bytes: [u8; 32]) -> (r: Hash)
        ensures
            r@ == bytes@,
    {
        Hash { bytes }
    }

    /// The 32 bytes of the digest.
    pub fn to_byte_array(&self) -> (r: [u8; 32])
        ensures
            r@ == self@,
    {
        self.bytes
    }

    /// Reads the digest that starts at `at`.
    pub fn read(bytes: &[u8], at: usize) -> (r: Hash)
        requires
            at + 32 <= bytes@.len(),
        ensures
            r@ == bytes@.subrange(at as int, at + 32),
    {
        let len = bytes.len();
        let mut out = [0u8; 32];
        let mut i: usize = 0;
        while i < 32
            invariant
                i <= 32,
                len == bytes@.len(),
                at + 32 <= len,
                forall|j: int| 0 <= j < i ==> out@[j] == bytes@[at + j],
            decreases 32 - i,
        {
            out[i] = bytes[at + i];
            i += 1;
        }
        assert(out@ =~= bytes@.subrange(at as int, at + 32));
        Hash { bytes: out }
    }
}

/// The double SHA-256 digest of a byte string, as `bitcoin_hashes` computes it.
pub uninterp spec fn sha256d(data: Seq<u8>) -> Seq<u8>;

/// `bitcoin_hashes::sha256d::Hash::hash`: the digest of `data` is SHA-256
/// applied twice, a function of the bytes alone.
#[verifier::external_body]
pub(crate) fn sha256d_digest(data: &[u8]) -> (r: Hash)
    ensures
        r@ == sha256d(data@),
{
    let digest: bitcoin_hashes::sha256d::Hash = bitcoin_hashes::Hash::hash(data);
    Hash { bytes: bitcoin_hashes::Hash::to_byte_array(digest) }
}

/// Merges two hashes: the double SHA-256 of the first followed by the second.
pub fn hash_concat(lhs: &Hash, rhs: &Hash) -> (r: Hash)
    ensures
        r@ == sha256d(lhs@ + rhs@),
{
    let mut data: Vec<u8> = Vec::with_capacity(64);
    let mut i: usize = 0;
    while i < 32
        invariant
            i <= 32,
            data@ == lhs@.take(i as int),
        decreases 32 - i,
    {
        data.push(lhs.bytes[i]);
        assert(data@ =~= lhs@.take(i + 1));
        i += 1;
    }
    assert(lhs@.take(32) =~= lhs@);
    let mut k: usize = 0;
    while k < 32
        invariant
            k <= 32,
            data@ == lhs@ + rhs@.take(k as int),
        decreases 32 - k,
    {
        data.push(rhs.bytes[k]);
        assert(data@ =~= lhs@ + rhs@.take(k + 1));
        k += 1;
    }
    assert(rhs@.take(32) =~= rhs@);
    sha256d_digest(data.as_slice())
}

} // verus!
