//! SHA-256 digests and the pair-hash that joins two tree nodes.

use sha2::{Digest, Sha256};
use vstd::prelude::*;

verus! {

/// A digest, or any other byte string that is used as a tree node.
pub type Hash = Vec<u8>;

/// Number of bytes in a SHA-256 digest.
pub const DIGEST_LEN: usize = 32;

/// The SHA-256 digest of `data`: what `sha2::Sha256::digest` returns for it.
///
/// The function is left uninterpreted: all the crate ever needs of it is that
/// equal inputs have equal digests.
pub uninterp spec fn sha256(data: Seq<u8>) -> Seq<u8>;

/// The digest stored in the parent of the nodes `left` and `right`.
pub open spec fn hash_pair(left: Seq<u8>, right: Seq<u8>) -> Seq<u8> {
    sha256(left + right)
}

/// Two distinct byte strings with the same digest.
pub open spec fn collision(a: Seq<u8>, b: Seq<u8>) -> bool {
    a != b && sha256(a) == sha256(b)
}

/// Computes the SHA-256 digest of `value`.
///
/// Trusted: calls `sha2::Sha256::digest` (the `Digest` trait's one-shot
/// function) and copies the 32-byte array it returns into a vector. The
/// contract names the result `sha256(value@)` and states its length; nothing
/// else is assumed of the digest.
#[verifier::external_body]
pub fn hash(value: &Vec<u8>) -> (digest: Hash)
    ensures
        digest@ == sha256(value@),
        digest@.len() == DIGEST_LEN,
{
    Sha256::digest(value).to_vec()
}

/// Returns the bytes of `left` followed by the bytes of `right`.
pub fn join_bytes(left: &Vec<u8>, right: &Vec<u8>) -> (joined: Vec<u8>)
    ensures
        joined@ == left@ + right@,
{
    let mut joined: Vec<u8> = Vec::new();
    let mut i: usize = 0;
    while i < left.len()
        invariant
            i <= left.len(),
            joined@ == left@.subrange(0, i as int),
        decreases left.len() - i,
    {
        joined.push(left[i]);
        i += 1;
    }
    let mut j: usize = 0;
    while j < right.len()
        invariant
            j <= right.len(),
            joined@ == left@ + right@.subrange(0, j as int),
        decreases right.len() - j,
    {
        joined.push(right[j]);
        j += 1;
    }
    joined
}

/// Computes the digest of the parent of two nodes.
pub fn hash_nodes(left: &Hash, right: &Hash) -> (parent: Hash)
    ensures
        parent@ == hash_pair(left@, right@),
        parent@.len() == DIGEST_LEN,
{
    let joined = join_bytes(left, right);
    hash(&joined)
}

/// Tells whether two byte strings are equal, byte for byte.
pub fn same_bytes(a: &Vec<u8>, b: &Vec<u8>) -> (same: bool)
    ensures
        same == (a@ == b@),
{
    let same = *a == *b;
    proof {
        if same {
            assert(a@ =~= b@);
        }
    }
    same
}

/// A byte string splits in one way only into two parts, once the length of
/// either part is fixed.
pub proof fn lemma_concat_injective(
    left1: Seq<u8>,
    right1: Seq<u8>,
    left2: Seq<u8>,
    right2: Seq<u8>,
)
    requires
        left1 + right1 == left2 + right2,
        left1.len() == left2.len() || right1.len() == right2.len(),
    ensures
        left1 == left2,
        right1 == right2,
{
    let joined1 = left1 + right1;
    let joined2 = left2 + right2;
    assert(joined1.len() == left1.len() + right1.len());
    assert(joined2.len() == left2.len() + right2.len());
    assert(left1 =~= joined1.subrange(0, left1.len() as int));
    assert(left2 =~= joined2.subrange(0, left2.len() as int));
    assert(right1 =~= joined1.subrange(left1.len() as int, joined1.len() as int));
    assert(right2 =~= joined2.subrange(left2.len() as int, joined2.len() as int));
}

} // verus!
