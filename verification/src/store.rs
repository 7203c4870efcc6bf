//! The store's half of the protocol: what an honest store computes over the
//! files it holds for a vault.
//!
//! The store trusts no digest it is told. It hashes the contents it holds,
//! in the order in which it lists them, and builds the same tree as the
//! client did.

use crate::error::{MerkleError, VaultError};
use crate::fetch::verdict;
use crate::merkle_proof::MerkleProof;
use crate::merkle_tree::{first_index, proof_path, tree_root, MerkleTree};
use crate::session::{compute_local_root, leaf_digests, leaf_hashes};
use crate::utils::crypto::{hash, sha256};
use crate::utils::encoding::hex_encoding;
use vstd::prelude::*;

verus! {

/// The root, as hexadecimal text, of the tree over the digests of the
/// `contents` of a vault. There is no root for a vault without files.
///
/// This is the text a client compares with its own root: for the same
/// contents in the same order it is the same text.
pub fn finalize_vault(contents: &Vec<Vec<u8>>) -> (root: Option<String>)
    ensures
        match root {
            Some(text) => contents@.len() > 0 && text@ == hex_encoding(
                tree_root(leaf_digests(contents@)),
            ),
            None => contents@.len() == 0,
        },
{
    compute_local_root(contents)
}

/// The proof path of the file with the bytes `file` in the vault with the
/// `contents` given: the path of the first of the contents with the same
/// digest.
///
/// Fails with `EmptyTree` for a vault without files, and with `LeafNotFound`
/// where none of the contents has the digest of `file`. A path that is
/// returned is accepted against the root that `finalize_vault` reports for
/// the same contents.
pub fn download_proof(contents: &Vec<Vec<u8>>, file: &Vec<u8>) -> (result: Result<
    MerkleProof,
    MerkleError,
>)
    ensures
        match result {
            Ok(path) => {
                &&& leaf_digests(contents@).contains(sha256(file@))
                &&& path@ == proof_path(
                    leaf_digests(contents@),
                    first_index(leaf_digests(contents@), sha256(file@)),
                )
                &&& verdict(path@, hex_encoding(tree_root(leaf_digests(contents@)))) == Ok::<
                    (),
                    VaultError,
                >(())
            },
            Err(e) => if contents@.len() == 0 {
                e == MerkleError::EmptyTree
            } else {
                e == MerkleError::LeafNotFound && !leaf_digests(contents@).contains(
                    sha256(file@),
                )
            },
        },
{
    let tree = MerkleTree::from_leaves(leaf_hashes(contents));
    tree.proof_for(hash(file))
}

} // verus!
