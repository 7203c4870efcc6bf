//! What can go wrong inside the tree and proof algorithms.

use vstd::prelude::*;

verus! {

/// A request that the tree or the proof at hand cannot serve. These are
/// mistakes of the caller, not of a remote party.
#[derive(Clone, Copy, Debug, PartialEq, Eq, Structural)]
pub enum MerkleError {
    /// A proof was asked of a tree without leaves.
    EmptyTree,
    /// The digest a proof was asked for is not among the leaves.
    LeafNotFound,
    /// A root was asked of a proof path without elements.
    EmptyProof,
}

/// What can end a transfer or a download. None of these is ever downgraded to
/// a warning: each aborts the operation it occurs in.
#[derive(Clone, Copy, Debug, PartialEq, Eq, Structural)]
pub enum VaultError {
    /// The tree or the proof at hand could not serve a request.
    Merkle(MerkleError),
    /// A root that was computed differs from the root that was expected:
    /// evidence of tampering or corruption.
    IntegrityViolation,
    /// No root was ever committed for the vault, so nothing can be verified
    /// against it.
    UntrustedContainer,
    /// The remote store could not be reached, or did not answer.
    RemoteUnavailable,
    /// The remote store refused the request.
    RemoteRejected,
    /// A local file could not be read, or the local state could not be
    /// saved.
    LocalFailure,
}

impl MerkleError {
    /// The text shown for the error.
    pub open spec fn spec_message(self) -> Seq<char> {
        match self {
            MerkleError::EmptyTree => "Tree is empty"@,
            MerkleError::LeafNotFound => "Leaf not found"@,
            MerkleError::EmptyProof => "missing proof"@,
        }
    }

    /// The text shown for the error.
    pub fn message(&self) -> (text: String)
        ensures
            text@ == self.spec_message(),
    {
        match self {
            MerkleError::EmptyTree => "Tree is empty".to_owned(),
            MerkleError::LeafNotFound => "Leaf not found".to_owned(),
            MerkleError::EmptyProof => "missing proof".to_owned(),
        }
    }
}

} // verus!
