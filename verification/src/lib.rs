//! Tamper-evident file vaults.
//!
//! A client hands a batch of files to a store it does not trust. Before the
//! transfer it folds the content digests of the files into a binary hash tree
//! and keeps the root. The store rebuilds the tree from what it received; the
//! batch is committed only when both roots agree. Later, a single file is
//! accepted only together with a path of sibling digests that leads from the
//! file's digest to the committed root.

pub use error::{MerkleError, VaultError};
pub use fetch::VerifiedFetch;
pub use merkle_proof::MerkleProof;
pub use merkle_tree::{Direction, MerkleNode, MerkleTree};
pub use session::IntegritySession;
pub use vault::Config;

pub mod error;
pub mod fetch;
pub mod merkle_proof;
pub mod merkle_tree;
pub mod session;
pub mod store;
pub mod utils;
pub mod vault;
