use merkle_vault::error::{MerkleError, VaultError};
use merkle_vault::utils::crypto::{hash, hash_nodes, join_bytes, same_bytes, DIGEST_LEN};

#[test]
fn hash_is_sha256() {
    assert_eq!(
        hex::encode(hash(&b"abc".to_vec())),
        "ba7816bf8f01cfea414140de5dae2223b00361a396177a9cb410ff61f20015ad"
    );
    assert_eq!(
        hex::encode(hash(&Vec::new())),
        "e3b0c44298fc1c149afbf4c8996fb92427ae41e4649b934ca495991b7852b855"
    );
    assert_eq!(hash(&b"abc".to_vec()).len(), DIGEST_LEN);
    assert_eq!(DIGEST_LEN, 32);
}

#[test]
fn hash_nodes_hashes_left_then_right() {
    let left = hash(&b"a".to_vec());
    let right = hash(&b"b".to_vec());
    let joined = [left.clone(), right.clone()].concat();
    assert_eq!(join_bytes(&left, &right), joined);
    assert_eq!(hash_nodes(&left, &right), hash(&joined));
    assert_ne!(hash_nodes(&left, &right), hash_nodes(&right, &left));
    assert_eq!(
        hex::encode(hash_nodes(&left, &right)),
        "e5a01fee14e0ed5c48714f22180f25ad8365b53f9779f79dc4a3d7e93963f94a"
    );
}

#[test]
fn join_bytes_keeps_both_parts_in_order() {
    assert_eq!(join_bytes(&vec![1, 2], &vec![3]), vec![1, 2, 3]);
    assert_eq!(join_bytes(&Vec::new(), &vec![7]), vec![7]);
    assert_eq!(join_bytes(&vec![7], &Vec::new()), vec![7]);
}

#[test]
fn same_bytes_compares_byte_for_byte() {
    assert!(same_bytes(&vec![1, 2, 3], &vec![1, 2, 3]));
    assert!(!same_bytes(&vec![1, 2, 3], &vec![1, 2]));
    assert!(!same_bytes(&vec![1, 2, 3], &vec![1, 2, 4]));
    assert!(same_bytes(&Vec::new(), &Vec::new()));
}

#[test]
fn errors_have_their_messages() {
    assert_eq!(MerkleError::EmptyTree.message(), "Tree is empty");
    assert_eq!(MerkleError::EmptyProof.message(), "missing proof");
    assert_eq!(MerkleError::LeafNotFound.message(), "Leaf not found");
    assert_ne!(VaultError::Merkle(MerkleError::EmptyProof), VaultError::IntegrityViolation);
}
