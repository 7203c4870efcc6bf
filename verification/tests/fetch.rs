use merkle_vault::error::{MerkleError, VaultError};
use merkle_vault::fetch::{
    check_proof, locate, FetchAction, FetchEvent, FetchState, Located, VerifiedFetch,
};
use merkle_vault::merkle_proof::MerkleProof;
use merkle_vault::merkle_tree::MerkleTree;
use merkle_vault::session::{compute_local_root, leaf_hashes};
use merkle_vault::utils::crypto::hash;
use merkle_vault::vault::{save_vault_root_hash, Config};

fn contents(items: &[&str]) -> Vec<Vec<u8>> {
    items.iter().map(|s| s.as_bytes().to_vec()).collect()
}

fn committed(vault: &str, data: &[&str]) -> Config {
    let mut config = Config::new(Vec::new(), vec![vault.to_string()]);
    let root = compute_local_root(&contents(data)).unwrap();
    save_vault_root_hash(&mut config, &vault.to_string(), &root);
    config
}

fn remote_proof(data: &[&str], file: &str) -> MerkleProof {
    let tree = MerkleTree::from_leaves(leaf_hashes(&contents(data)));
    tree.proof_for(hash(&file.as_bytes().to_vec())).unwrap()
}

#[test]
fn fetch_without_trust_record_is_refused_at_once() {
    let config = Config::new(Vec::new(), vec!["v-1".to_string()]);
    let refused =
        VerifiedFetch::fetch_and_verify(&config, &"v-1".to_string(), &"a.txt".to_string());
    assert_eq!(refused.err(), Some(VaultError::UntrustedContainer));
}

#[test]
fn fetch_accepts_a_file_with_a_genuine_proof() {
    let data = ["one", "two", "three", "four", "five"];
    let config = committed("v-1", &data);
    let fetch =
        VerifiedFetch::fetch_and_verify(&config, &"v-1".to_string(), &"three.txt".to_string())
            .unwrap();
    assert_eq!(fetch.state(), FetchState::AwaitingFile);
    assert_eq!(fetch.action(), FetchAction::FetchFile);
    assert_eq!(fetch.container_id(), "v-1");
    assert_eq!(fetch.file_name(), "three.txt");
    assert_eq!(fetch.trusted_root(), &compute_local_root(&contents(&data)).unwrap());

    let (fetch, action) = fetch.step(FetchEvent::FileFetched { bytes: b"three".to_vec() });
    assert_eq!(fetch.state(), FetchState::AwaitingProof);
    assert_eq!(action, FetchAction::FetchProof);

    let (fetch, action) =
        fetch.step(FetchEvent::proof_fetched(Some(remote_proof(&data, "three"))));
    assert_eq!(fetch.state(), FetchState::Verified);
    assert_eq!(action, FetchAction::Deliver);
    assert_eq!(fetch.failure(), None);
    assert_eq!(fetch.into_bytes(), Some(b"three".to_vec()));
}

#[test]
fn fetch_rejects_a_proof_for_another_batch() {
    let config = committed("v-1", &["one", "two", "three"]);
    let fetch =
        VerifiedFetch::fetch_and_verify(&config, &"v-1".to_string(), &"two.txt".to_string())
            .unwrap();
    let (fetch, _) = fetch.step(FetchEvent::FileFetched { bytes: b"2".to_vec() });
    let forged = remote_proof(&["one", "2", "three"], "2");
    let (fetch, action) = fetch.step(FetchEvent::ProofFetched { path: forged });
    assert_eq!(fetch.state(), FetchState::Rejected);
    assert_eq!(action, FetchAction::Reject);
    assert_eq!(fetch.failure(), Some(VaultError::IntegrityViolation));
    assert_eq!(fetch.into_bytes(), None);
}

#[test]
fn fetch_rejects_an_empty_proof() {
    let config = committed("v-1", &["one"]);
    let fetch =
        VerifiedFetch::fetch_and_verify(&config, &"v-1".to_string(), &"one.txt".to_string())
            .unwrap();
    let (fetch, _) = fetch.step(FetchEvent::FileFetched { bytes: b"one".to_vec() });
    let (fetch, action) = fetch.step(FetchEvent::ProofFetched { path: MerkleProof::new(Vec::new()) });
    assert_eq!(action, FetchAction::Reject);
    assert_eq!(fetch.failure(), Some(VaultError::Merkle(MerkleError::EmptyProof)));
    assert_eq!(fetch.into_bytes(), None);
}

#[test]
fn fetch_fails_when_the_store_fails() {
    let config = committed("v-1", &["one"]);
    let fetch =
        VerifiedFetch::fetch_and_verify(&config, &"v-1".to_string(), &"one.txt".to_string())
            .unwrap();
    let (fetch, action) = fetch.step(FetchEvent::Failed { reason: VaultError::RemoteUnavailable });
    assert_eq!(fetch.state(), FetchState::Rejected);
    assert_eq!(action, FetchAction::Reject);
    assert_eq!(fetch.failure(), Some(VaultError::RemoteUnavailable));

    let fetch =
        VerifiedFetch::fetch_and_verify(&config, &"v-1".to_string(), &"one.txt".to_string())
            .unwrap();
    let (fetch, _) = fetch.step(FetchEvent::FileFetched { bytes: b"one".to_vec() });
    let (fetch, action) = fetch.step(FetchEvent::proof_fetched(None));
    assert_eq!(action, FetchAction::Reject);
    assert_eq!(fetch.failure(), Some(VaultError::RemoteRejected));
    let (fetch, action) = fetch.step(FetchEvent::FileFetched { bytes: b"one".to_vec() });
    assert_eq!(action, FetchAction::Reject);
    assert_eq!(fetch.into_bytes(), None);
}

#[test]
fn proof_before_file_ends_the_fetch() {
    let config = committed("v-1", &["one"]);
    let fetch =
        VerifiedFetch::fetch_and_verify(&config, &"v-1".to_string(), &"one.txt".to_string())
            .unwrap();
    let (fetch, action) =
        fetch.step(FetchEvent::ProofFetched { path: remote_proof(&["one"], "one") });
    assert_eq!(fetch.state(), FetchState::Rejected);
    assert_eq!(action, FetchAction::Reject);
    assert_eq!(fetch.failure(), Some(VaultError::RemoteRejected));
}

#[test]
fn check_proof_holds_a_path_against_a_root() {
    let data = ["a", "b", "c", "d", "e", "f"];
    let root = compute_local_root(&contents(&data)).unwrap();
    let proof = remote_proof(&data, "e");
    assert_eq!(check_proof(&proof, &root), Ok(()));
    assert_eq!(
        check_proof(&proof, &root.to_uppercase()),
        Err(VaultError::IntegrityViolation)
    );
    assert_eq!(
        check_proof(&MerkleProof::new(Vec::new()), &root),
        Err(VaultError::Merkle(MerkleError::EmptyProof))
    );
}

#[test]
fn download_needs_exactly_one_match() {
    assert!(matches!(locate(Vec::new()), Located::NotFound));
    let one = vec![("v-1".to_string(), "a.txt".to_string())];
    match locate(one) {
        Located::Unique { vault_id, file } => {
            assert_eq!(vault_id, "v-1");
            assert_eq!(file, "a.txt");
        }
        other => panic!("unexpected {:?}", other),
    }
    let two = vec![
        ("v-1".to_string(), "a.txt".to_string()),
        ("v-2".to_string(), "a.txt".to_string()),
    ];
    assert!(matches!(locate(two), Located::Ambiguous));
}

#[test]
fn honest_store_is_believed() {
    let data = contents(&["one", "two", "three", "four", "five", "six", "seven"]);
    let root = merkle_vault::store::finalize_vault(&data).unwrap();
    assert_eq!(Some(root.clone()), compute_local_root(&data));
    for file in &data {
        let proof = merkle_vault::store::download_proof(&data, file).unwrap();
        assert_eq!(proof.nodes[0].hash, hash(file));
        assert_eq!(check_proof(&proof, &root), Ok(()));
    }
    assert_eq!(merkle_vault::store::finalize_vault(&Vec::new()), None);
}

#[test]
fn store_cannot_prove_what_it_does_not_hold() {
    let data = contents(&["one", "two"]);
    assert_eq!(
        merkle_vault::store::download_proof(&data, &b"three".to_vec()).unwrap_err(),
        MerkleError::LeafNotFound
    );
    assert_eq!(
        merkle_vault::store::download_proof(&Vec::new(), &b"one".to_vec()).unwrap_err(),
        MerkleError::EmptyTree
    );
}
