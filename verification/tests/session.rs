use merkle_vault::error::VaultError;
use merkle_vault::merkle_tree::MerkleTree;
use merkle_vault::session::{
    compute_local_root, leaf_hashes, IntegritySession, SessionAction, SessionEvent, SessionState,
};
use merkle_vault::utils::crypto::hash;
use merkle_vault::vault::{
    get_all_vaults, get_root_hash_for_vault, get_staged_files, Config,
};

fn strings(items: &[&str]) -> Vec<String> {
    items.iter().map(|s| s.to_string()).collect()
}

fn contents(items: &[&str]) -> Vec<Vec<u8>> {
    items.iter().map(|s| s.as_bytes().to_vec()).collect()
}

fn staged_session(files: &[&str], data: &[&str]) -> IntegritySession {
    let root = compute_local_root(&contents(data)).unwrap();
    IntegritySession::new(strings(files), root).unwrap()
}

fn created(id: &str) -> SessionEvent {
    SessionEvent::ContainerCreated { container_id: id.to_string() }
}

#[test]
fn local_root_is_the_hex_root_of_the_tree_over_the_digests() {
    let data = contents(&["a", "b", "c", "d", "e", "f"]);
    let leaves: Vec<Vec<u8>> = data.iter().map(|d| hash(d)).collect();
    assert_eq!(leaf_hashes(&data), leaves);
    let tree = MerkleTree::from_leaves(leaves);
    assert_eq!(compute_local_root(&data), tree.root_hex());
    assert_eq!(compute_local_root(&data).unwrap(), hex::encode(tree.root().unwrap()));
    assert_eq!(compute_local_root(&Vec::new()), None);
}

#[test]
fn two_independent_builds_agree_and_a_proof_leads_to_the_root() {
    let data = contents(&["a", "b", "c", "d", "e", "f"]);
    let client = MerkleTree::from_leaves(leaf_hashes(&data));
    let remote = MerkleTree::from_leaves(leaf_hashes(&data));
    assert_eq!(client.root(), remote.root());
    assert_eq!(client.root_hex(), remote.root_hex());
    let proof = remote.proof_for(hash(&b"a".to_vec())).unwrap();
    assert_eq!(proof.compute_root().unwrap(), *client.root().unwrap());
    assert_eq!(proof.compute_root_hex().unwrap(), client.root_hex().unwrap());
}

#[test]
fn no_session_for_an_empty_batch() {
    assert!(IntegritySession::new(Vec::new(), "00".to_string()).is_none());
    assert!(IntegritySession::stage(Vec::new(), &Vec::new()).is_none());
}

#[test]
fn staging_computes_the_local_root() {
    let data = contents(&["one", "two", "three"]);
    let session = IntegritySession::stage(strings(&["/f/1", "/f/2", "/f/3"]), &data).unwrap();
    assert_eq!(session.state(), SessionState::Staged);
    assert_eq!(session.action(), SessionAction::CreateContainer);
    assert_eq!(session.local_root(), &compute_local_root(&data).unwrap());
    assert_eq!(session.file(1), Some(&"/f/2".to_string()));
    assert!(IntegritySession::stage(strings(&["/f/1", "/f/2"]), &data).is_none());
}

#[test]
fn session_commits_when_roots_agree() {
    let data = ["one", "two", "three"];
    let session = staged_session(&["/f/1", "/f/2", "/f/3"], &data);
    let mut config = Config::new(strings(&["/f/1", "/f/2", "/f/3"]), Vec::new());
    assert_eq!(session.state(), SessionState::Staged);
    assert_eq!(session.action(), SessionAction::CreateContainer);
    assert!(session.container_id().is_none());

    let (session, action) = session.step(created("v-1"));
    assert_eq!(session.state(), SessionState::ContainerCreated);
    assert_eq!(action, SessionAction::UploadFile { index: 0 });
    assert_eq!(session.container_id(), Some(&"v-1".to_string()));
    assert_eq!(session.file(0), Some(&"/f/1".to_string()));

    let (session, action) = session.step(SessionEvent::FileUploaded);
    assert_eq!(session.state(), SessionState::Uploading);
    assert_eq!(action, SessionAction::UploadFile { index: 1 });
    let (session, action) = session.step(SessionEvent::FileUploaded);
    assert_eq!(action, SessionAction::UploadFile { index: 2 });
    assert_eq!(session.file(2), Some(&"/f/3".to_string()));
    assert_eq!(session.file(3), None);
    let (session, action) = session.step(SessionEvent::FileUploaded);
    assert_eq!(session.state(), SessionState::Uploading);
    assert_eq!(action, SessionAction::Finalize);

    assert!(!session.record_commit(&mut config));
    assert_eq!(
        get_root_hash_for_vault(&config, &"v-1".to_string()),
        Err(VaultError::UntrustedContainer)
    );

    let remote_root = compute_local_root(&contents(&data)).unwrap();
    let (session, action) = session.step(SessionEvent::Finalized { remote_root });
    assert_eq!(session.state(), SessionState::Finalized);
    assert_eq!(action, SessionAction::SaveTrustRecord);
    assert!(!session.is_over());

    assert!(!session.release_staging(&mut config));
    assert!(session.record_commit(&mut config));
    assert_eq!(
        get_root_hash_for_vault(&config, &"v-1".to_string()),
        Ok(session.local_root().clone())
    );
    assert_eq!(get_all_vaults(&config), strings(&["v-1"]));
    assert_eq!(get_staged_files(&config).len(), 3);

    let (session, action) = session.step(SessionEvent::RecordSaved);
    assert_eq!(session.state(), SessionState::Committed);
    assert_eq!(action, SessionAction::ReleaseFiles);
    assert!(session.is_over());
    assert_eq!(session.failure(), None);
    assert!(session.release_staging(&mut config));
    assert!(get_staged_files(&config).is_empty());

    let (session, action) = session.step(SessionEvent::Failed { reason: VaultError::RemoteUnavailable });
    assert_eq!(session.state(), SessionState::Committed);
    assert_eq!(action, SessionAction::ReleaseFiles);
}

#[test]
fn store_that_drops_a_file_is_found_out() {
    let session = staged_session(&["/f/1", "/f/2", "/f/3"], &["one", "two", "three"]);
    let mut config = Config::new(strings(&["/f/1", "/f/2", "/f/3"]), Vec::new());
    let (session, _) = session.step(created("v-9"));
    let (session, _) = session.step(SessionEvent::FileUploaded);
    let (session, _) = session.step(SessionEvent::FileUploaded);
    let (session, action) = session.step(SessionEvent::FileUploaded);
    assert_eq!(action, SessionAction::Finalize);

    let remote_root = compute_local_root(&contents(&["one", "three"])).unwrap();
    assert_ne!(&remote_root, session.local_root());
    let (session, action) = session.step(SessionEvent::finalized(Some(remote_root)));
    assert_eq!(session.state(), SessionState::Aborted);
    assert_eq!(action, SessionAction::DeleteContainer);
    assert_eq!(session.container_id(), Some(&"v-9".to_string()));
    assert_eq!(session.failure(), Some(VaultError::IntegrityViolation));
    assert!(session.is_over());

    assert!(!session.record_commit(&mut config));
    assert!(!session.release_staging(&mut config));
    assert_eq!(
        get_root_hash_for_vault(&config, &"v-9".to_string()),
        Err(VaultError::UntrustedContainer)
    );
    assert_eq!(get_staged_files(&config), strings(&["/f/1", "/f/2", "/f/3"]));
    assert!(get_all_vaults(&config).is_empty());
}

#[test]
fn store_that_reorders_files_is_found_out() {
    let session = staged_session(&["/f/1", "/f/2"], &["one", "two"]);
    let (session, _) = session.step(created("v-2"));
    let (session, _) = session.step(SessionEvent::FileUploaded);
    let (session, _) = session.step(SessionEvent::FileUploaded);
    let remote_root = compute_local_root(&contents(&["two", "one"])).unwrap();
    let (session, action) = session.step(SessionEvent::Finalized { remote_root });
    assert_eq!(session.state(), SessionState::Aborted);
    assert_eq!(action, SessionAction::DeleteContainer);
    assert_eq!(session.failure(), Some(VaultError::IntegrityViolation));
}

#[test]
fn failed_creation_leaves_nothing_to_undo() {
    let session = staged_session(&["/f/1"], &["one"]);
    let (session, action) = session.step(SessionEvent::container_created(None));
    assert_eq!(session.state(), SessionState::Aborted);
    assert_eq!(action, SessionAction::ReportFailure);
    assert_eq!(session.failure(), Some(VaultError::RemoteRejected));
    assert!(session.container_id().is_none());

    let session = staged_session(&["/f/1"], &["one"]);
    let (session, action) =
        session.step(SessionEvent::Failed { reason: VaultError::RemoteUnavailable });
    assert_eq!(action, SessionAction::ReportFailure);
    assert_eq!(session.failure(), Some(VaultError::RemoteUnavailable));
}

#[test]
fn failed_upload_deletes_the_container() {
    let session = staged_session(&["/f/1", "/f/2"], &["one", "two"]);
    let (session, _) = session.step(SessionEvent::container_created(Some("v-3".to_string())));
    let (session, action) = session.step(SessionEvent::file_uploaded(true));
    assert_eq!(action, SessionAction::UploadFile { index: 1 });
    let (session, action) = session.step(SessionEvent::file_uploaded(false));
    assert_eq!(session.state(), SessionState::Aborted);
    assert_eq!(action, SessionAction::DeleteContainer);
    assert_eq!(session.failure(), Some(VaultError::RemoteRejected));
    let (session, action) = session.step(SessionEvent::FileUploaded);
    assert_eq!(session.state(), SessionState::Aborted);
    assert_eq!(action, SessionAction::DeleteContainer);
}

#[test]
fn failed_finalization_deletes_the_container() {
    let session = staged_session(&["/f/1"], &["one"]);
    let (session, _) = session.step(created("v-4"));
    let (session, action) = session.step(SessionEvent::FileUploaded);
    assert_eq!(action, SessionAction::Finalize);
    let (session, action) = session.step(SessionEvent::finalized(None));
    assert_eq!(session.state(), SessionState::Aborted);
    assert_eq!(action, SessionAction::DeleteContainer);
    assert_eq!(session.failure(), Some(VaultError::RemoteRejected));
}

#[test]
fn failed_record_deletes_the_container() {
    let session = staged_session(&["/f/1"], &["one"]);
    let (session, _) = session.step(created("v-5"));
    let (session, _) = session.step(SessionEvent::FileUploaded);
    let root = session.local_root().clone();
    let (session, action) = session.step(SessionEvent::Finalized { remote_root: root });
    assert_eq!(action, SessionAction::SaveTrustRecord);
    let (session, action) =
        session.step(SessionEvent::Failed { reason: VaultError::LocalFailure });
    assert_eq!(session.state(), SessionState::Aborted);
    assert_eq!(action, SessionAction::DeleteContainer);
    assert_eq!(session.failure(), Some(VaultError::LocalFailure));
}

#[test]
fn event_out_of_turn_aborts_the_session() {
    let session = staged_session(&["/f/1", "/f/2"], &["one", "two"]);
    let (session, action) = session.step(SessionEvent::FileUploaded);
    assert_eq!(session.state(), SessionState::Aborted);
    assert_eq!(action, SessionAction::ReportFailure);
    assert_eq!(session.failure(), Some(VaultError::RemoteRejected));

    let session = staged_session(&["/f/1", "/f/2"], &["one", "two"]);
    let (session, _) = session.step(created("v-6"));
    let root = session.local_root().clone();
    let (session, action) = session.step(SessionEvent::Finalized { remote_root: root });
    assert_eq!(session.state(), SessionState::Aborted);
    assert_eq!(action, SessionAction::DeleteContainer);
    assert_eq!(session.failure(), Some(VaultError::RemoteRejected));

    let session = staged_session(&["/f/1"], &["one"]);
    let (session, _) = session.step(created("v-7"));
    let (session, _) = session.step(SessionEvent::FileUploaded);
    let (session, action) = session.step(SessionEvent::RecordSaved);
    assert_eq!(session.state(), SessionState::Aborted);
    assert_eq!(action, SessionAction::DeleteContainer);
}

#[test]
fn upper_case_root_is_not_the_local_root() {
    let session = staged_session(&["/f/1"], &["one"]);
    let (session, _) = session.step(created("v-8"));
    let (session, _) = session.step(SessionEvent::FileUploaded);
    let shouted = session.local_root().to_uppercase();
    let (session, action) = session.step(SessionEvent::Finalized { remote_root: shouted });
    assert_eq!(session.state(), SessionState::Aborted);
    assert_eq!(action, SessionAction::DeleteContainer);
}
