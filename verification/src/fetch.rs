//! Fetching one file back from a vault, and accepting it only with a proof.
//!
//! A fetch cannot even begin for a vault without a committed root. Once
//! begun, it asks its owner for the file, then for the file's proof path, and
//! hands the bytes out only if the path leads to the committed root.

use crate::error::{MerkleError, VaultError};
use crate::merkle_proof::{path_root, MerkleProof};
use crate::merkle_tree::{lemma_proof_recomputes_root, proof_path, tree_root, PathStep};
use crate::utils::encoding::{hex_encoding, lemma_hex_encoding_injective};
use crate::vault::{get_root_hash_for_vault, Config};
use vstd::prelude::*;

verus! {

/// How far a fetch has come.
#[derive(Clone, Copy, Debug, PartialEq, Eq, Structural)]
pub enum FetchState {
    /// The file has been asked for.
    AwaitingFile,
    /// The file is here; its proof has been asked for.
    AwaitingProof,
    /// The proof led to the committed root. The fetch is over.
    Verified,
    /// The fetch has failed and is over.
    Rejected,
}

/// What the owner of a fetch reports to it.
#[derive(Debug)]
pub enum FetchEvent {
    /// The store sent the file.
    FileFetched { bytes: Vec<u8> },
    /// The store sent the proof path of the file.
    ProofFetched { path: MerkleProof },
    /// The action could not be carried out.
    Failed { reason: VaultError },
}

impl FetchEvent {
    /// What the store's answer to a request for a proof amounts to: the
    /// store refused unless it sent a path.
    pub fn proof_fetched(path: Option<MerkleProof>) -> (event: Self)
        ensures
            event == (match path {
                Some(p) => (FetchEvent::ProofFetched { path: p }),
                None => (FetchEvent::Failed { reason: VaultError::RemoteRejected }),
            }),
    {
        match path {
            Some(p) => FetchEvent::ProofFetched { path: p },
            None => FetchEvent::Failed { reason: VaultError::RemoteRejected },
        }
    }
}

/// What a fetch asks its owner to do next.
#[derive(Clone, Copy, Debug, PartialEq, Eq, Structural)]
pub enum FetchAction {
    /// Ask the store for the bytes of the file.
    FetchFile,
    /// Ask the store for the proof path of the file.
    FetchProof,
    /// Take the verified bytes. The fetch is over.
    Deliver,
    /// Report the failure. The fetch is over, and there are no bytes to use.
    Reject,
}

/// A fetch, as it stands in specifications.
pub struct FetchView {
    pub container_id: Seq<char>,
    pub file_name: Seq<char>,
    /// The committed root of the container, as hexadecimal text.
    pub trusted_root: Seq<char>,
    /// The bytes of the file, while they may still turn out to be genuine.
    pub bytes: Option<Seq<u8>>,
    pub state: FetchState,
    /// Why the fetch was rejected.
    pub failure: Option<VaultError>,
}

/// What a proof path says of a committed root: whether it leads there.
pub open spec fn verdict(path: Seq<PathStep>, trusted_root: Seq<char>)
    -> Result<(), VaultError> {
    if path.len() == 0 {
        Err(VaultError::Merkle(MerkleError::EmptyProof))
    } else if hex_encoding(path_root(path)) == trusted_root {
        Ok(())
    } else {
        Err(VaultError::IntegrityViolation)
    }
}

/// The reason for which `event` ends a fetch that does not wait for it.
pub open spec fn rejection_of(event: FetchEvent) -> VaultError {
    match event {
        FetchEvent::Failed { reason } => reason,
        _ => VaultError::RemoteRejected,
    }
}

impl FetchView {
    /// What holds of every fetch.
    pub open spec fn valid(self) -> bool {
        match self.state {
            FetchState::AwaitingFile => self.bytes is None && self.failure is None,
            FetchState::AwaitingProof | FetchState::Verified => self.bytes is Some
                && self.failure is None,
            FetchState::Rejected => self.bytes is None && self.failure is Some,
        }
    }

    /// The fetch is over.
    pub open spec fn is_over(self) -> bool {
        self.state == FetchState::Verified || self.state == FetchState::Rejected
    }

    /// The fetch, rejected for `reason`. The bytes are gone with it.
    pub open spec fn rejected(self, reason: VaultError) -> FetchView {
        FetchView { state: FetchState::Rejected, bytes: None, failure: Some(reason), ..self }
    }

    /// The action that the fetch asks for.
    pub open spec fn action(self) -> FetchAction {
        match self.state {
            FetchState::AwaitingFile => FetchAction::FetchFile,
            FetchState::AwaitingProof => FetchAction::FetchProof,
            FetchState::Verified => FetchAction::Deliver,
            FetchState::Rejected => FetchAction::Reject,
        }
    }

    /// The fetch after `event`.
    ///
    /// An event that the fetch does not wait for ends it, as a failure
    /// does. A fetch that is over stays as it is.
    pub open spec fn after(self, event: FetchEvent) -> FetchView {
        match self.state {
            FetchState::Verified | FetchState::Rejected => self,
            FetchState::AwaitingFile => match event {
                FetchEvent::FileFetched { bytes } => FetchView {
                    state: FetchState::AwaitingProof,
                    bytes: Some(bytes@),
                    ..self
                },
                _ => self.rejected(rejection_of(event)),
            },
            FetchState::AwaitingProof => match event {
                FetchEvent::ProofFetched { path } => match verdict(path@, self.trusted_root) {
                    Ok(_) => FetchView { state: FetchState::Verified, ..self },
                    Err(reason) => self.rejected(reason),
                },
                _ => self.rejected(rejection_of(event)),
            },
        }
    }
}

/// The download of one file of a vault.
pub struct VerifiedFetch {
    container_id: String,
    file_name: String,
    trusted_root: String,
    bytes: Option<Vec<u8>>,
    state: FetchState,
    failure: Option<VaultError>,
}

impl View for VerifiedFetch {
    type V = FetchView;

    closed spec fn view(&self) -> FetchView {
        FetchView {
            container_id: self.container_id@,
            file_name: self.file_name@,
            trusted_root: self.trusted_root@,
            bytes: match self.bytes {
                Some(b) => Some(b@),
                None => None,
            },
            state: self.state,
            failure: self.failure,
        }
    }
}

impl VerifiedFetch {
    #[verifier::type_invariant]
    spec fn well_formed(&self) -> bool {
        self@.valid()
    }

    /// Begins the download of the file `file_name` of the vault
    /// `container_id`.
    ///
    /// Fails with `UntrustedContainer` where `config` holds no committed root
    /// for the vault, and in no other case. Nothing has been asked of the
    /// store by then, and nothing will be: there is no fetch to ask for it.
    pub fn fetch_and_verify(config: &Config, container_id: &String, file_name: &String) -> (result:
        Result<Self, VaultError>)
        ensures
            match result {
                Ok(fetch) => {
                    &&& config.trusted_roots().contains_key(container_id@)
                    &&& fetch@ == (FetchView {
                        container_id: container_id@,
                        file_name: file_name@,
                        trusted_root: config.trusted_roots()[container_id@],
                        bytes: None,
                        state: FetchState::AwaitingFile,
                        failure: None,
                    })
                },
                Err(e) => !config.trusted_roots().contains_key(container_id@) && e
                    == VaultError::UntrustedContainer,
            },
    {
        match get_root_hash_for_vault(config, container_id) {
            Ok(trusted_root) => Ok(
                VerifiedFetch {
                    container_id: container_id.clone(),
                    file_name: file_name.clone(),
                    trusted_root,
                    bytes: None,
                    state: FetchState::AwaitingFile,
                    failure: None,
                },
            ),
            Err(e) => Err(e),
        }
    }

    /// How far the fetch has come.
    pub fn state(&self) -> (state: FetchState)
        ensures
            state == self@.state,
            self@.valid(),
    {
        proof {
            use_type_invariant(self);
        }
        self.state
    }

    /// Why the fetch was rejected, if it was.
    pub fn failure(&self) -> (failure: Option<VaultError>)
        ensures
            failure == self@.failure,
            failure is Some <==> self@.state == FetchState::Rejected,
    {
        proof {
            use_type_invariant(self);
        }
        self.failure
    }

    /// The vault the file is fetched from.
    pub fn container_id(&self) -> (id: &String)
        ensures
            id@ == self@.container_id,
    {
        &self.container_id
    }

    /// The name of the file that is fetched.
    pub fn file_name(&self) -> (name: &String)
        ensures
            name@ == self@.file_name,
    {
        &self.file_name
    }

    /// The committed root the proof is held against.
    pub fn trusted_root(&self) -> (root: &String)
        ensures
            root@ == self@.trusted_root,
    {
        &self.trusted_root
    }

    /// The action that the fetch asks for.
    pub fn action(&self) -> (action: FetchAction)
        ensures
            action == self@.action(),
    {
        match self.state {
            FetchState::AwaitingFile => FetchAction::FetchFile,
            FetchState::AwaitingProof => FetchAction::FetchProof,
            FetchState::Verified => FetchAction::Deliver,
            FetchState::Rejected => FetchAction::Reject,
        }
    }

    /// The fetch, rejected for `reason`.
    fn reject(self, reason: VaultError) -> (next: Self)
        ensures
            next@ == self@.rejected(reason),
    {
        VerifiedFetch {
            container_id: self.container_id,
            file_name: self.file_name,
            trusted_root: self.trusted_root,
            bytes: None,
            state: FetchState::Rejected,
            failure: Some(reason),
        }
    }

    /// Takes the fetch over `event` and returns it with the action it asks
    /// for next.
    pub fn step(self, event: FetchEvent) -> (next: (Self, FetchAction))
        ensures
            next.0@ == self@.after(event),
            next.1 == next.0@.action(),
            next.0@.valid(),
    {
        proof {
            use_type_invariant(&self);
        }
        let next = match self.state {
            FetchState::Verified | FetchState::Rejected => self,
            FetchState::AwaitingFile => match event {
                FetchEvent::FileFetched { bytes } => VerifiedFetch {
                    container_id: self.container_id,
                    file_name: self.file_name,
                    trusted_root: self.trusted_root,
                    bytes: Some(bytes),
                    state: FetchState::AwaitingProof,
                    failure: self.failure,
                },
                FetchEvent::Failed { reason } => self.reject(reason),
                _ => self.reject(VaultError::RemoteRejected),
            },
            FetchState::AwaitingProof => match event {
                FetchEvent::ProofFetched { path } => match check_proof(
                    &path,
                    &self.trusted_root,
                ) {
                    Ok(_) => VerifiedFetch {
                        container_id: self.container_id,
                        file_name: self.file_name,
                        trusted_root: self.trusted_root,
                        bytes: self.bytes,
                        state: FetchState::Verified,
                        failure: self.failure,
                    },
                    Err(reason) => self.reject(reason),
                },
                FetchEvent::Failed { reason } => self.reject(reason),
                _ => self.reject(VaultError::RemoteRejected),
            },
        };
        proof {
            use_type_invariant(&next);
        }
        let action = next.action();
        (next, action)
    }

    /// Hands out the bytes of the file if they are verified, and nothing
    /// otherwise.
    pub fn into_bytes(self) -> (bytes: Option<Vec<u8>>)
        ensures
            match bytes {
                Some(b) => self@.state == FetchState::Verified && self@.bytes == Some(b@),
                None => self@.state != FetchState::Verified,
            },
    {
        proof {
            use_type_invariant(&self);
        }
        match self.state {
            FetchState::Verified => self.bytes,
            _ => None,
        }
    }
}

/// Holds a proof path against a committed root, given as hexadecimal text.
///
/// Fails with `EmptyProof` on a path without elements, and with
/// `IntegrityViolation` on a path that leads anywhere else.
pub fn check_proof(path: &MerkleProof, trusted_root: &String) -> (result: Result<(), VaultError>)
    ensures
        result == verdict(path@, trusted_root@),
{
    match path.compute_root_hex() {
        Ok(text) => if text == *trusted_root {
            Ok(())
        } else {
            Err(VaultError::IntegrityViolation)
        },
        Err(e) => Err(VaultError::Merkle(e)),
    }
}

/// The outcome of looking for a file by its name in all known vaults.
#[derive(Debug)]
pub enum Located {
    /// No vault holds a file of that name.
    NotFound,
    /// More than one vault holds a file of that name.
    Ambiguous,
    /// Exactly one vault holds a file of that name.
    Unique { vault_id: String, file: String },
}

/// Decides which file to download, given for each vault that holds a file of
/// the wanted name the vault and the file: a download needs exactly one.
pub fn locate(mut matches: Vec<(String, String)>) -> (located: Located)
    ensures
        match located {
            Located::NotFound => matches@.len() == 0,
            Located::Ambiguous => matches@.len() > 1,
            Located::Unique { vault_id, file } => matches@.len() == 1 && matches@[0] == (
                vault_id,
                file,
            ),
        },
{
    if matches.len() == 0 {
        Located::NotFound
    } else if matches.len() > 1 {
        Located::Ambiguous
    } else {
        match matches.pop() {
            Some((vault_id, file)) => Located::Unique { vault_id, file },
            None => Located::NotFound,
        }
    }
}

/// No event breaks a fetch: what holds of every fetch holds after the event
/// too, and what is fetched and the root it is held against do not change.
pub proof fn lemma_event_keeps_fetch_valid(fetch: FetchView, event: FetchEvent)
    requires
        fetch.valid(),
    ensures
        fetch.after(event).valid(),
        fetch.after(event).container_id == fetch.container_id,
        fetch.after(event).file_name == fetch.file_name,
        fetch.after(event).trusted_root == fetch.trusted_root,
{
}

/// Bytes are verified by a proof and by nothing else: a fetch becomes
/// `Verified` only on a proof path that leads to the committed root, and
/// then it still holds the bytes it held before.
pub proof fn lemma_verified_needs_proof(fetch: FetchView, event: FetchEvent)
    requires
        fetch.valid(),
        fetch.state != FetchState::Verified,
        fetch.after(event).state == FetchState::Verified,
    ensures
        fetch.state == FetchState::AwaitingProof,
        event matches FetchEvent::ProofFetched { path } && path@.len() > 0 && hex_encoding(
            path_root(path@),
        ) == fetch.trusted_root,
        fetch.after(event).bytes == fetch.bytes,
{
}

/// A path that leads elsewhere than to the committed root is an integrity
/// violation: the fetch is rejected and holds no bytes any more.
pub proof fn lemma_wrong_proof_rejects(fetch: FetchView, event: FetchEvent)
    requires
        fetch.valid(),
        fetch.state == FetchState::AwaitingProof,
        event matches FetchEvent::ProofFetched { path } && path@.len() > 0 && hex_encoding(
            path_root(path@),
        ) != fetch.trusted_root,
    ensures
        fetch.after(event).state == FetchState::Rejected,
        fetch.after(event).failure == Some(VaultError::IntegrityViolation),
        fetch.after(event).bytes is None,
        fetch.after(event).action() == FetchAction::Reject,
{
}

/// An honest store is believed: where the committed root is the root of the
/// tree over `leaves`, the proof path of any of the leaves is accepted.
pub proof fn lemma_honest_proof_is_accepted(leaves: Seq<Seq<u8>>, index: int)
    requires
        0 <= index < leaves.len(),
    ensures
        verdict(proof_path(leaves, index), hex_encoding(tree_root(leaves))) == Ok::<
            (),
            VaultError,
        >(()),
{
    lemma_proof_recomputes_root(leaves, index);
}

/// What is accepted leads to the committed root: a path that is accepted
/// against the text of a root leads to that very root.
pub proof fn lemma_accepted_proof_leads_to_root(
    path: Seq<PathStep>,
    root: Seq<u8>,
)
    requires
        verdict(path, hex_encoding(root)) is Ok,
    ensures
        path.len() > 0,
        path_root(path) == root,
{
    lemma_hex_encoding_injective(path_root(path), root);
}

} // verus!
