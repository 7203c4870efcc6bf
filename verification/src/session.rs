//! The transfer of a staged batch into a new vault.
//!
//! The session decides; it never talks to the store itself. Its owner
//! performs the action the session asks for, reports what came of it as an
//! event, and gets the next action in return. A batch is committed only
//! after the store has rebuilt the tree over what it holds and reported the
//! very root that was computed locally before the transfer began; every
//! failure after the container exists asks for the container to be deleted.

use crate::error::VaultError;
use crate::merkle_tree::{digests_of, tree_root, MerkleTree};
use crate::utils::crypto;
use crate::utils::crypto::{hash, sha256};
use crate::utils::encoding::hex_encoding;
use crate::vault::{clear_staging, remember_vault, save_vault_root_hash, texts_of, Config};
use vstd::prelude::*;

verus! {

/// How far a session has come.
#[derive(Clone, Copy, Debug, PartialEq, Eq, Structural)]
pub enum SessionState {
    /// Nothing has been sent yet.
    Staged,
    /// The store has created the container; no file has been stored yet.
    ContainerCreated,
    /// At least one file has been stored.
    Uploading,
    /// The store has reported the root that was expected.
    Finalized,
    /// The trust record is saved. The session is over.
    Committed,
    /// The session has failed and is over.
    Aborted,
}

/// What the owner of a session reports to it.
#[derive(Debug)]
pub enum SessionEvent {
    /// The store created a container and named it.
    ContainerCreated { container_id: String },
    /// The store accepted the file that was sent last.
    FileUploaded,
    /// The store rebuilt the tree over the files it holds and reported its
    /// root.
    Finalized { remote_root: String },
    /// The trust record was saved.
    RecordSaved,
    /// The action could not be carried out.
    Failed { reason: VaultError },
}

impl SessionEvent {
    /// What the store's answer to a request for a container amounts to: the
    /// container exists if the store named it, else the store refused.
    pub fn container_created(vault_id: Option<String>) -> (event: Self)
        ensures
            event == (match vault_id {
                Some(id) => (SessionEvent::ContainerCreated { container_id: id }),
                None => (SessionEvent::Failed { reason: VaultError::RemoteRejected }),
            }),
    {
        match vault_id {
            Some(id) => SessionEvent::ContainerCreated { container_id: id },
            None => SessionEvent::Failed { reason: VaultError::RemoteRejected },
        }
    }

    /// What the store's answer to an upload amounts to.
    pub fn file_uploaded(success: bool) -> (event: Self)
        ensures
            event == (if success {
                SessionEvent::FileUploaded
            } else {
                (SessionEvent::Failed { reason: VaultError::RemoteRejected })
            }),
    {
        if success {
            SessionEvent::FileUploaded
        } else {
            SessionEvent::Failed { reason: VaultError::RemoteRejected }
        }
    }

    /// What the store's answer to a request for its root amounts to: the
    /// store refused unless it reported a root.
    pub fn finalized(tree_root: Option<String>) -> (event: Self)
        ensures
            event == (match tree_root {
                Some(root) => (SessionEvent::Finalized { remote_root: root }),
                None => (SessionEvent::Failed { reason: VaultError::RemoteRejected }),
            }),
    {
        match tree_root {
            Some(root) => SessionEvent::Finalized { remote_root: root },
            None => SessionEvent::Failed { reason: VaultError::RemoteRejected },
        }
    }
}

/// What a session asks its owner to do next.
#[derive(Clone, Copy, Debug, PartialEq, Eq, Structural)]
pub enum SessionAction {
    /// Ask the store for a new, empty container.
    CreateContainer,
    /// Send the staged file at position `index` to the container.
    UploadFile { index: usize },
    /// Ask the store for the root of the tree over what it holds.
    Finalize,
    /// Save the local root as the trust record of the container.
    SaveTrustRecord,
    /// Delete the local copies of the staged files and empty the staging
    /// area. The session is over.
    ReleaseFiles,
    /// Ask the store to delete the container, whatever comes of it, and
    /// report the failure. The session is over; no local file is touched.
    DeleteContainer,
    /// Report the failure. The session is over; there is nothing to undo.
    ReportFailure,
}

/// A session, as it stands in specifications.
pub struct SessionView {
    /// The staged files, in the order in which they are sent.
    pub files: Seq<Seq<char>>,
    /// The root computed over the staged files before anything was sent.
    pub local_root: Seq<char>,
    /// The name of the container, once the store has assigned one.
    pub container_id: Option<Seq<char>>,
    /// How many files the store has accepted.
    pub uploaded: nat,
    /// The root the store reported, once it has been accepted.
    pub remote_root: Option<Seq<char>>,
    pub state: SessionState,
    /// Why the session was aborted.
    pub failure: Option<VaultError>,
}

impl SessionView {
    /// What holds of every session.
    pub open spec fn valid(self) -> bool {
        &&& 0 < self.files.len() <= usize::MAX
        &&& self.uploaded <= self.files.len()
        &&& match self.state {
            SessionState::Staged => {
                &&& self.container_id is None
                &&& self.uploaded == 0
                &&& self.remote_root is None
                &&& self.failure is None
            },
            SessionState::ContainerCreated => {
                &&& self.container_id is Some
                &&& self.uploaded == 0
                &&& self.remote_root is None
                &&& self.failure is None
            },
            SessionState::Uploading => {
                &&& self.container_id is Some
                &&& self.uploaded >= 1
                &&& self.remote_root is None
                &&& self.failure is None
            },
            SessionState::Finalized | SessionState::Committed => {
                &&& self.container_id is Some
                &&& self.uploaded == self.files.len()
                &&& self.remote_root == Some(self.local_root)
                &&& self.failure is None
            },
            SessionState::Aborted => self.failure is Some,
        }
    }

    /// The session is over.
    pub open spec fn is_over(self) -> bool {
        self.state == SessionState::Committed || self.state == SessionState::Aborted
    }

    /// The session, aborted for `reason`.
    pub open spec fn aborted(self, reason: VaultError) -> SessionView {
        SessionView { state: SessionState::Aborted, failure: Some(reason), ..self }
    }

    /// The action that the session asks for.
    pub open spec fn action(self) -> SessionAction {
        match self.state {
            SessionState::Staged => SessionAction::CreateContainer,
            SessionState::ContainerCreated => SessionAction::UploadFile { index: 0 },
            SessionState::Uploading => if self.uploaded < self.files.len() {
                SessionAction::UploadFile { index: self.uploaded as usize }
            } else {
                SessionAction::Finalize
            },
            SessionState::Finalized => SessionAction::SaveTrustRecord,
            SessionState::Committed => SessionAction::ReleaseFiles,
            SessionState::Aborted => if self.container_id is Some {
                SessionAction::DeleteContainer
            } else {
                SessionAction::ReportFailure
            },
        }
    }

    /// The session after `event`.
    ///
    /// An event that the session does not wait for aborts it, as a failure
    /// does. A session that is over stays as it is.
    pub open spec fn after(self, event: SessionEvent) -> SessionView {
        match self.state {
            SessionState::Committed | SessionState::Aborted => self,
            SessionState::Staged => match event {
                SessionEvent::ContainerCreated { container_id } => SessionView {
                    state: SessionState::ContainerCreated,
                    container_id: Some(container_id@),
                    ..self
                },
                _ => self.aborted(failure_of(event)),
            },
            SessionState::ContainerCreated | SessionState::Uploading => if self.uploaded
                < self.files.len() {
                match event {
                    SessionEvent::FileUploaded => SessionView {
                        state: SessionState::Uploading,
                        uploaded: self.uploaded + 1,
                        ..self
                    },
                    _ => self.aborted(failure_of(event)),
                }
            } else {
                match event {
                    SessionEvent::Finalized { remote_root } => if remote_root@
                        == self.local_root {
                        SessionView {
                            state: SessionState::Finalized,
                            remote_root: Some(remote_root@),
                            ..self
                        }
                    } else {
                        self.aborted(VaultError::IntegrityViolation)
                    },
                    _ => self.aborted(failure_of(event)),
                }
            },
            SessionState::Finalized => match event {
                SessionEvent::RecordSaved => SessionView {
                    state: SessionState::Committed,
                    ..self
                },
                _ => self.aborted(failure_of(event)),
            },
        }
    }
}

/// The reason for which `event` aborts a session that does not wait for it.
pub open spec fn failure_of(event: SessionEvent) -> VaultError {
    match event {
        SessionEvent::Failed { reason } => reason,
        _ => VaultError::RemoteRejected,
    }
}

/// The transfer of one staged batch.
pub struct IntegritySession {
    files: Vec<String>,
    local_root: String,
    container_id: Option<String>,
    uploaded: usize,
    remote_root: Option<String>,
    state: SessionState,
    failure: Option<VaultError>,
}

/// The text of an optional string.
pub open spec fn text_of(text: Option<String>) -> Option<Seq<char>> {
    match text {
        Some(t) => Some(t@),
        None => None,
    }
}

impl View for IntegritySession {
    type V = SessionView;

    closed spec fn view(&self) -> SessionView {
        SessionView {
            files: texts_of(self.files@),
            local_root: self.local_root@,
            container_id: text_of(self.container_id),
            uploaded: self.uploaded as nat,
            remote_root: text_of(self.remote_root),
            state: self.state,
            failure: self.failure,
        }
    }
}

impl IntegritySession {
    #[verifier::type_invariant]
    spec fn well_formed(&self) -> bool {
        self@.valid()
    }

    /// Opens a session for the staged `files`, whose tree has the root
    /// `local_root`. There is no session for an empty batch.
    pub fn new(files: Vec<String>, local_root: String) -> (session: Option<Self>)
        ensures
            match session {
                Some(s) => {
                    &&& files@.len() > 0
                    &&& s@.valid()
                    &&& s@.state == SessionState::Staged
                    &&& s@.files == texts_of(files@)
                    &&& s@.local_root == local_root@
                },
                None => files@.len() == 0,
            },
    {
        if files.len() == 0 {
            None
        } else {
            Some(
                IntegritySession {
                    files,
                    local_root,
                    container_id: None,
                    uploaded: 0,
                    remote_root: None,
                    state: SessionState::Staged,
                    failure: None,
                },
            )
        }
    }

    /// Opens a session for the staged `files` with the contents `contents`,
    /// file by file. The local root is computed here, before anything is
    /// sent: it is the root of the tree over the digests of the contents, in
    /// staging order. There is no session for an empty batch, nor where the
    /// contents are not as many as the files.
    pub fn stage(files: Vec<String>, contents: &Vec<Vec<u8>>) -> (session: Option<Self>)
        ensures
            match session {
                Some(s) => {
                    &&& 0 < files@.len() == contents@.len()
                    &&& s@.valid()
                    &&& s@.state == SessionState::Staged
                    &&& s@.files == texts_of(files@)
                    &&& s@.local_root == hex_encoding(tree_root(leaf_digests(contents@)))
                },
                None => files@.len() == 0 || files@.len() != contents@.len(),
            },
    {
        if files.len() != contents.len() {
            return None;
        }
        match compute_local_root(contents) {
            Some(local_root) => Self::new(files, local_root),
            None => None,
        }
    }

    /// How far the session has come.
    pub fn state(&self) -> (state: SessionState)
        ensures
            state == self@.state,
            self@.valid(),
    {
        proof {
            use_type_invariant(self);
        }
        self.state
    }

    /// Tells whether the session is over.
    pub fn is_over(&self) -> (over: bool)
        ensures
            over == self@.is_over(),
    {
        match self.state {
            SessionState::Committed | SessionState::Aborted => true,
            _ => false,
        }
    }

    /// Why the session was aborted, if it was.
    pub fn failure(&self) -> (failure: Option<VaultError>)
        ensures
            failure == self@.failure,
            failure is Some <==> self@.state == SessionState::Aborted,
    {
        proof {
            use_type_invariant(self);
        }
        self.failure
    }

    /// The name of the container, once the store has assigned one.
    pub fn container_id(&self) -> (id: Option<&String>)
        ensures
            match id {
                Some(name) => self@.container_id == Some(name@),
                None => self@.container_id is None,
            },
    {
        match &self.container_id {
            Some(name) => Some(name),
            None => None,
        }
    }

    /// The root computed over the staged files before anything was sent.
    pub fn local_root(&self) -> (root: &String)
        ensures
            root@ == self@.local_root,
    {
        &self.local_root
    }

    /// The staged file at position `index`, if there is one.
    pub fn file(&self, index: usize) -> (file: Option<&String>)
        ensures
            match file {
                Some(path) => index < self@.files.len() && path@ == self@.files[index as int],
                None => index >= self@.files.len(),
            },
    {
        if index < self.files.len() {
            Some(&self.files[index])
        } else {
            None
        }
    }

    /// The action that the session asks for.
    pub fn action(&self) -> (action: SessionAction)
        ensures
            action == self@.action(),
    {
        match self.state {
            SessionState::Staged => SessionAction::CreateContainer,
            SessionState::ContainerCreated => SessionAction::UploadFile { index: 0 },
            SessionState::Uploading => if self.uploaded < self.files.len() {
                SessionAction::UploadFile { index: self.uploaded }
            } else {
                SessionAction::Finalize
            },
            SessionState::Finalized => SessionAction::SaveTrustRecord,
            SessionState::Committed => SessionAction::ReleaseFiles,
            SessionState::Aborted => match self.container_id {
                Some(_) => SessionAction::DeleteContainer,
                None => SessionAction::ReportFailure,
            },
        }
    }

    /// Saves the trust record of a finalized session in `config`: the local
    /// root becomes the committed root of the container, and the container
    /// one of the known vaults. In any other state nothing is saved.
    pub fn record_commit(&self, config: &mut Config) -> (saved: bool)
        ensures
            saved == (self@.state == SessionState::Finalized),
            saved ==> {
                &&& self@.container_id is Some
                &&& self@.remote_root == Some(self@.local_root)
                &&& final(config).trusted_roots() == old(config).trusted_roots().insert(
                    self@.container_id->0,
                    self@.local_root,
                )
                &&& final(config).vaults() == if old(config).vaults().contains(
                    self@.container_id->0,
                ) {
                    old(config).vaults()
                } else {
                    old(config).vaults().push(self@.container_id->0)
                }
                &&& final(config).staged() == old(config).staged()
            },
            !saved ==> *final(config) == *old(config),
    {
        proof {
            use_type_invariant(self);
        }
        match self.state {
            SessionState::Finalized => match &self.container_id {
                Some(id) => {
                    save_vault_root_hash(config, id, &self.local_root);
                    remember_vault(config, id);
                    true
                },
                None => false,
            },
            _ => false,
        }
    }

    /// Empties the staging area of `config` once the session is committed.
    /// In any other state the staging area stays as it is.
    pub fn release_staging(&self, config: &mut Config) -> (released: bool)
        ensures
            released == (self@.state == SessionState::Committed),
            released ==> {
                &&& final(config).staged() == Seq::<Seq<char>>::empty()
                &&& final(config).vaults() == old(config).vaults()
                &&& final(config).trusted_roots() == old(config).trusted_roots()
            },
            !released ==> *final(config) == *old(config),
    {
        match self.state {
            SessionState::Committed => {
                clear_staging(config);
                true
            },
            _ => false,
        }
    }

    /// The session, aborted for `reason`.
    fn abort(self, reason: VaultError) -> (next: Self)
        ensures
            next@ == self@.aborted(reason),
    {
        proof {
            use_type_invariant(&self);
        }
        IntegritySession {
            files: self.files,
            local_root: self.local_root,
            container_id: self.container_id,
            uploaded: self.uploaded,
            remote_root: self.remote_root,
            state: SessionState::Aborted,
            failure: Some(reason),
        }
    }

    /// Takes the session over `event` and returns it with the action it asks
    /// for next.
    pub fn step(self, event: SessionEvent) -> (next: (Self, SessionAction))
        ensures
            next.0@ == self@.after(event),
            next.1 == next.0@.action(),
            next.0@.valid(),
    {
        proof {
            use_type_invariant(&self);
        }
        let next = match self.state {
            SessionState::Committed | SessionState::Aborted => self,
            SessionState::Staged => match event {
                SessionEvent::ContainerCreated { container_id } => IntegritySession {
                    files: self.files,
                    local_root: self.local_root,
                    container_id: Some(container_id),
                    uploaded: self.uploaded,
                    remote_root: self.remote_root,
                    state: SessionState::ContainerCreated,
                    failure: self.failure,
                },
                SessionEvent::Failed { reason } => self.abort(reason),
                _ => self.abort(VaultError::RemoteRejected),
            },
            SessionState::ContainerCreated | SessionState::Uploading => if self.uploaded
                < self.files.len() {
                match event {
                    SessionEvent::FileUploaded => IntegritySession {
                        files: self.files,
                        local_root: self.local_root,
                        container_id: self.container_id,
                        uploaded: self.uploaded + 1,
                        remote_root: self.remote_root,
                        state: SessionState::Uploading,
                        failure: self.failure,
                    },
                    SessionEvent::Failed { reason } => self.abort(reason),
                    _ => self.abort(VaultError::RemoteRejected),
                }
            } else {
                match event {
                    SessionEvent::Finalized { remote_root } => if remote_root
                        == self.local_root {
                        IntegritySession {
                            files: self.files,
                            local_root: self.local_root,
                            container_id: self.container_id,
                            uploaded: self.uploaded,
                            remote_root: Some(remote_root),
                            state: SessionState::Finalized,
                            failure: self.failure,
                        }
                    } else {
                        self.abort(VaultError::IntegrityViolation)
                    },
                    SessionEvent::Failed { reason } => self.abort(reason),
                    _ => self.abort(VaultError::RemoteRejected),
                }
            },
            SessionState::Finalized => match event {
                SessionEvent::RecordSaved => IntegritySession {
                    files: self.files,
                    local_root: self.local_root,
                    container_id: self.container_id,
                    uploaded: self.uploaded,
                    remote_root: self.remote_root,
                    state: SessionState::Committed,
                    failure: self.failure,
                },
                SessionEvent::Failed { reason } => self.abort(reason),
                _ => self.abort(VaultError::RemoteRejected),
            },
        };
        proof {
            use_type_invariant(&next);
        }
        let action = next.action();
        (next, action)
    }
}

/// The digests of a batch of file contents, in order.
pub open spec fn leaf_digests(contents: Seq<Vec<u8>>) -> Seq<Seq<u8>> {
    Seq::new(contents.len(), |i: int| sha256(contents[i]@))
}

/// Hashes each of `contents`, in order.
pub fn leaf_hashes(contents: &Vec<Vec<u8>>) -> (leaves: Vec<crypto::Hash>)
    ensures
        digests_of(leaves@) == leaf_digests(contents@),
{
    let mut leaves: Vec<Vec<u8>> = Vec::new();
    let mut i: usize = 0;
    while i < contents.len()
        invariant
            i <= contents.len(),
            digests_of(leaves@) == leaf_digests(contents@).subrange(0, i as int),
        decreases contents.len() - i,
    {
        let ghost before = digests_of(leaves@);
        let digest = hash(&contents[i]);
        leaves.push(digest);
        assert(digests_of(leaves@) =~= before.push(sha256(contents@[i as int]@)));
        i += 1;
    }
    leaves
}

/// The root, as hexadecimal text, of the tree over the digests of
/// `contents`, which are the contents of the staged files in staging order.
/// There is no root for an empty batch.
pub fn compute_local_root(contents: &Vec<Vec<u8>>) -> (root: Option<String>)
    ensures
        match root {
            Some(text) => contents@.len() > 0 && text@ == hex_encoding(
                tree_root(leaf_digests(contents@)),
            ),
            None => contents@.len() == 0,
        },
{
    let tree = MerkleTree::from_leaves(leaf_hashes(contents));
    tree.root_hex()
}

/// The state a session is in after the events `events`, in order.
pub open spec fn run(start: SessionView, events: Seq<SessionEvent>) -> SessionView
    decreases events.len(),
{
    if events.len() == 0 {
        start
    } else {
        run(start, events.drop_last()).after(events.last())
    }
}

/// The event reports the root `root` of the store.
pub open spec fn reports_root(event: SessionEvent, root: Seq<char>) -> bool {
    event matches SessionEvent::Finalized { remote_root } && remote_root@ == root
}

/// No event breaks a session: what holds of every session holds after the
/// event too, and neither the staged files nor the local root change.
pub proof fn lemma_event_keeps_session_valid(session: SessionView, event: SessionEvent)
    requires
        session.valid(),
    ensures
        session.after(event).valid(),
        session.after(event).files == session.files,
        session.after(event).local_root == session.local_root,
{
}

/// A session that is over stays as it is, whatever is reported to it.
pub proof fn lemma_over_is_final(session: SessionView, event: SessionEvent)
    requires
        session.is_over(),
    ensures
        session.after(event) == session,
{
}

/// A store that reports another root than the local one is found out: the
/// session that waits for the store's root is aborted for an integrity
/// violation, and asks for the container to be deleted.
pub proof fn lemma_wrong_root_aborts(session: SessionView, event: SessionEvent)
    requires
        session.valid(),
        session.state == SessionState::Uploading,
        session.uploaded == session.files.len(),
        event matches SessionEvent::Finalized { remote_root } && remote_root@ != session.local_root,
    ensures
        session.after(event).state == SessionState::Aborted,
        session.after(event).failure == Some(VaultError::IntegrityViolation),
        session.after(event).container_id == session.container_id,
        session.after(event).action() == SessionAction::DeleteContainer,
{
}

/// A failure at any step ends the session with that failure. Once the
/// container exists the session asks for it to be deleted; before that there
/// is nothing to undo.
pub proof fn lemma_failure_rolls_back(session: SessionView, reason: VaultError)
    requires
        session.valid(),
        !session.is_over(),
    ensures
        ({
            let next = session.after((SessionEvent::Failed { reason }));
            &&& next.state == SessionState::Aborted
            &&& next.failure == Some(reason)
            &&& next.action() == if session.state == SessionState::Staged {
                SessionAction::ReportFailure
            } else {
                SessionAction::DeleteContainer
            }
        }),
{
}

/// Nothing is committed on the store's word alone: a session that starts
/// with the batch staged and is never told the root that was computed
/// locally reaches neither `Finalized` nor `Committed`, whatever else it is
/// told and in whatever order.
pub proof fn lemma_commit_needs_matching_root(start: SessionView, events: Seq<SessionEvent>)
    requires
        start.valid(),
        start.state == SessionState::Staged,
        forall|i: int| 0 <= i < events.len() ==> !reports_root(events[i], start.local_root),
    ensures
        run(start, events).valid(),
        run(start, events).local_root == start.local_root,
        run(start, events).state != SessionState::Finalized,
        run(start, events).state != SessionState::Committed,
    decreases events.len(),
{
    if events.len() > 0 {
        lemma_commit_needs_matching_root(start, events.drop_last());
    }
}

/// Files are sent in staging order, and the store is asked for its root only
/// when it has accepted them all: after `count` acknowledged uploads the
/// session asks for the file at position `count`, or for the root if there
/// is no such file.
pub proof fn lemma_uploads_follow_staging_order(session: SessionView, event: SessionEvent)
    requires
        session.valid(),
        session.state == SessionState::ContainerCreated || session.state == SessionState::Uploading,
        session.uploaded < session.files.len(),
        event is FileUploaded,
    ensures
        session.after(event).uploaded == session.uploaded + 1,
        session.after(event).action() == (if session.uploaded + 1 < session.files.len() {
            (SessionAction::UploadFile { index: (session.uploaded + 1) as usize })
        } else {
            SessionAction::Finalize
        }),
{
}

} // verus!
