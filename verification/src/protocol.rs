//! What passes between a session and the object store.
//!
//! A session never touches the store. It hands out an [`Action`], the caller
//! has the store carry it out and hands back a [`Reply`], and so on until the
//! action is [`Action::Finish`], which carries the [`Outcome`] of the run.

use crate::diff::{deltas, Change, Delta};
use crate::merge::Conflict;
use crate::object::ObjectId;
use crate::tree::{Leaf, Tree};
use vstd::prelude::*;

verus! {

/// One of the two remotes of a session.
#[derive(Clone, Copy, Debug, PartialEq, Eq, Structural)]
pub enum Side {
    Source,
    Destination,
}

/// An operation of the store that can fail while a session is set up or a
/// head is looked up.
#[derive(Clone, Copy, Debug, PartialEq, Eq, Structural)]
pub enum Step {
    /// Making the store, and opening it where it cannot be made.
    Open,
    /// Adding a remote, or finding the one that is there.
    Register,
    /// Looking up the commit that a name points at.
    Resolve,
    /// Making the local branch.
    Branch,
    /// Pointing the head of the store at the local branch.
    Head,
    /// Checking out the head.
    Checkout,
}

/// Why a run failed.
#[derive(Clone, Debug, PartialEq, Eq)]
pub enum SyncError {
    /// The branch of `remote` could not be fetched.
    FetchFailed { remote: String, cause: String },
    /// Nothing in the store goes by `name`.
    RefNotFound { name: String },
    /// `name` points at something that is not a commit.
    AmbiguousOrNonCommit { name: String },
    /// The tree of `commit` could not be loaded.
    MissingTree { commit: ObjectId },
    /// The store failed in the middle of a merge.
    MergeAborted { cause: String },
    /// The store failed at `step`, outside a merge.
    StoreFailed { step: Step, cause: String },
}

/// A [`SyncError`] as a plain value.
pub ghost enum Fault {
    FetchFailed { remote: Seq<char>, cause: Seq<char> },
    RefNotFound { name: Seq<char> },
    AmbiguousOrNonCommit { name: Seq<char> },
    MissingTree { commit: ObjectId },
    MergeAborted { cause: Seq<char> },
    StoreFailed { step: Step, cause: Seq<char> },
}

impl View for SyncError {
    type V = Fault;

    open spec fn view(&self) -> Fault {
        match *self {
            SyncError::FetchFailed { remote, cause } => Fault::FetchFailed {
                remote: remote@,
                cause: cause@,
            },
            SyncError::RefNotFound { name } => Fault::RefNotFound { name: name@ },
            SyncError::AmbiguousOrNonCommit { name } => Fault::AmbiguousOrNonCommit { name: name@ },
            SyncError::MissingTree { commit } => Fault::MissingTree { commit },
            SyncError::MergeAborted { cause } => Fault::MergeAborted { cause: cause@ },
            SyncError::StoreFailed { step, cause } => Fault::StoreFailed { step, cause: cause@ },
        }
    }
}

/// A commit: its name, the name of its tree, and the names of its parents,
/// the mainline first.
#[derive(Clone, Debug, PartialEq, Eq)]
pub struct Commit {
    pub id: ObjectId,
    pub tree: ObjectId,
    pub parents: Vec<ObjectId>,
}

/// Who makes a commit.
#[derive(Clone, Debug, PartialEq, Eq)]
pub struct Signature {
    pub name: String,
    pub email: String,
}

/// What the store answers to an action.
#[derive(Debug, PartialEq, Eq)]
pub enum Reply {
    /// The action was carried out and there is nothing to tell.
    Done,
    /// The action failed.
    Failed { cause: String },
    /// What was looked for is not there: no object goes by the name, or two
    /// commits have no common ancestor.
    Missing,
    /// The name points at an object that is not a commit.
    NotCommit,
    /// The commit that was looked for.
    Commit(Commit),
    /// The tree that was loaded.
    Tree(Tree),
    /// The name of the object that was written.
    Id(ObjectId),
    /// The full name of the branch that was made.
    Name(String),
}

/// How a run ended.
#[derive(Debug, PartialEq, Eq)]
pub enum Outcome {
    /// The session is set up.
    Ready,
    /// The difference from the source's tree to the destination's.
    Diff(Vec<Change>),
    /// The merge was clean, and `commit` was made of it.
    Merged { commit: ObjectId },
    /// The merge met the conflicts listed, and nothing was committed.
    Blocked { conflicts: Vec<Conflict> },
    /// The run failed.
    Failed(SyncError),
    /// No run was under way.
    Nothing,
}

/// An [`Outcome`] as a plain value.
pub ghost enum Ending {
    Ready,
    Diff(Seq<Delta>),
    Merged { commit: ObjectId },
    Blocked { conflicts: Seq<Conflict> },
    Failed(Fault),
    Nothing,
}

impl View for Outcome {
    type V = Ending;

    open spec fn view(&self) -> Ending {
        match *self {
            Outcome::Ready => Ending::Ready,
            Outcome::Diff(changes) => Ending::Diff(deltas(changes@)),
            Outcome::Merged { commit } => Ending::Merged { commit },
            Outcome::Blocked { conflicts } => Ending::Blocked { conflicts: conflicts@ },
            Outcome::Failed(error) => Ending::Failed(error@),
            Outcome::Nothing => Ending::Nothing,
        }
    }
}

/// What the store is to do next.
#[derive(Debug, PartialEq, Eq)]
pub enum Action {
    /// Make a store at `path`.
    InitStore { path: String },
    /// Open the store at `path`.
    OpenStore { path: String },
    /// Add a remote `name` that points at `url`.
    AddRemote { name: String, url: String },
    /// Find the remote `name`.
    FindRemote { name: String },
    /// Fetch `branch` from `remote`, as `username` with `password`.
    Fetch { remote: String, branch: String, username: String, password: String },
    /// Look up the commit that `name` points at.
    ResolveRef { name: String },
    /// Make a local branch `name` at `commit`.
    CreateBranch { name: String, commit: ObjectId },
    /// Point the head of the store at the branch with the full name `name`.
    SetHead { name: String },
    /// Check out the head.
    CheckoutHead,
    /// Load the tree `tree`.
    LoadTree { tree: ObjectId },
    /// Find the nearest common ancestor of `one` and `two`.
    FindMergeBase { one: ObjectId, two: ObjectId },
    /// Write the tree `content` to the store.
    WriteTree { content: Tree },
    /// Make a commit of `tree` with the parents `parents`.
    Commit { tree: ObjectId, parents: Vec<ObjectId>, signature: Signature, message: String },
    /// Move the local branch to `commit`.
    Advance { commit: ObjectId },
    /// Clear what the store keeps of a merge under way.
    CleanupState,
    /// Nothing: the run is over.
    Finish { outcome: Outcome },
}

/// An [`Action`] as a plain value.
pub ghost enum Request {
    InitStore { path: Seq<char> },
    OpenStore { path: Seq<char> },
    AddRemote { name: Seq<char>, url: Seq<char> },
    FindRemote { name: Seq<char> },
    Fetch { remote: Seq<char>, branch: Seq<char>, username: Seq<char>, password: Seq<char> },
    ResolveRef { name: Seq<char> },
    CreateBranch { name: Seq<char>, commit: ObjectId },
    SetHead { name: Seq<char> },
    CheckoutHead,
    LoadTree { tree: ObjectId },
    FindMergeBase { one: ObjectId, two: ObjectId },
    WriteTree { content: Map<Seq<u8>, Leaf> },
    Commit {
        tree: ObjectId,
        parents: Seq<ObjectId>,
        signature: (Seq<char>, Seq<char>),
        message: Seq<char>,
    },
    Advance { commit: ObjectId },
    CleanupState,
    Finish { outcome: Ending },
}

impl View for Action {
    type V = Request;

    open spec fn view(&self) -> Request {
        match *self {
            Action::InitStore { path } => Request::InitStore { path: path@ },
            Action::OpenStore { path } => Request::OpenStore { path: path@ },
            Action::AddRemote { name, url } => Request::AddRemote { name: name@, url: url@ },
            Action::FindRemote { name } => Request::FindRemote { name: name@ },
            Action::Fetch { remote, branch, username, password } => Request::Fetch {
                remote: remote@,
                branch: branch@,
                username: username@,
                password: password@,
            },
            Action::ResolveRef { name } => Request::ResolveRef { name: name@ },
            Action::CreateBranch { name, commit } => Request::CreateBranch { name: name@, commit },
            Action::SetHead { name } => Request::SetHead { name: name@ },
            Action::CheckoutHead => Request::CheckoutHead,
            Action::LoadTree { tree } => Request::LoadTree { tree },
            Action::FindMergeBase { one, two } => Request::FindMergeBase { one, two },
            Action::WriteTree { content } => Request::WriteTree { content: content@ },
            Action::Commit { tree, parents, signature, message } => Request::Commit {
                tree,
                parents: parents@,
                signature: (signature.name@, signature.email@),
                message: message@,
            },
            Action::Advance { commit } => Request::Advance { commit },
            Action::CleanupState => Request::CleanupState,
            Action::Finish { outcome } => Request::Finish { outcome: outcome@ },
        }
    }
}

/// Where a session stands: what it has asked the store for, and what it
/// keeps from the answers so far.
#[derive(Debug, PartialEq, Eq)]
pub enum Stage {
    /// No run is under way.
    Idle,
    /// Setting up: the store is being made.
    Initializing,
    /// Setting up: the store, which could not be made, is being opened.
    Opening,
    /// Setting up: the remote of `side` is being added.
    Adding { side: Side },
    /// Setting up: the remote of `side` is being looked for.
    Finding { side: Side },
    /// Setting up: the branch of `side` is being fetched.
    Fetching { side: Side },
    /// Setting up: the destination's head is being looked up.
    Resolving,
    /// Setting up: the local branch is being made at `head`.
    Branching { head: ObjectId },
    /// Setting up: the head of the store is being pointed at the branch.
    Heading { head: ObjectId },
    /// Setting up: the head is being checked out.
    CheckingOut { head: ObjectId },
    /// Comparing: the source's head is being looked up.
    DiffSource,
    /// Comparing: the destination's head is being looked up.
    DiffDestination { source: Commit },
    /// Comparing: the source's tree is being loaded.
    DiffSourceTree { source: Commit, destination: Commit },
    /// Comparing: the destination's tree is being loaded.
    DiffDestinationTree { from: Tree, destination: Commit },
    /// Merging: the source's head is being looked up.
    MergeSource { signature: Signature, message: String },
    /// Merging: the destination's head is being looked up.
    MergeDestination { signature: Signature, message: String, source: Commit },
    /// Merging: the merge base is being looked for.
    MergeBase { signature: Signature, message: String, source: Commit, destination: Commit },
    /// Merging: the tree of the merge base is being loaded.
    MergeBaseTree { signature: Signature, message: String, source: Commit, destination: Commit },
    /// Merging: the source's tree is being loaded.
    MergeSourceTree { signature: Signature, message: String, destination: Commit, base: Tree },
    /// Merging: the destination's tree is being loaded.
    MergeDestinationTree {
        signature: Signature,
        message: String,
        destination: Commit,
        base: Tree,
        theirs: Tree,
    },
    /// Merging: the merged tree is being written.
    Writing { signature: Signature, message: String, destination: Commit },
    /// Merging: the commit is being made.
    Committing,
    /// Merging: the local branch is being moved to `commit`.
    Advancing { commit: ObjectId },
    /// Merging: the store's merge state is being cleared.
    Cleaning { commit: ObjectId },
}

} // verus!
