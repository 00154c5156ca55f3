//! Sessions.
//!
//! A [`Fork`] keeps a source remote and a destination remote of one
//! repository in step through a local store. Setting the session up, comparing
//! the two heads and merging the source into the destination are runs: the
//! session hands out one action of the store after the other, takes the
//! store's reply to each, and stops at the first failure. It never tries
//! anything twice.

use crate::diff::{diff, is_diff};
use crate::merge::{
    conflicted_at, is_conflict_list, lemma_merge_same_sides, merge, mergeable, merged, reports,
    MergeResult,
};
use crate::object::ObjectId;
use crate::protocol::{
    Action, Commit, Ending, Fault, Outcome, Reply, Request, Side, Signature, Stage, Step, SyncError,
};
use crate::tree::{Leaf, Tree};
use vstd::prelude::*;

verus! {

/// One remote copy of the repository: the name it goes by in the local
/// store, where it is, the branch to follow, and who asks.
#[derive(Debug, PartialEq, Eq)]
pub struct Remote {
    name: String,
    url: String,
    branch: String,
    username: String,
    password: String,
}

/// A [`Remote`] as a plain value.
pub ghost struct Endpoint {
    pub name: Seq<char>,
    pub url: Seq<char>,
    pub branch: Seq<char>,
    pub username: Seq<char>,
    pub password: Seq<char>,
}

impl View for Remote {
    type V = Endpoint;

    closed spec fn view(&self) -> Endpoint {
        Endpoint {
            name: self.name@,
            url: self.url@,
            branch: self.branch@,
            username: self.username@,
            password: self.password@,
        }
    }
}

/// The name under which the store keeps the last fetched head of `branch`
/// of the remote `remote`: the remote's name, a slash, and the branch.
pub open spec fn ref_name(remote: Seq<char>, branch: Seq<char>) -> Seq<char> {
    remote + seq!['/'] + branch
}

/// The name under which the store keeps the last fetched head of the
/// endpoint's branch.
pub open spec fn tracking_name(endpoint: Endpoint) -> Seq<char> {
    ref_name(endpoint.name, endpoint.branch)
}

fn name_of_ref(remote: &str, branch: &str) -> (name: String)
    ensures
        name@ == ref_name(remote@, branch@),
{
    let mut name = String::from_str(remote);
    name.append("/");
    name.append(branch);
    proof {
        reveal_strlit("/");
    }
    name
}

impl Remote {
    /// The remote `name` at `url`, of which `branch` is followed as
    /// `username` with `password`.
    pub fn new(name: &str, url: &str, branch: &str, username: &str, password: &str) -> (remote:
        Remote)
        ensures
            remote@ == (Endpoint {
                name: name@,
                url: url@,
                branch: branch@,
                username: username@,
                password: password@,
            }),
    {
        Remote {
            name: String::from_str(name),
            url: String::from_str(url),
            branch: String::from_str(branch),
            username: String::from_str(username),
            password: String::from_str(password),
        }
    }

    /// The name that the remote goes by in the local store.
    pub fn name(&self) -> (name: &str)
        ensures
            name@ == self@.name,
    {
        self.name.as_str()
    }

    /// Where the remote is.
    pub fn url(&self) -> (url: &str)
        ensures
            url@ == self@.url,
    {
        self.url.as_str()
    }

    /// The branch that is followed.
    pub fn branch(&self) -> (branch: &str)
        ensures
            branch@ == self@.branch,
    {
        self.branch.as_str()
    }

    /// Who asks the remote.
    pub fn username(&self) -> (username: &str)
        ensures
            username@ == self@.username,
    {
        self.username.as_str()
    }

    /// The secret that goes with the user's name.
    pub fn password(&self) -> (password: &str)
        ensures
            password@ == self@.password,
    {
        self.password.as_str()
    }

    /// The name under which the store keeps the last fetched head of the
    /// branch.
    pub fn tracking_ref(&self) -> (name: String)
        ensures
            name@ == tracking_name(self@),
    {
        name_of_ref(self.name.as_str(), self.branch.as_str())
    }

    fn add(&self) -> (action: Action)
        ensures
            action@ == add_of(self@),
    {
        Action::AddRemote { name: self.name.clone(), url: self.url.clone() }
    }

    fn find(&self) -> (action: Action)
        ensures
            action@ == (Request::FindRemote { name: self@.name }),
    {
        Action::FindRemote { name: self.name.clone() }
    }

    fn fetch(&self) -> (action: Action)
        ensures
            action@ == fetch_of(self@),
    {
        Action::Fetch {
            remote: self.name.clone(),
            branch: self.branch.clone(),
            username: self.username.clone(),
            password: self.password.clone(),
        }
    }

    fn resolve(&self) -> (action: Action)
        ensures
            action@ == (Request::ResolveRef { name: tracking_name(self@) }),
    {
        Action::ResolveRef { name: self.tracking_ref() }
    }
}

/// The request to add the remote `endpoint` to the store.
pub open spec fn add_of(endpoint: Endpoint) -> Request {
    Request::AddRemote { name: endpoint.name, url: endpoint.url }
}

/// The request to fetch the branch of `endpoint`.
pub open spec fn fetch_of(endpoint: Endpoint) -> Request {
    Request::Fetch {
        remote: endpoint.name,
        branch: endpoint.branch,
        username: endpoint.username,
        password: endpoint.password,
    }
}

/// Why the store failed, as far as `reply` says: the cause that a failure
/// gives, and for any other reply that it was not the one expected.
pub open spec fn cause_of(reply: Reply) -> Seq<char> {
    match reply {
        Reply::Failed { cause } => cause@,
        _ => "unexpected reply"@,
    }
}

/// What a lookup of `name` comes to, given the store's reply: the commit
/// that the name points at, or why there is none.
pub open spec fn resolved(name: Seq<char>, reply: Reply) -> Result<Commit, Fault> {
    match reply {
        Reply::Commit(commit) => Ok(commit),
        Reply::Missing => Err(Fault::RefNotFound { name }),
        Reply::NotCommit => Err(Fault::AmbiguousOrNonCommit { name }),
        _ => Err(Fault::StoreFailed { step: Step::Resolve, cause: cause_of(reply) }),
    }
}

/// What a lookup of `name` comes to in a merge, where a failure of the store
/// aborts the merge.
pub open spec fn resolved_in_merge(name: Seq<char>, reply: Reply) -> Result<Commit, Fault> {
    match reply {
        Reply::Commit(commit) => Ok(commit),
        Reply::Missing => Err(Fault::RefNotFound { name }),
        Reply::NotCommit => Err(Fault::AmbiguousOrNonCommit { name }),
        _ => Err(Fault::MergeAborted { cause: cause_of(reply) }),
    }
}

fn cause(reply: Reply) -> (text: String)
    ensures
        text@ == cause_of(reply),
{
    match reply {
        Reply::Failed { cause } => cause,
        _ => String::from_str("unexpected reply"),
    }
}

fn failed(error: SyncError) -> (action: Action)
    ensures
        action@ == (Request::Finish { outcome: Ending::Failed(error@) }),
{
    Action::Finish { outcome: Outcome::Failed(error) }
}

fn aborted(reply: Reply) -> (action: Action)
    ensures
        action@ == (Request::Finish {
            outcome: Ending::Failed(Fault::MergeAborted { cause: cause_of(reply) }),
        }),
{
    failed(SyncError::MergeAborted { cause: cause(reply) })
}

fn store_failed(step: Step, reply: Reply) -> (action: Action)
    ensures
        action@ == (Request::Finish {
            outcome: Ending::Failed(Fault::StoreFailed { step, cause: cause_of(reply) }),
        }),
{
    failed(SyncError::StoreFailed { step, cause: cause(reply) })
}

/// The head of `branch` of the remote `remote_name`, given the store's reply
/// to the lookup of its name.
///
/// Fails with `RefNotFound` where nothing goes by the name, with
/// `AmbiguousOrNonCommit` where the name points at something else than a
/// commit, and with `StoreFailed` where the store could not tell.
pub fn resolve_head(remote_name: &str, branch: &str, reply: Reply) -> (head: Result<
    Commit,
    SyncError,
>)
    ensures
        match head {
            Ok(commit) => resolved(ref_name(remote_name@, branch@), reply) == Ok::<Commit, Fault>(
                commit,
            ),
            Err(error) => resolved(ref_name(remote_name@, branch@), reply) == Err::<Commit, Fault>(
                error@,
            ),
        },
{
    head_of(name_of_ref(remote_name, branch), reply)
}

fn head_of(name: String, reply: Reply) -> (head: Result<Commit, SyncError>)
    ensures
        match head {
            Ok(commit) => resolved(name@, reply) == Ok::<Commit, Fault>(commit),
            Err(error) => resolved(name@, reply) == Err::<Commit, Fault>(error@),
        },
{
    match reply {
        Reply::Commit(commit) => Ok(commit),
        Reply::Missing => Err(SyncError::RefNotFound { name }),
        Reply::NotCommit => Err(SyncError::AmbiguousOrNonCommit { name }),
        other => Err(SyncError::StoreFailed { step: Step::Resolve, cause: cause(other) }),
    }
}

fn head_of_in_merge(name: String, reply: Reply) -> (head: Result<Commit, SyncError>)
    ensures
        match head {
            Ok(commit) => resolved_in_merge(name@, reply) == Ok::<Commit, Fault>(commit),
            Err(error) => resolved_in_merge(name@, reply) == Err::<Commit, Fault>(error@),
        },
{
    match reply {
        Reply::Commit(commit) => Ok(commit),
        Reply::Missing => Err(SyncError::RefNotFound { name }),
        Reply::NotCommit => Err(SyncError::AmbiguousOrNonCommit { name }),
        other => Err(SyncError::MergeAborted { cause: cause(other) }),
    }
}

/// A session between a source and a destination remote.
#[derive(Debug, PartialEq, Eq)]
pub struct Fork {
    src: Remote,
    dst: Remote,
    path: String,
    head: Option<ObjectId>,
    stage: Stage,
}

/// A [`Fork`] as a plain value: the two endpoints, the path of the local
/// store, the commit that the local branch points at as far as the session
/// has set it, and where the session stands.
pub ghost struct Session {
    pub source: Endpoint,
    pub destination: Endpoint,
    pub path: Seq<char>,
    pub head: Option<ObjectId>,
    pub stage: Stage,
}

impl View for Fork {
    type V = Session;

    closed spec fn view(&self) -> Session {
        Session {
            source: self.src@,
            destination: self.dst@,
            path: self.path@,
            head: self.head,
            stage: self.stage,
        }
    }
}

impl Session {
    /// The endpoint on `side`.
    pub open spec fn endpoint(self, side: Side) -> Endpoint {
        match side {
            Side::Source => self.source,
            Side::Destination => self.destination,
        }
    }

    /// The session as it is but at `stage`.
    pub open spec fn at(self, stage: Stage) -> Session {
        Session { stage, ..self }
    }
}

/// The run is over and the local branch is where it was.
pub open spec fn rests(before: Session, after: Session) -> bool {
    after == before.at(Stage::Idle)
}

/// The run fails with `fault`.
pub open spec fn fails(before: Session, after: Session, action: Action, fault: Fault) -> bool {
    rests(before, after) && action@ == (Request::Finish { outcome: Ending::Failed(fault) })
}

/// The run goes on to `stage` and asks the store for `request`.
pub open spec fn moves(
    before: Session,
    after: Session,
    action: Action,
    stage: Stage,
    request: Request,
) -> bool {
    after == before.at(stage) && action@ == request
}

/// One step of setting up: the store is made, or opened where it cannot be
/// made, and where it cannot be opened either the run fails with the cause
/// that the attempt to open gave; the source is added and fetched, then the
/// destination, where a remote that cannot be added is looked for by its
/// name; the destination's head is looked up, a local branch made there, the
/// head of the store pointed at it and checked out. Any other failure ends
/// the run.
pub open spec fn setup_follows(
    before: Session,
    reply: Reply,
    after: Session,
    action: Action,
) -> bool {
    match before.stage {
        Stage::Initializing => match reply {
            Reply::Done => moves(
                before,
                after,
                action,
                Stage::Adding { side: Side::Source },
                add_of(before.source),
            ),
            _ => moves(
                before,
                after,
                action,
                Stage::Opening,
                Request::OpenStore { path: before.path },
            ),
        },
        Stage::Opening => match reply {
            Reply::Done => moves(
                before,
                after,
                action,
                Stage::Adding { side: Side::Source },
                add_of(before.source),
            ),
            _ => fails(
                before,
                after,
                action,
                Fault::StoreFailed { step: Step::Open, cause: cause_of(reply) },
            ),
        },
        Stage::Adding { side } => match reply {
            Reply::Done => moves(
                before,
                after,
                action,
                Stage::Fetching { side },
                fetch_of(before.endpoint(side)),
            ),
            _ => moves(
                before,
                after,
                action,
                Stage::Finding { side },
                Request::FindRemote { name: before.endpoint(side).name },
            ),
        },
        Stage::Finding { side } => match reply {
            Reply::Done => moves(
                before,
                after,
                action,
                Stage::Fetching { side },
                fetch_of(before.endpoint(side)),
            ),
            _ => fails(
                before,
                after,
                action,
                Fault::StoreFailed { step: Step::Register, cause: cause_of(reply) },
            ),
        },
        Stage::Fetching { side } => match reply {
            Reply::Done => match side {
                Side::Source => moves(
                    before,
                    after,
                    action,
                    Stage::Adding { side: Side::Destination },
                    add_of(before.destination),
                ),
                Side::Destination => moves(
                    before,
                    after,
                    action,
                    Stage::Resolving,
                    Request::ResolveRef { name: tracking_name(before.destination) },
                ),
            },
            _ => fails(
                before,
                after,
                action,
                Fault::FetchFailed { remote: before.endpoint(side).name, cause: cause_of(reply) },
            ),
        },
        Stage::Resolving => match resolved(tracking_name(before.destination), reply) {
            Ok(commit) => moves(
                before,
                after,
                action,
                Stage::Branching { head: commit.id },
                Request::CreateBranch { name: before.destination.name, commit: commit.id },
            ),
            Err(fault) => fails(before, after, action, fault),
        },
        Stage::Branching { head } => match reply {
            Reply::Name(name) => moves(
                before,
                after,
                action,
                Stage::Heading { head },
                Request::SetHead { name: name@ },
            ),
            _ => fails(
                before,
                after,
                action,
                Fault::StoreFailed { step: Step::Branch, cause: cause_of(reply) },
            ),
        },
        Stage::Heading { head } => match reply {
            Reply::Done => moves(
                before,
                after,
                action,
                Stage::CheckingOut { head },
                Request::CheckoutHead,
            ),
            _ => fails(
                before,
                after,
                action,
                Fault::StoreFailed { step: Step::Head, cause: cause_of(reply) },
            ),
        },
        Stage::CheckingOut { head } => match reply {
            Reply::Done => {
                &&& after == (Session { head: Some(head), ..before.at(Stage::Idle) })
                &&& action@ == (Request::Finish { outcome: Ending::Ready })
            },
            _ => fails(
                before,
                after,
                action,
                Fault::StoreFailed { step: Step::Checkout, cause: cause_of(reply) },
            ),
        },
        _ => false,
    }
}

/// One step of comparing: the two heads are looked up, the source's first,
/// then their trees are loaded, and the run ends with the difference from
/// the source's tree to the destination's. A tree that cannot be loaded ends
/// the run with `MissingTree`.
pub open spec fn diff_follows(
    before: Session,
    reply: Reply,
    after: Session,
    action: Action,
) -> bool {
    match before.stage {
        Stage::DiffSource => match resolved(tracking_name(before.source), reply) {
            Ok(commit) => moves(
                before,
                after,
                action,
                Stage::DiffDestination { source: commit },
                Request::ResolveRef { name: tracking_name(before.destination) },
            ),
            Err(fault) => fails(before, after, action, fault),
        },
        Stage::DiffDestination { source } => match resolved(
            tracking_name(before.destination),
            reply,
        ) {
            Ok(commit) => moves(
                before,
                after,
                action,
                Stage::DiffSourceTree { source, destination: commit },
                Request::LoadTree { tree: source.tree },
            ),
            Err(fault) => fails(before, after, action, fault),
        },
        Stage::DiffSourceTree { source, destination } => match reply {
            Reply::Tree(tree) => moves(
                before,
                after,
                action,
                Stage::DiffDestinationTree { from: tree, destination },
                Request::LoadTree { tree: destination.tree },
            ),
            _ => fails(before, after, action, Fault::MissingTree { commit: source.id }),
        },
        Stage::DiffDestinationTree { from, destination } => match reply {
            Reply::Tree(tree) => {
                &&& rests(before, after)
                &&& action@ matches Request::Finish { outcome: Ending::Diff(changes) }
                &&& is_diff(changes, from@, tree@)
            },
            _ => fails(before, after, action, Fault::MissingTree { commit: destination.id }),
        },
        _ => false,
    }
}

/// One step of merging: the two heads are looked up, the source's first,
/// and their merge base; the trees of the base, of the source and of the
/// destination are loaded, an empty tree standing for the base where the
/// heads have no common ancestor; the trees are merged. A merge with a
/// conflict ends the run as blocked, and nothing more is asked of the store.
/// A clean merge is written, a commit is made of it whose one parent is the
/// destination's head, the local branch is moved to that commit, and the
/// store's merge state is cleared. A failure of the store aborts the merge.
pub open spec fn merge_follows(
    before: Session,
    reply: Reply,
    after: Session,
    action: Action,
) -> bool {
    let abort = fails(before, after, action, Fault::MergeAborted { cause: cause_of(reply) });
    match before.stage {
        Stage::MergeSource { signature, message } => match resolved_in_merge(
            tracking_name(before.source),
            reply,
        ) {
            Ok(commit) => moves(
                before,
                after,
                action,
                Stage::MergeDestination { signature, message, source: commit },
                Request::ResolveRef { name: tracking_name(before.destination) },
            ),
            Err(fault) => fails(before, after, action, fault),
        },
        Stage::MergeDestination { signature, message, source } => match resolved_in_merge(
            tracking_name(before.destination),
            reply,
        ) {
            Ok(commit) => moves(
                before,
                after,
                action,
                Stage::MergeBase { signature, message, source, destination: commit },
                Request::FindMergeBase { one: source.id, two: commit.id },
            ),
            Err(fault) => fails(before, after, action, fault),
        },
        Stage::MergeBase { signature, message, source, destination } => match reply {
            Reply::Commit(base) => moves(
                before,
                after,
                action,
                Stage::MergeBaseTree { signature, message, source, destination },
                Request::LoadTree { tree: base.tree },
            ),
            Reply::Missing => {
                &&& after.stage matches Stage::MergeSourceTree {
                    signature: s,
                    message: m,
                    destination: d,
                    base,
                }
                &&& s == signature
                &&& m == message
                &&& d == destination
                &&& base@ == Map::<Seq<u8>, Leaf>::empty()
                &&& after == before.at(after.stage)
                &&& action@ == (Request::LoadTree { tree: source.tree })
            },
            _ => abort,
        },
        Stage::MergeBaseTree { signature, message, source, destination } => match reply {
            Reply::Tree(tree) => moves(
                before,
                after,
                action,
                Stage::MergeSourceTree { signature, message, destination, base: tree },
                Request::LoadTree { tree: source.tree },
            ),
            _ => abort,
        },
        Stage::MergeSourceTree { signature, message, destination, base } => match reply {
            Reply::Tree(tree) => moves(
                before,
                after,
                action,
                Stage::MergeDestinationTree { signature, message, destination, base, theirs: tree },
                Request::LoadTree { tree: destination.tree },
            ),
            _ => abort,
        },
        Stage::MergeDestinationTree { signature, message, destination, base, theirs } => match reply {
            Reply::Tree(ours) => if mergeable(base@, theirs@, ours@) {
                moves(
                    before,
                    after,
                    action,
                    Stage::Writing { signature, message, destination },
                    Request::WriteTree { content: merged(base@, theirs@, ours@) },
                )
            } else {
                &&& rests(before, after)
                &&& action@ matches Request::Finish { outcome: Ending::Blocked { conflicts } }
                &&& is_conflict_list(conflicts, base@, theirs@, ours@)
            },
            _ => abort,
        },
        Stage::Writing { signature, message, destination } => match reply {
            Reply::Id(tree) => moves(
                before,
                after,
                action,
                Stage::Committing,
                Request::Commit {
                    tree,
                    parents: seq![destination.id],
                    signature: (signature.name@, signature.email@),
                    message: message@,
                },
            ),
            _ => abort,
        },
        Stage::Committing => match reply {
            Reply::Id(commit) => moves(
                before,
                after,
                action,
                Stage::Advancing { commit },
                Request::Advance { commit },
            ),
            _ => abort,
        },
        Stage::Advancing { commit } => match reply {
            Reply::Done => {
                &&& after == (Session {
                    head: Some(commit),
                    ..before.at(Stage::Cleaning { commit })
                })
                &&& action@ == Request::CleanupState
            },
            _ => abort,
        },
        Stage::Cleaning { commit } => match reply {
            Reply::Done => {
                &&& rests(before, after)
                &&& action@ == (Request::Finish { outcome: Ending::Merged { commit } })
            },
            _ => abort,
        },
        _ => false,
    }
}

/// The stage belongs to setting up.
pub open spec fn in_setup(stage: Stage) -> bool {
    stage is Initializing || stage is Opening || stage is Adding || stage is Finding
        || stage is Fetching || stage is Resolving || stage is Branching || stage is Heading
        || stage is CheckingOut
}

/// The stage belongs to comparing.
pub open spec fn in_diff(stage: Stage) -> bool {
    stage is DiffSource || stage is DiffDestination || stage is DiffSourceTree
        || stage is DiffDestinationTree
}

/// A session that stood at `before` and got `reply` stands at `after` and
/// asks for `action`.
pub open spec fn follows(before: Session, reply: Reply, after: Session, action: Action) -> bool {
    if before.stage is Idle {
        rests(before, after) && action@ == (Request::Finish { outcome: Ending::Nothing })
    } else if in_setup(before.stage) {
        setup_follows(before, reply, after, action)
    } else if in_diff(before.stage) {
        diff_follows(before, reply, after, action)
    } else {
        merge_follows(before, reply, after, action)
    }
}

/// What `step` has worked out: the stage to go to, the commit that the local
/// branch points at, and the action to hand out.
struct Turn {
    stage: Stage,
    head: Option<ObjectId>,
    action: Action,
}

impl Fork {
    /// A session between `src` and `dst` whose local store is at `path`, or
    /// at `./sandbox` where no path is given, and the first action of setting
    /// it up.
    pub fn new(src: Remote, dst: Remote, path: Option<&str>) -> (start: (Fork, Action))
        ensures
            start.0@ == (Session {
                source: src@,
                destination: dst@,
                path: match path {
                    Some(p) => p@,
                    None => "./sandbox"@,
                },
                head: None,
                stage: Stage::Initializing,
            }),
            start.1@ == (Request::InitStore { path: start.0@.path }),
    {
        let path = match path {
            Some(p) => String::from_str(p),
            None => String::from_str("./sandbox"),
        };
        let action = Action::InitStore { path: path.clone() };
        (Fork { src, dst, path, head: None, stage: Stage::Initializing }, action)
    }

    /// The source remote.
    pub fn source(&self) -> (remote: &Remote)
        ensures
            remote@ == self@.source,
    {
        &self.src
    }

    /// The destination remote.
    pub fn destination(&self) -> (remote: &Remote)
        ensures
            remote@ == self@.destination,
    {
        &self.dst
    }

    /// The path of the local store.
    pub fn store_path(&self) -> (path: &str)
        ensures
            path@ == self@.path,
    {
        self.path.as_str()
    }

    /// The commit that the local branch points at, as far as the session has
    /// set it.
    pub fn local_head(&self) -> (head: Option<ObjectId>)
        ensures
            head == self@.head,
    {
        self.head
    }

    /// Whether no run is under way.
    pub fn is_idle(&self) -> (idle: bool)
        ensures
            idle == (self@.stage is Idle),
    {
        match self.stage {
            Stage::Idle => true,
            _ => false,
        }
    }

    /// Starts comparing the two heads, in place of any run under way, and
    /// returns the first action.
    pub fn get_diff(&mut self) -> (action: Action)
        ensures
            final(self)@ == old(self)@.at(Stage::DiffSource),
            action@ == (Request::ResolveRef { name: tracking_name(old(self)@.source) }),
    {
        self.stage = Stage::DiffSource;
        self.src.resolve()
    }

    /// Starts merging the source's head into the destination's, in place of
    /// any run under way, and returns the first action. The commit of a clean
    /// merge will be made by `signature` with `message`.
    pub fn merge(&mut self, signature: Signature, message: String) -> (action: Action)
        ensures
            final(self)@ == old(self)@.at(Stage::MergeSource { signature, message }),
            action@ == (Request::ResolveRef { name: tracking_name(old(self)@.source) }),
    {
        self.stage = Stage::MergeSource { signature, message };
        self.src.resolve()
    }

    /// Takes the store's reply to the action handed out last, and returns
    /// the next action.
    pub fn step(&mut self, reply: Reply) -> (action: Action)
        ensures
            follows(old(self)@, reply, final(self)@, action),
    {
        let mut stage = Stage::Idle;
        core::mem::swap(&mut stage, &mut self.stage);
        let turn = self.turn(stage, reply);
        self.stage = turn.stage;
        self.head = turn.head;
        turn.action
    }

    /// The session as a plain value, were it at `stage` with the local
    /// branch at `head`.
    closed spec fn seen(&self, stage: Stage, head: Option<ObjectId>) -> Session {
        Session {
            source: self.src@,
            destination: self.dst@,
            path: self.path@,
            head,
            stage,
        }
    }

    fn go(&self, stage: Stage, action: Action) -> (turn: Turn)
        ensures
            turn.stage == stage,
            turn.head == self.head,
            turn.action == action,
    {
        Turn { stage, head: self.head, action }
    }

    fn stop(&self, action: Action) -> (turn: Turn)
        ensures
            turn.stage == Stage::Idle,
            turn.head == self.head,
            turn.action == action,
    {
        Turn { stage: Stage::Idle, head: self.head, action }
    }

    fn side(&self, side: Side) -> (remote: &Remote)
        ensures
            remote@ == self@.endpoint(side),
    {
        match side {
            Side::Source => &self.src,
            Side::Destination => &self.dst,
        }
    }

    fn turn(&self, stage: Stage, reply: Reply) -> (turn: Turn)
        ensures
            follows(
                self.seen(stage, self.head),
                reply,
                self.seen(turn.stage, turn.head),
                turn.action,
            ),
    {
        match stage {
            Stage::Idle => self.stop(Action::Finish { outcome: Outcome::Nothing }),
            Stage::Initializing => match reply {
                Reply::Done => self.go(Stage::Adding { side: Side::Source }, self.src.add()),
                _ => self.go(Stage::Opening, Action::OpenStore { path: self.path.clone() }),
            },
            Stage::Opening => match reply {
                Reply::Done => self.go(Stage::Adding { side: Side::Source }, self.src.add()),
                other => self.stop(store_failed(Step::Open, other)),
            },
            Stage::Adding { side } => match reply {
                Reply::Done => self.go(Stage::Fetching { side }, self.side(side).fetch()),
                _ => self.go(Stage::Finding { side }, self.side(side).find()),
            },
            Stage::Finding { side } => match reply {
                Reply::Done => self.go(Stage::Fetching { side }, self.side(side).fetch()),
                other => self.stop(store_failed(Step::Register, other)),
            },
            Stage::Fetching { side } => match reply {
                Reply::Done => match side {
                    Side::Source => self.go(
                        Stage::Adding { side: Side::Destination },
                        self.dst.add(),
                    ),
                    Side::Destination => self.go(Stage::Resolving, self.dst.resolve()),
                },
                other => self.stop(
                    failed(
                        SyncError::FetchFailed {
                            remote: self.side(side).name.clone(),
                            cause: cause(other),
                        },
                    ),
                ),
            },
            Stage::Resolving => match head_of(self.dst.tracking_ref(), reply) {
                Ok(commit) => self.go(
                    Stage::Branching { head: commit.id },
                    Action::CreateBranch { name: self.dst.name.clone(), commit: commit.id },
                ),
                Err(error) => self.stop(failed(error)),
            },
            Stage::Branching { head } => match reply {
                Reply::Name(name) => self.go(Stage::Heading { head }, Action::SetHead { name }),
                other => self.stop(store_failed(Step::Branch, other)),
            },
            Stage::Heading { head } => match reply {
                Reply::Done => self.go(Stage::CheckingOut { head }, Action::CheckoutHead),
                other => self.stop(store_failed(Step::Head, other)),
            },
            Stage::CheckingOut { head } => match reply {
                Reply::Done => Turn {
                    stage: Stage::Idle,
                    head: Some(head),
                    action: Action::Finish { outcome: Outcome::Ready },
                },
                other => self.stop(store_failed(Step::Checkout, other)),
            },
            Stage::DiffSource => match head_of(self.src.tracking_ref(), reply) {
                Ok(commit) => self.go(
                    Stage::DiffDestination { source: commit },
                    self.dst.resolve(),
                ),
                Err(error) => self.stop(failed(error)),
            },
            Stage::DiffDestination { source } => match head_of(self.dst.tracking_ref(), reply) {
                Ok(commit) => {
                    let action = Action::LoadTree { tree: source.tree };
                    self.go(Stage::DiffSourceTree { source, destination: commit }, action)
                },
                Err(error) => self.stop(failed(error)),
            },
            Stage::DiffSourceTree { source, destination } => match reply {
                Reply::Tree(tree) => {
                    let action = Action::LoadTree { tree: destination.tree };
                    self.go(Stage::DiffDestinationTree { from: tree, destination }, action)
                },
                _ => self.stop(failed(SyncError::MissingTree { commit: source.id })),
            },
            Stage::DiffDestinationTree { from, destination } => match reply {
                Reply::Tree(tree) => {
                    let changes = diff(&from, &tree);
                    self.stop(Action::Finish { outcome: Outcome::Diff(changes) })
                },
                _ => self.stop(failed(SyncError::MissingTree { commit: destination.id })),
            },
            Stage::MergeSource { signature, message } => match head_of_in_merge(
                self.src.tracking_ref(),
                reply,
            ) {
                Ok(commit) => self.go(
                    Stage::MergeDestination { signature, message, source: commit },
                    self.dst.resolve(),
                ),
                Err(error) => self.stop(failed(error)),
            },
            Stage::MergeDestination { signature, message, source } => match head_of_in_merge(
                self.dst.tracking_ref(),
                reply,
            ) {
                Ok(commit) => {
                    let action = Action::FindMergeBase { one: source.id, two: commit.id };
                    self.go(
                        Stage::MergeBase { signature, message, source, destination: commit },
                        action,
                    )
                },
                Err(error) => self.stop(failed(error)),
            },
            Stage::MergeBase { signature, message, source, destination } => match reply {
                Reply::Commit(base) => self.go(
                    Stage::MergeBaseTree { signature, message, source, destination },
                    Action::LoadTree { tree: base.tree },
                ),
                Reply::Missing => {
                    let action = Action::LoadTree { tree: source.tree };
                    self.go(
                        Stage::MergeSourceTree { signature, message, destination, base: Tree::new() },
                        action,
                    )
                },
                other => self.stop(aborted(other)),
            },
            Stage::MergeBaseTree { signature, message, source, destination } => match reply {
                Reply::Tree(tree) => {
                    let action = Action::LoadTree { tree: source.tree };
                    self.go(
                        Stage::MergeSourceTree { signature, message, destination, base: tree },
                        action,
                    )
                },
                other => self.stop(aborted(other)),
            },
            Stage::MergeSourceTree { signature, message, destination, base } => match reply {
                Reply::Tree(tree) => {
                    let action = Action::LoadTree { tree: destination.tree };
                    self.go(
                        Stage::MergeDestinationTree {
                            signature,
                            message,
                            destination,
                            base,
                            theirs: tree,
                        },
                        action,
                    )
                },
                other => self.stop(aborted(other)),
            },
            Stage::MergeDestinationTree { signature, message, destination, base, theirs } => match reply {
                Reply::Tree(ours) => match merge(&base, &theirs, &ours) {
                    MergeResult::Clean { tree } => self.go(
                        Stage::Writing { signature, message, destination },
                        Action::WriteTree { content: tree },
                    ),
                    MergeResult::Blocked { conflicts } => {
                        proof {
                            assert(conflicted_at(base@, theirs@, ours@, conflicts@[0].path@));
                        }
                        self.stop(Action::Finish { outcome: Outcome::Blocked { conflicts } })
                    },
                },
                other => self.stop(aborted(other)),
            },
            Stage::Writing { signature, message, destination } => match reply {
                Reply::Id(tree) => {
                    let mut parents: Vec<ObjectId> = Vec::new();
                    parents.push(destination.id);
                    self.go(
                        Stage::Committing,
                        Action::Commit { tree, parents, signature, message },
                    )
                },
                other => self.stop(aborted(other)),
            },
            Stage::Committing => match reply {
                Reply::Id(commit) => self.go(
                    Stage::Advancing { commit },
                    Action::Advance { commit },
                ),
                other => self.stop(aborted(other)),
            },
            Stage::Advancing { commit } => match reply {
                Reply::Done => Turn {
                    stage: Stage::Cleaning { commit },
                    head: Some(commit),
                    action: Action::CleanupState,
                },
                other => self.stop(aborted(other)),
            },
            Stage::Cleaning { commit } => match reply {
                Reply::Done => self.stop(Action::Finish { outcome: Outcome::Merged { commit } }),
                other => self.stop(aborted(other)),
            },
        }
    }
}

/// The most steps that a run at `stage` can still take.
pub open spec fn steps_left(stage: Stage) -> nat {
    match stage {
        Stage::Idle => 0,
        Stage::Initializing => 12,
        Stage::Opening => 11,
        Stage::Adding { side: Side::Source } => 10,
        Stage::Finding { side: Side::Source } => 9,
        Stage::Fetching { side: Side::Source } => 8,
        Stage::Adding { side: Side::Destination } => 7,
        Stage::Finding { side: Side::Destination } => 6,
        Stage::Fetching { side: Side::Destination } => 5,
        Stage::Resolving => 4,
        Stage::Branching { .. } => 3,
        Stage::Heading { .. } => 2,
        Stage::CheckingOut { .. } => 1,
        Stage::DiffSource => 4,
        Stage::DiffDestination { .. } => 3,
        Stage::DiffSourceTree { .. } => 2,
        Stage::DiffDestinationTree { .. } => 1,
        Stage::MergeSource { .. } => 10,
        Stage::MergeDestination { .. } => 9,
        Stage::MergeBase { .. } => 8,
        Stage::MergeBaseTree { .. } => 7,
        Stage::MergeSourceTree { .. } => 6,
        Stage::MergeDestinationTree { .. } => 5,
        Stage::Writing { .. } => 4,
        Stage::Committing => 3,
        Stage::Advancing { .. } => 2,
        Stage::Cleaning { .. } => 1,
    }
}

/// Every run ends: each step of a run brings the session nearer to rest,
/// whatever the store replies, and the action that a step hands out says
/// that the run is over exactly when the session has come to rest.
pub proof fn lemma_runs_end(before: Session, reply: Reply, after: Session, action: Action)
    requires
        follows(before, reply, after, action),
    ensures
        !(before.stage is Idle) ==> steps_left(after.stage) < steps_left(before.stage),
        action is Finish <==> after.stage is Idle,
{
}

/// Where the store can be neither made nor opened, setting up fails with the
/// cause that the attempt to open gave; what the attempt to make gave is
/// dropped.
pub proof fn lemma_open_failure_is_reported(
    start: Session,
    made: Reply,
    between: Session,
    second: Action,
    opened: Reply,
    end: Session,
    last: Action,
)
    requires
        start.stage is Initializing,
        !(made is Done),
        !(opened is Done),
        follows(start, made, between, second),
        follows(between, opened, end, last),
    ensures
        second@ == (Request::OpenStore { path: start.path }),
        last@ == (Request::Finish {
            outcome: Ending::Failed(
                Fault::StoreFailed { step: Step::Open, cause: cause_of(opened) },
            ),
        }),
        end == start.at(Stage::Idle),
{
}

/// A path in conflict blocks the merge: when the destination's tree comes in
/// and some path is in conflict, the run ends as blocked with that path among
/// the conflicts, no commit is asked for, and the local branch stays where
/// it was.
pub proof fn lemma_conflict_blocks(
    before: Session,
    ours: Tree,
    after: Session,
    action: Action,
    p: Seq<u8>,
)
    requires
        before.stage matches Stage::MergeDestinationTree { base, theirs, .. } && conflicted_at(
            base@,
            theirs@,
            ours@,
            p,
        ),
        follows(before, Reply::Tree(ours), after, action),
    ensures
        after.stage is Idle,
        after.head == before.head,
        action@ matches Request::Finish { outcome: Ending::Blocked { conflicts } } && reports(
            conflicts,
            p,
        ),
{
}

/// Merging a head with itself is clean: when the destination's tree comes in
/// and it is the source's tree, the tree to be written is that tree,
/// whatever the base.
pub proof fn lemma_same_trees_merge_clean(
    before: Session,
    ours: Tree,
    after: Session,
    action: Action,
)
    requires
        before.stage matches Stage::MergeDestinationTree { theirs, .. } && theirs@ == ours@,
        follows(before, Reply::Tree(ours), after, action),
    ensures
        after.stage is Writing,
        after.head == before.head,
        action@ == (Request::WriteTree { content: ours@ }),
{
    match before.stage {
        Stage::MergeDestinationTree { base, theirs, .. } => {
            lemma_merge_same_sides(base@, ours@);
        },
        _ => {},
    }
}

/// A commit is asked for only once a clean merge has been written, and its
/// one parent is the destination's head. The local branch moves only when
/// the store has checked out the branch made in setting up, or has moved it
/// to the commit of a merge.
pub proof fn lemma_commit_and_head(before: Session, reply: Reply, after: Session, action: Action)
    requires
        follows(before, reply, after, action),
    ensures
        action is Commit ==> (before.stage matches Stage::Writing { destination, .. }
            && action->parents@ == seq![destination.id]),
        after.head != before.head ==> reply is Done && (before.stage is CheckingOut
            || before.stage is Advancing),
        after.source == before.source,
        after.destination == before.destination,
        after.path == before.path,
{
}

} // verus!
