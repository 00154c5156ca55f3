use kagami::diff::Change;
use kagami::fork::{resolve_head, Fork, Remote};
use kagami::merge::Conflict;
use kagami::object::ObjectId;
use kagami::protocol::{Action, Commit, Outcome, Reply, Signature, Step, SyncError};
use kagami::tree::{Leaf, Tree};

fn id(byte: u8) -> ObjectId {
    ObjectId::from_bytes([byte; 20])
}

fn leaf(byte: u8) -> Leaf {
    Leaf { mode: 0o100644, id: id(byte) }
}

fn path(text: &str) -> Vec<u8> {
    text.as_bytes().to_vec()
}

fn tree(lines: &[(&str, u8)]) -> Tree {
    let mut tree = Tree::new();
    for (name, byte) in lines {
        tree.insert(path(name), leaf(*byte));
    }
    tree
}

fn commit(name: u8, tree: u8) -> Commit {
    Commit { id: id(name), tree: id(tree), parents: Vec::new() }
}

fn github() -> Remote {
    Remote::new("github", "https://github.example/project.git", "master", "alice", "s3cret")
}

fn gitlab() -> Remote {
    Remote::new("gitlab", "https://gitlab.example/project.git", "main", "bob", "hunter2")
}

fn signature() -> Signature {
    Signature { name: String::from("Alice"), email: String::from("alice@example.org") }
}

fn failure(text: &str) -> Reply {
    Reply::Failed { cause: String::from(text) }
}

fn failed(error: SyncError) -> Action {
    Action::Finish { outcome: Outcome::Failed(error) }
}

fn resolve(name: &str) -> Action {
    Action::ResolveRef { name: String::from(name) }
}

/// A session that has been set up, with the local branch at commit 0x0d.
fn ready() -> Fork {
    let (mut fork, _) = Fork::new(github(), gitlab(), None);
    let replies = vec![
        Reply::Done,
        Reply::Done,
        Reply::Done,
        Reply::Done,
        Reply::Done,
        Reply::Commit(commit(0x0d, 0xd0)),
        Reply::Name(String::from("refs/heads/gitlab")),
        Reply::Done,
    ];
    for reply in replies {
        fork.step(reply);
    }
    assert_eq!(fork.step(Reply::Done), Action::Finish { outcome: Outcome::Ready });
    fork
}

/// A merge run taken up to the point where the destination's tree is asked for.
fn merging(base: Option<Tree>, source: Tree) -> Fork {
    let mut fork = ready();
    fork.merge(signature(), String::from("Merge commit"));
    fork.step(Reply::Commit(commit(0x05, 0x50)));
    fork.step(Reply::Commit(commit(0x0d, 0xd0)));
    match base {
        Some(tree) => {
            assert_eq!(
                fork.step(Reply::Commit(commit(0x0b, 0xb0))),
                Action::LoadTree { tree: id(0xb0) }
            );
            assert_eq!(fork.step(Reply::Tree(tree)), Action::LoadTree { tree: id(0x50) });
        }
        None => {
            assert_eq!(fork.step(Reply::Missing), Action::LoadTree { tree: id(0x50) });
        }
    }
    assert_eq!(fork.step(Reply::Tree(source)), Action::LoadTree { tree: id(0xd0) });
    fork
}

#[test]
fn remote_keeps_what_it_was_made_of() {
    let remote = github();
    assert_eq!(remote.name(), "github");
    assert_eq!(remote.url(), "https://github.example/project.git");
    assert_eq!(remote.branch(), "master");
    assert_eq!(remote.username(), "alice");
    assert_eq!(remote.password(), "s3cret");
}

#[test]
fn tracking_ref_is_name_slash_branch() {
    assert_eq!(github().tracking_ref(), "github/master");
    assert_eq!(gitlab().tracking_ref(), "gitlab/main");
    assert_eq!(Remote::new("", "", "", "", "").tracking_ref(), "/");
    assert_eq!(Remote::new("o", "u", "feature/x", "", "").tracking_ref(), "o/feature/x");
}

#[test]
fn new_session_makes_the_store_at_the_given_path() {
    let (fork, action) = Fork::new(github(), gitlab(), Some("/var/lib/mirror"));
    assert_eq!(action, Action::InitStore { path: String::from("/var/lib/mirror") });
    assert_eq!(fork.store_path(), "/var/lib/mirror");
    assert_eq!(fork.source(), &github());
    assert_eq!(fork.destination(), &gitlab());
    assert_eq!(fork.local_head(), None);
    assert!(!fork.is_idle());
}

#[test]
fn new_session_without_a_path_uses_the_default_path() {
    let (fork, action) = Fork::new(github(), gitlab(), None);
    assert_eq!(action, Action::InitStore { path: String::from("./sandbox") });
    assert_eq!(fork.store_path(), "./sandbox");
}

#[test]
fn setting_up_goes_through_every_step_in_order() {
    let (mut fork, action) = Fork::new(github(), gitlab(), None);
    assert_eq!(action, Action::InitStore { path: String::from("./sandbox") });
    assert_eq!(
        fork.step(Reply::Done),
        Action::AddRemote {
            name: String::from("github"),
            url: String::from("https://github.example/project.git"),
        }
    );
    assert_eq!(
        fork.step(Reply::Done),
        Action::Fetch {
            remote: String::from("github"),
            branch: String::from("master"),
            username: String::from("alice"),
            password: String::from("s3cret"),
        }
    );
    assert_eq!(
        fork.step(Reply::Done),
        Action::AddRemote {
            name: String::from("gitlab"),
            url: String::from("https://gitlab.example/project.git"),
        }
    );
    assert_eq!(
        fork.step(Reply::Done),
        Action::Fetch {
            remote: String::from("gitlab"),
            branch: String::from("main"),
            username: String::from("bob"),
            password: String::from("hunter2"),
        }
    );
    assert_eq!(fork.step(Reply::Done), resolve("gitlab/main"));
    assert_eq!(
        fork.step(Reply::Commit(commit(0x0d, 0xd0))),
        Action::CreateBranch { name: String::from("gitlab"), commit: id(0x0d) }
    );
    assert_eq!(
        fork.step(Reply::Name(String::from("refs/heads/gitlab"))),
        Action::SetHead { name: String::from("refs/heads/gitlab") }
    );
    assert_eq!(fork.step(Reply::Done), Action::CheckoutHead);
    assert_eq!(fork.local_head(), None);
    assert_eq!(fork.step(Reply::Done), Action::Finish { outcome: Outcome::Ready });
    assert_eq!(fork.local_head(), Some(id(0x0d)));
    assert!(fork.is_idle());
}

#[test]
fn a_store_that_cannot_be_made_is_opened() {
    let (mut fork, first) = Fork::new(github(), gitlab(), Some("mirror"));
    assert_eq!(first, Action::InitStore { path: String::from("mirror") });
    assert_eq!(
        fork.step(failure("a repository is there already")),
        Action::OpenStore { path: String::from("mirror") }
    );
    assert_eq!(
        fork.step(Reply::Done),
        Action::AddRemote {
            name: String::from("github"),
            url: String::from("https://github.example/project.git"),
        }
    );
}

#[test]
fn a_store_that_can_be_neither_made_nor_opened_fails_with_the_cause_of_the_opening() {
    let (mut fork, _) = Fork::new(github(), gitlab(), None);
    assert_eq!(
        fork.step(failure("read-only file system")),
        Action::OpenStore { path: String::from("./sandbox") }
    );
    assert_eq!(
        fork.step(failure("no repository here")),
        failed(SyncError::StoreFailed {
            step: Step::Open,
            cause: String::from("no repository here"),
        })
    );
    assert!(fork.is_idle());
    assert_eq!(fork.local_head(), None);
}

#[test]
fn a_store_that_is_made_is_not_opened() {
    let (mut fork, _) = Fork::new(github(), gitlab(), None);
    assert_eq!(
        fork.step(Reply::Done),
        Action::AddRemote {
            name: String::from("github"),
            url: String::from("https://github.example/project.git"),
        }
    );
}

#[test]
fn a_remote_that_is_there_already_is_used_again() {
    let (mut fork, _) = Fork::new(github(), gitlab(), None);
    fork.step(Reply::Done);
    assert_eq!(
        fork.step(failure("remote 'github' already exists")),
        Action::FindRemote { name: String::from("github") }
    );
    assert_eq!(
        fork.step(Reply::Done),
        Action::Fetch {
            remote: String::from("github"),
            branch: String::from("master"),
            username: String::from("alice"),
            password: String::from("s3cret"),
        }
    );
    fork.step(Reply::Done);
    assert_eq!(
        fork.step(failure("remote 'gitlab' already exists")),
        Action::FindRemote { name: String::from("gitlab") }
    );
    assert_eq!(
        fork.step(failure("no such remote")),
        failed(SyncError::StoreFailed { step: Step::Register, cause: String::from("no such remote") })
    );
}

#[test]
fn a_failed_fetch_names_its_remote_and_is_not_tried_again() {
    let (mut fork, _) = Fork::new(github(), gitlab(), None);
    fork.step(Reply::Done);
    fork.step(Reply::Done);
    assert_eq!(
        fork.step(failure("authentication required")),
        failed(SyncError::FetchFailed {
            remote: String::from("github"),
            cause: String::from("authentication required"),
        })
    );
    assert!(fork.is_idle());
    assert_eq!(fork.step(Reply::Done), Action::Finish { outcome: Outcome::Nothing });

    let (mut fork, _) = Fork::new(github(), gitlab(), None);
    for _ in 0..4 {
        fork.step(Reply::Done);
    }
    assert_eq!(
        fork.step(failure("connection reset")),
        failed(SyncError::FetchFailed {
            remote: String::from("gitlab"),
            cause: String::from("connection reset"),
        })
    );
}

#[test]
fn setting_up_fails_where_the_destination_has_no_head() {
    let (mut fork, _) = Fork::new(github(), gitlab(), None);
    for _ in 0..5 {
        fork.step(Reply::Done);
    }
    assert_eq!(
        fork.step(Reply::Missing),
        failed(SyncError::RefNotFound { name: String::from("gitlab/main") })
    );
    assert_eq!(fork.local_head(), None);
}

#[test]
fn setting_up_stops_at_a_failure_of_the_last_three_steps() {
    let steps = [Step::Branch, Step::Head, Step::Checkout];
    for (n, step) in steps.iter().enumerate() {
        let (mut fork, _) = Fork::new(github(), gitlab(), None);
        for _ in 0..5 {
            fork.step(Reply::Done);
        }
        fork.step(Reply::Commit(commit(0x0d, 0xd0)));
        if n >= 1 {
            fork.step(Reply::Name(String::from("refs/heads/gitlab")));
        }
        if n >= 2 {
            fork.step(Reply::Done);
        }
        assert_eq!(
            fork.step(failure("disk full")),
            failed(SyncError::StoreFailed { step: *step, cause: String::from("disk full") })
        );
        assert_eq!(fork.local_head(), None);
        assert!(fork.is_idle());
    }
}

#[test]
fn a_reply_of_the_wrong_kind_counts_as_a_failure() {
    let (mut fork, _) = Fork::new(github(), gitlab(), None);
    for _ in 0..5 {
        fork.step(Reply::Done);
    }
    fork.step(Reply::Commit(commit(0x0d, 0xd0)));
    assert_eq!(
        fork.step(Reply::Done),
        failed(SyncError::StoreFailed {
            step: Step::Branch,
            cause: String::from("unexpected reply"),
        })
    );
}

#[test]
fn step_without_a_run_does_nothing() {
    let mut fork = ready();
    assert_eq!(fork.step(Reply::Done), Action::Finish { outcome: Outcome::Nothing });
    assert_eq!(fork.step(Reply::Tree(Tree::new())), Action::Finish { outcome: Outcome::Nothing });
    assert_eq!(fork.local_head(), Some(id(0x0d)));
    assert!(fork.is_idle());
}

#[test]
fn resolve_head_tells_the_replies_apart() {
    let name = || String::from("github/master");
    assert_eq!(resolve_head("github", "master", Reply::Commit(commit(1, 2))), Ok(commit(1, 2)));
    assert_eq!(
        resolve_head("github", "master", Reply::Missing),
        Err(SyncError::RefNotFound { name: name() })
    );
    assert_eq!(
        resolve_head("github", "master", Reply::NotCommit),
        Err(SyncError::AmbiguousOrNonCommit { name: name() })
    );
    assert_eq!(
        resolve_head("github", "master", failure("corrupt ref")),
        Err(SyncError::StoreFailed { step: Step::Resolve, cause: String::from("corrupt ref") })
    );
    assert_eq!(
        resolve_head("github", "master", Reply::Id(id(1))),
        Err(SyncError::StoreFailed { step: Step::Resolve, cause: String::from("unexpected reply") })
    );
    assert_eq!(
        resolve_head("origin", "feature/x", Reply::Missing),
        Err(SyncError::RefNotFound { name: String::from("origin/feature/x") })
    );
}

#[test]
fn get_diff_compares_the_source_with_the_destination() {
    let mut fork = ready();
    assert_eq!(fork.get_diff(), resolve("github/master"));
    assert!(!fork.is_idle());
    assert_eq!(fork.step(Reply::Commit(commit(0x05, 0x50))), resolve("gitlab/main"));
    assert_eq!(fork.step(Reply::Commit(commit(0x0d, 0xd0))), Action::LoadTree { tree: id(0x50) });
    assert_eq!(
        fork.step(Reply::Tree(tree(&[("only-source", 1), ("both", 2)]))),
        Action::LoadTree { tree: id(0xd0) }
    );
    assert_eq!(
        fork.step(Reply::Tree(tree(&[("only-destination", 3), ("both", 4)]))),
        Action::Finish {
            outcome: Outcome::Diff(vec![
                Change::Modified { path: path("both"), before: leaf(2), after: leaf(4) },
                Change::Added { path: path("only-destination"), after: leaf(3) },
                Change::Removed { path: path("only-source"), before: leaf(1) },
            ])
        }
    );
    assert!(fork.is_idle());
    assert_eq!(fork.local_head(), Some(id(0x0d)));
}

#[test]
fn get_diff_of_equal_heads_is_empty() {
    let mut fork = ready();
    fork.get_diff();
    fork.step(Reply::Commit(commit(0x0d, 0xd0)));
    fork.step(Reply::Commit(commit(0x0d, 0xd0)));
    fork.step(Reply::Tree(tree(&[("a", 1)])));
    assert_eq!(
        fork.step(Reply::Tree(tree(&[("a", 1)]))),
        Action::Finish { outcome: Outcome::Diff(Vec::new()) }
    );
}

#[test]
fn get_diff_fails_on_a_name_that_is_no_commit() {
    let mut fork = ready();
    fork.get_diff();
    assert_eq!(
        fork.step(Reply::NotCommit),
        failed(SyncError::AmbiguousOrNonCommit { name: String::from("github/master") })
    );
    fork.get_diff();
    fork.step(Reply::Commit(commit(0x05, 0x50)));
    assert_eq!(
        fork.step(Reply::NotCommit),
        failed(SyncError::AmbiguousOrNonCommit { name: String::from("gitlab/main") })
    );
}

#[test]
fn get_diff_fails_on_a_tree_that_cannot_be_loaded() {
    let mut fork = ready();
    fork.get_diff();
    fork.step(Reply::Commit(commit(0x05, 0x50)));
    fork.step(Reply::Commit(commit(0x0d, 0xd0)));
    assert_eq!(
        fork.step(failure("object not found")),
        failed(SyncError::MissingTree { commit: id(0x05) })
    );
    assert!(fork.is_idle());

    fork.get_diff();
    fork.step(Reply::Commit(commit(0x05, 0x50)));
    fork.step(Reply::Commit(commit(0x0d, 0xd0)));
    fork.step(Reply::Tree(Tree::new()));
    assert_eq!(fork.step(Reply::Missing), failed(SyncError::MissingTree { commit: id(0x0d) }));
}

#[test]
fn merge_of_a_clean_tree_commits_on_the_destination_head() {
    let base = tree(&[("kept", 1)]);
    let mut fork = merging(Some(base.clone()), tree(&[("kept", 1), ("new", 2)]));
    assert_eq!(
        fork.step(Reply::Tree(base)),
        Action::WriteTree { content: tree(&[("kept", 1), ("new", 2)]) }
    );
    assert_eq!(
        fork.step(Reply::Id(id(0x77))),
        Action::Commit {
            tree: id(0x77),
            parents: vec![id(0x0d)],
            signature: signature(),
            message: String::from("Merge commit"),
        }
    );
    assert_eq!(fork.local_head(), Some(id(0x0d)));
    assert_eq!(fork.step(Reply::Id(id(0xcc))), Action::Advance { commit: id(0xcc) });
    assert_eq!(fork.local_head(), Some(id(0x0d)));
    assert_eq!(fork.step(Reply::Done), Action::CleanupState);
    assert_eq!(fork.local_head(), Some(id(0xcc)));
    assert_eq!(
        fork.step(Reply::Done),
        Action::Finish { outcome: Outcome::Merged { commit: id(0xcc) } }
    );
    assert_eq!(fork.local_head(), Some(id(0xcc)));
    assert!(fork.is_idle());
}

#[test]
fn merge_asks_for_the_heads_and_their_base() {
    let mut fork = ready();
    assert_eq!(fork.merge(signature(), String::from("m")), resolve("github/master"));
    assert_eq!(fork.step(Reply::Commit(commit(0x05, 0x50))), resolve("gitlab/main"));
    assert_eq!(
        fork.step(Reply::Commit(commit(0x0d, 0xd0))),
        Action::FindMergeBase { one: id(0x05), two: id(0x0d) }
    );
}

#[test]
fn merge_of_a_head_with_itself_writes_the_destination_tree() {
    let side = tree(&[("a", 1), ("b", 2)]);
    let mut fork = merging(Some(tree(&[("a", 9)])), side.clone());
    assert_eq!(fork.step(Reply::Tree(side.clone())), Action::WriteTree { content: side });
}

#[test]
fn merge_without_a_common_ancestor_uses_an_empty_base() {
    let mut fork = merging(None, tree(&[("theirs", 1)]));
    assert_eq!(
        fork.step(Reply::Tree(tree(&[("ours", 2)]))),
        Action::WriteTree { content: tree(&[("ours", 2), ("theirs", 1)]) }
    );
}

#[test]
fn merge_with_a_conflict_is_blocked_and_commits_nothing() {
    let base = tree(&[("f", 1)]);
    let mut fork = merging(Some(base), tree(&[("f", 2)]));
    assert_eq!(
        fork.step(Reply::Tree(tree(&[("f", 3)]))),
        Action::Finish {
            outcome: Outcome::Blocked {
                conflicts: vec![Conflict {
                    path: path("f"),
                    base: Some(leaf(1)),
                    source: Some(leaf(2)),
                    destination: Some(leaf(3)),
                }]
            }
        }
    );
    assert!(fork.is_idle());
    assert_eq!(fork.local_head(), Some(id(0x0d)));
    assert_eq!(fork.step(Reply::Done), Action::Finish { outcome: Outcome::Nothing });
}

#[test]
fn merge_fails_where_a_head_is_missing() {
    let mut fork = ready();
    fork.merge(signature(), String::from("m"));
    assert_eq!(
        fork.step(Reply::Missing),
        failed(SyncError::RefNotFound { name: String::from("github/master") })
    );
    fork.merge(signature(), String::from("m"));
    fork.step(Reply::Commit(commit(0x05, 0x50)));
    assert_eq!(
        fork.step(Reply::NotCommit),
        failed(SyncError::AmbiguousOrNonCommit { name: String::from("gitlab/main") })
    );
}

#[test]
fn merge_is_aborted_by_a_failure_of_the_store_at_any_step() {
    let aborted = |text: &str| failed(SyncError::MergeAborted { cause: String::from(text) });
    let base = tree(&[("kept", 1)]);
    let source = tree(&[("kept", 1), ("new", 2)]);
    // The replies of a clean run, in order.
    let replies = || {
        vec![
            Reply::Commit(commit(0x05, 0x50)),
            Reply::Commit(commit(0x0d, 0xd0)),
            Reply::Commit(commit(0x0b, 0xb0)),
            Reply::Tree(base.clone()),
            Reply::Tree(source.clone()),
            Reply::Tree(base.clone()),
            Reply::Id(id(0x77)),
            Reply::Id(id(0xcc)),
            Reply::Done,
            Reply::Done,
        ]
    };
    for failing in 0..10 {
        let mut fork = ready();
        fork.merge(signature(), String::from("m"));
        for (n, reply) in replies().into_iter().enumerate() {
            if n == failing {
                break;
            }
            fork.step(reply);
        }
        assert_eq!(fork.step(failure("i/o error")), aborted("i/o error"));
        assert!(fork.is_idle());
        let moved = failing == 9;
        assert_eq!(fork.local_head(), Some(id(if moved { 0xcc } else { 0x0d })));
    }
    let mut fork = ready();
    fork.merge(signature(), String::from("m"));
    fork.step(Reply::Commit(commit(0x05, 0x50)));
    fork.step(Reply::Commit(commit(0x0d, 0xd0)));
    assert_eq!(fork.step(Reply::Done), aborted("unexpected reply"));
}

#[test]
fn starting_a_run_drops_the_run_under_way() {
    let mut fork = ready();
    fork.merge(signature(), String::from("m"));
    fork.step(Reply::Commit(commit(0x05, 0x50)));
    assert_eq!(fork.get_diff(), resolve("github/master"));
    assert_eq!(fork.step(Reply::Commit(commit(0x05, 0x50))), resolve("gitlab/main"));
    assert_eq!(fork.step(Reply::Commit(commit(0x0d, 0xd0))), Action::LoadTree { tree: id(0x50) });
}

#[test]
fn every_run_ends_whatever_the_store_replies() {
    let replies: Vec<fn() -> Reply> = vec![
        || Reply::Done,
        || Reply::Missing,
        || Reply::NotCommit,
        || Reply::Failed { cause: String::from("no") },
        || Reply::Commit(Commit { id: id(1), tree: id(2), parents: vec![id(3)] }),
        || Reply::Tree(Tree::new()),
        || Reply::Id(id(4)),
        || Reply::Name(String::from("refs/heads/gitlab")),
    ];
    for reply in replies {
        let (mut fork, first) = Fork::new(github(), gitlab(), None);
        let starts: Vec<fn(&mut Fork) -> Action> = vec![
            |fork| fork.get_diff(),
            |fork| fork.merge(signature(), String::from("m")),
        ];
        let mut action = first;
        let mut steps = 0;
        while !matches!(action, Action::Finish { .. }) {
            assert!(!fork.is_idle());
            action = fork.step(reply());
            steps += 1;
            assert!(steps <= 12);
        }
        assert!(fork.is_idle());
        for start in starts {
            let mut action = start(&mut fork);
            let mut steps = 0;
            while !matches!(action, Action::Finish { .. }) {
                assert!(!fork.is_idle());
                action = fork.step(reply());
                steps += 1;
                assert!(steps <= 10);
            }
            assert!(fork.is_idle());
        }
    }
}
