//! The three-way merge of trees.
//!
//! A source tree and a destination tree are merged over a base tree, path by
//! path. Where only one side changed what the base records, that side is
//! taken; where both sides made the same change, it is taken once; where the
//! two sides changed the path in different ways, the path is in conflict.
//! No conflict is ever settled here: a merge with a conflict gives no tree,
//! only the list of the conflicts with what each of the three trees records.

use crate::diff::{deltas, diff, differs, is_diff, leaves_differ, mentions, Change, Delta};
use crate::path::{copy_of, lemma_precedes_irreflexive, lemma_rising_unique, precedes, rising};
use crate::tree::{Leaf, Tree};
use vstd::prelude::*;

verus! {

/// A path that the two sides changed in different ways, with what the base,
/// the source and the destination record under it.
#[derive(Clone, Debug, PartialEq, Eq)]
pub struct Conflict {
    pub path: Vec<u8>,
    pub base: Option<Leaf>,
    pub source: Option<Leaf>,
    pub destination: Option<Leaf>,
}

/// How a merge ended.
#[derive(Debug, PartialEq, Eq)]
pub enum MergeResult {
    /// No path is in conflict; `tree` is the merged tree.
    Clean { tree: Tree },
    /// The paths of `conflicts` are in conflict, and there is no merged tree.
    Blocked { conflicts: Vec<Conflict> },
}

/// The two sides changed what the base records, and not in the same way.
pub open spec fn in_conflict(
    base: Option<Leaf>,
    source: Option<Leaf>,
    destination: Option<Leaf>,
) -> bool {
    differs(base, source) && differs(base, destination) && differs(source, destination)
}

/// What the merged tree records where the base records `base`, the source
/// `source` and the destination `destination`, and these are not in conflict:
/// the destination's leaf unless the source alone changed the path, and the
/// source's leaf then.
pub open spec fn merged_leaf(
    base: Option<Leaf>,
    source: Option<Leaf>,
    destination: Option<Leaf>,
) -> Option<Leaf> {
    if differs(base, source) && !differs(base, destination) {
        source
    } else {
        destination
    }
}

/// The path `p` is in conflict between `source` and `destination` over `base`.
pub open spec fn conflicted_at(
    base: Map<Seq<u8>, Leaf>,
    source: Map<Seq<u8>, Leaf>,
    destination: Map<Seq<u8>, Leaf>,
    p: Seq<u8>,
) -> bool {
    in_conflict(base.get(p), source.get(p), destination.get(p))
}

/// No path is in conflict between `source` and `destination` over `base`.
pub open spec fn mergeable(
    base: Map<Seq<u8>, Leaf>,
    source: Map<Seq<u8>, Leaf>,
    destination: Map<Seq<u8>, Leaf>,
) -> bool {
    forall|p: Seq<u8>| !#[trigger] conflicted_at(base, source, destination, p)
}

/// The merged tree: under each path what `merged_leaf` gives for it.
pub open spec fn merged(
    base: Map<Seq<u8>, Leaf>,
    source: Map<Seq<u8>, Leaf>,
    destination: Map<Seq<u8>, Leaf>,
) -> Map<Seq<u8>, Leaf> {
    Map::new(
        |p: Seq<u8>| merged_leaf(base.get(p), source.get(p), destination.get(p)).is_some(),
        |p: Seq<u8>| merged_leaf(base.get(p), source.get(p), destination.get(p)).unwrap(),
    )
}

/// Some conflict of `c` is about the path `p`.
pub open spec fn reports(c: Seq<Conflict>, p: Seq<u8>) -> bool {
    exists|x: int| 0 <= x < c.len() && (#[trigger] c[x]).path@ == p
}

/// `c` is the list of the conflicts between `source` and `destination` over
/// `base`: its paths go up strictly in dictionary order, each conflict gives
/// what the three trees record under its path, which is in conflict, and
/// every path in conflict is in the list.
pub open spec fn is_conflict_list(
    c: Seq<Conflict>,
    base: Map<Seq<u8>, Leaf>,
    source: Map<Seq<u8>, Leaf>,
    destination: Map<Seq<u8>, Leaf>,
) -> bool {
    &&& forall|x: int, y: int|
        0 <= x < y < c.len() ==> precedes(#[trigger] c[x].path@, #[trigger] c[y].path@)
    &&& forall|x: int|
        0 <= x < c.len() ==> {
            &&& (#[trigger] c[x]).base == base.get(c[x].path@)
            &&& c[x].source == source.get(c[x].path@)
            &&& c[x].destination == destination.get(c[x].path@)
            &&& conflicted_at(base, source, destination, c[x].path@)
        }
    &&& forall|p: Seq<u8>| #[trigger]
        conflicted_at(base, source, destination, p) ==> reports(c, p)
}

impl MergeResult {
    /// Whether the merge met a conflict.
    pub fn conflicted(&self) -> (blocked: bool)
        ensures
            blocked == (self is Blocked),
    {
        match self {
            MergeResult::Clean { .. } => false,
            MergeResult::Blocked { .. } => true,
        }
    }
}

/// One of the first `n` changes of `d` is about the path `p`.
spec fn among(d: Seq<Delta>, n: int, p: Seq<u8>) -> bool {
    exists|x: int| 0 <= x < n && (#[trigger] d[x]).path == p
}

/// What the tree under construction records under `p` once the first `n`
/// changes of the source have been looked at.
spec fn partly_merged(
    d: Seq<Delta>,
    n: int,
    base: Map<Seq<u8>, Leaf>,
    source: Map<Seq<u8>, Leaf>,
    destination: Map<Seq<u8>, Leaf>,
    p: Seq<u8>,
) -> Option<Leaf> {
    if among(d, n, p) {
        merged_leaf(base.get(p), source.get(p), destination.get(p))
    } else {
        destination.get(p)
    }
}

/// Merges `source` into `destination` over `base`.
///
/// The merge is clean exactly when no path is in conflict.
pub fn merge(base: &Tree, source: &Tree, destination: &Tree) -> (result: MergeResult)
    ensures
        match result {
            MergeResult::Clean { tree } => {
                &&& mergeable(base@, source@, destination@)
                &&& tree@ == merged(base@, source@, destination@)
            },
            MergeResult::Blocked { conflicts } => {
                &&& conflicts@.len() > 0
                &&& is_conflict_list(conflicts@, base@, source@, destination@)
            },
        },
{
    let changes = diff(base, source);
    let ghost d = deltas(changes@);
    let mut tree = destination.clone();
    let mut conflicts: Vec<Conflict> = Vec::new();
    let mut k: usize = 0;
    while k < changes.len()
        invariant
            k <= changes.len(),
            d == deltas(changes@),
            is_diff(d, base@, source@),
            forall|p: Seq<u8>|
                tree@.get(p) == #[trigger] partly_merged(
                    d,
                    k as int,
                    base@,
                    source@,
                    destination@,
                    p,
                ),
            forall|x: int|
                0 <= x < conflicts.len() ==> among(d, k as int, (#[trigger] conflicts[x]).path@),
            forall|x: int, y: int|
                0 <= x < y < conflicts.len() ==> precedes(
                    #[trigger] conflicts[x].path@,
                    #[trigger] conflicts[y].path@,
                ),
            forall|x: int|
                0 <= x < conflicts.len() ==> {
                    &&& (#[trigger] conflicts[x]).base == base@.get(conflicts[x].path@)
                    &&& conflicts[x].source == source@.get(conflicts[x].path@)
                    &&& conflicts[x].destination == destination@.get(conflicts[x].path@)
                    &&& conflicted_at(base@, source@, destination@, conflicts[x].path@)
                },
            forall|x: int|
                0 <= x < k && conflicted_at(base@, source@, destination@, (#[trigger] d[x]).path)
                    ==> reports(conflicts@, d[x].path),
        decreases changes.len() - k,
    {
        let change = &changes[k];
        let path = change.path();
        let ghost p = path@;
        let ghost was = tree@;
        let ghost listed = conflicts@;
        let at_base = change.before();
        let at_source = change.after();
        let at_destination = destination.get(path.as_slice());
        proof {
            lemma_not_among(d, k as int);
        }
        if !leaves_differ(&at_base, &at_destination) {
            match at_source {
                Some(leaf) => {
                    tree.insert(copy_of(path), leaf);
                },
                None => {
                    tree.remove(path.as_slice());
                },
            }
        } else if leaves_differ(&at_source, &at_destination) {
            conflicts.push(
                Conflict {
                    path: copy_of(path),
                    base: at_base,
                    source: at_source,
                    destination: at_destination,
                },
            );
            assert(conflicts@.drop_last() =~= listed);
        }
        proof {
            assert forall|q: Seq<u8>|
                tree@.get(q) == #[trigger] partly_merged(
                    d,
                    k + 1,
                    base@,
                    source@,
                    destination@,
                    q,
                ) by {
                if q != p {
                    assert(was.get(q) == partly_merged(
                        d,
                        k as int,
                        base@,
                        source@,
                        destination@,
                        q,
                    ));
                }
            }
            assert forall|x: int|
                0 <= x < k + 1 && conflicted_at(
                    base@,
                    source@,
                    destination@,
                    (#[trigger] d[x]).path,
                ) implies reports(conflicts@, d[x].path) by {
                if x < k {
                    let y = choose|y: int|
                        0 <= y < listed.len() && (#[trigger] listed[y]).path@ == d[x].path;
                    assert(conflicts[y].path@ == d[x].path);
                } else {
                    assert(conflicts[conflicts.len() - 1].path@ == p);
                }
            }
        }
        k += 1;
    }
    if conflicts.len() == 0 {
        proof {
            assert forall|p: Seq<u8>|
                tree@.get(p) == merged_leaf(
                    base@.get(p),
                    source@.get(p),
                    destination@.get(p),
                ) by {
                assert(tree@.get(p) == partly_merged(
                    d,
                    k as int,
                    base@,
                    source@,
                    destination@,
                    p,
                ));
                if differs(base@.get(p), source@.get(p)) {
                    let x = choose|x: int| 0 <= x < d.len() && (#[trigger] d[x]).path == p;
                    assert(among(d, k as int, d[x].path));
                }
            }
            lemma_is_merged(tree@, base@, source@, destination@);
        }
        MergeResult::Clean { tree }
    } else {
        MergeResult::Blocked { conflicts }
    }
}

/// A map that records the merged leaf under every path is the merged tree.
proof fn lemma_is_merged(
    m: Map<Seq<u8>, Leaf>,
    base: Map<Seq<u8>, Leaf>,
    source: Map<Seq<u8>, Leaf>,
    destination: Map<Seq<u8>, Leaf>,
)
    requires
        forall|p: Seq<u8>|
            m.get(p) == merged_leaf(base.get(p), source.get(p), destination.get(p)),
    ensures
        m == merged(base, source, destination),
{
    let n = merged(base, source, destination);
    assert forall|p: Seq<u8>| m.contains_key(p) == n.contains_key(p) by {
        assert(m.get(p) == merged_leaf(base.get(p), source.get(p), destination.get(p)));
    }
    assert forall|p: Seq<u8>| m.contains_key(p) implies m[p] == n[p] by {
        assert(m.get(p) == merged_leaf(base.get(p), source.get(p), destination.get(p)));
    }
}

/// The change at place `n` is about a path that none of the changes before
/// it is about.
proof fn lemma_not_among(d: Seq<Delta>, n: int)
    requires
        0 <= n < d.len(),
        forall|x: int, y: int|
            0 <= x < y < d.len() ==> precedes(#[trigger] d[x].path, #[trigger] d[y].path),
    ensures
        !among(d, n, d[n].path),
{
    if among(d, n, d[n].path) {
        let x = choose|x: int| 0 <= x < n && (#[trigger] d[x]).path == d[n].path;
        assert(precedes(d[x].path, d[n].path));
        lemma_precedes_irreflexive(d[n].path);
    }
}

/// Three trees have one list of conflicts only: two lists of their
/// conflicts have the same paths and sides.
pub proof fn lemma_conflicts_unique(
    c: Seq<Conflict>,
    e: Seq<Conflict>,
    base: Map<Seq<u8>, Leaf>,
    source: Map<Seq<u8>, Leaf>,
    destination: Map<Seq<u8>, Leaf>,
)
    requires
        is_conflict_list(c, base, source, destination),
        is_conflict_list(e, base, source, destination),
    ensures
        c.len() == e.len(),
        forall|i: int|
            0 <= i < c.len() ==> {
                &&& (#[trigger] c[i]).path@ == e[i].path@
                &&& c[i].base == e[i].base
                &&& c[i].source == e[i].source
                &&& c[i].destination == e[i].destination
            },
{
    let cp = c.map_values(|x: Conflict| x.path@);
    let ep = e.map_values(|x: Conflict| x.path@);
    assert forall|p: Seq<u8>| cp.contains(p) <==> ep.contains(p) by {
        if cp.contains(p) {
            let i = choose|i: int| 0 <= i < cp.len() && cp[i] == p;
            assert(conflicted_at(base, source, destination, c[i].path@));
            let j = choose|j: int| 0 <= j < e.len() && (#[trigger] e[j]).path@ == p;
            assert(ep[j] == p);
        }
        if ep.contains(p) {
            let i = choose|i: int| 0 <= i < ep.len() && ep[i] == p;
            assert(conflicted_at(base, source, destination, e[i].path@));
            let j = choose|j: int| 0 <= j < c.len() && (#[trigger] c[j]).path@ == p;
            assert(cp[j] == p);
        }
    }
    assert(rising(cp)) by {
        assert forall|i: int, j: int| 0 <= i < j < cp.len() implies precedes(
            #[trigger] cp[i],
            #[trigger] cp[j],
        ) by {
            assert(precedes(c[i].path@, c[j].path@));
        }
    }
    assert(rising(ep)) by {
        assert forall|i: int, j: int| 0 <= i < j < ep.len() implies precedes(
            #[trigger] ep[i],
            #[trigger] ep[j],
        ) by {
            assert(precedes(e[i].path@, e[j].path@));
        }
    }
    lemma_rising_unique(cp, ep);
    assert forall|i: int| 0 <= i < c.len() implies {
        &&& (#[trigger] c[i]).path@ == e[i].path@
        &&& c[i].base == e[i].base
        &&& c[i].source == e[i].source
        &&& c[i].destination == e[i].destination
    } by {
        assert(cp[i] == ep[i]);
    }
}

/// Merging a tree with itself is clean and gives that tree, whatever the
/// base.
pub proof fn lemma_merge_same_sides(base: Map<Seq<u8>, Leaf>, side: Map<Seq<u8>, Leaf>)
    ensures
        mergeable(base, side, side),
        merged(base, side, side) == side,
{
}

/// Where no path was changed by both sides, the merge is clean and the
/// merged tree has every change of either side: under a path that the source
/// changed it records what the source records, and under a path that the
/// destination changed what the destination records.
pub proof fn lemma_merge_apart(
    base: Map<Seq<u8>, Leaf>,
    source: Map<Seq<u8>, Leaf>,
    destination: Map<Seq<u8>, Leaf>,
)
    requires
        forall|p: Seq<u8>|
            !(#[trigger] differs(base.get(p), source.get(p)) && differs(
                base.get(p),
                destination.get(p),
            )),
    ensures
        mergeable(base, source, destination),
        forall|p: Seq<u8>| #[trigger]
            differs(base.get(p), source.get(p)) ==> merged(base, source, destination).get(p)
                == source.get(p),
        forall|p: Seq<u8>| #[trigger]
            differs(base.get(p), destination.get(p)) ==> merged(base, source, destination).get(p)
                == destination.get(p),
        forall|p: Seq<u8>|
            !differs(base.get(p), source.get(p)) && !differs(base.get(p), destination.get(p))
                ==> #[trigger] merged(base, source, destination).get(p) == destination.get(p),
{
}

/// A path that the two sides changed in different ways blocks the merge: no
/// merge of these trees is clean, and every list of their conflicts has the
/// path.
pub proof fn lemma_merge_blocked(
    base: Map<Seq<u8>, Leaf>,
    source: Map<Seq<u8>, Leaf>,
    destination: Map<Seq<u8>, Leaf>,
    p: Seq<u8>,
)
    requires
        differs(base.get(p), source.get(p)),
        differs(base.get(p), destination.get(p)),
        differs(source.get(p), destination.get(p)),
    ensures
        !mergeable(base, source, destination),
        forall|c: Seq<Conflict>| #[trigger]
            is_conflict_list(c, base, source, destination) ==> reports(c, p),
{
    assert(conflicted_at(base, source, destination, p));
}

} // verus!
