//! The difference between two trees.
//!
//! Two trees are compared path by path. A path that only the second tree has
//! was added, one that only the first tree has was removed, and one that both
//! have with different content was modified. Renames are not looked for: a
//! renamed file shows as one path removed and another added. The changes come
//! out in dictionary order of their paths.

use crate::path::{
    copy_of, lemma_precedes_irreflexive, lemma_precedes_transitive, lemma_rising_unique, precedes,
    rank, rising, Rank,
};
use crate::tree::{Entry, Leaf, Tree};
use vstd::prelude::*;

verus! {

/// What happened to one path between two trees.
#[derive(Clone, Debug, PartialEq, Eq)]
pub enum Change {
    /// Only the second tree has the path.
    Added { path: Vec<u8>, after: Leaf },
    /// Only the first tree has the path.
    Removed { path: Vec<u8>, before: Leaf },
    /// Both trees have the path, with different content.
    Modified { path: Vec<u8>, before: Leaf, after: Leaf },
}

/// A change as a plain value: the path, and what each of the two trees
/// records under it.
pub ghost struct Delta {
    pub path: Seq<u8>,
    pub before: Option<Leaf>,
    pub after: Option<Leaf>,
}

impl View for Change {
    type V = Delta;

    open spec fn view(&self) -> Delta {
        match *self {
            Change::Added { path, after } => Delta {
                path: path@,
                before: None,
                after: Some(after),
            },
            Change::Removed { path, before } => Delta {
                path: path@,
                before: Some(before),
                after: None,
            },
            Change::Modified { path, before, after } => Delta {
                path: path@,
                before: Some(before),
                after: Some(after),
            },
        }
    }
}

impl Delta {
    /// The same change seen from the other side: what was there before and
    /// what is there after change places.
    pub open spec fn reversed(self) -> Delta {
        Delta { path: self.path, before: self.after, after: self.before }
    }
}

/// The contents `x` and `y` of one path differ: one side has the path and
/// the other has not, or both have it under different content names. The
/// mode alone makes no difference.
pub open spec fn differs(x: Option<Leaf>, y: Option<Leaf>) -> bool {
    match (x, y) {
        (None, None) => false,
        (Some(l), Some(r)) => l.id != r.id,
        _ => true,
    }
}

/// Some change of `d` is about the path `p`.
pub open spec fn mentions(d: Seq<Delta>, p: Seq<u8>) -> bool {
    exists|x: int| 0 <= x < d.len() && (#[trigger] d[x]).path == p
}

/// `d` is the difference from `a` to `b`: its paths go up strictly in
/// dictionary order, each change gives what `a` and `b` record under its
/// path, and these differ, and every path whose contents differ has its
/// change.
pub open spec fn is_diff(d: Seq<Delta>, a: Map<Seq<u8>, Leaf>, b: Map<Seq<u8>, Leaf>) -> bool {
    &&& forall|x: int, y: int|
        0 <= x < y < d.len() ==> precedes(#[trigger] d[x].path, #[trigger] d[y].path)
    &&& forall|x: int|
        0 <= x < d.len() ==> {
            &&& (#[trigger] d[x]).before == a.get(d[x].path)
            &&& d[x].after == b.get(d[x].path)
            &&& differs(d[x].before, d[x].after)
        }
    &&& forall|p: Seq<u8>| #[trigger] differs(a.get(p), b.get(p)) ==> mentions(d, p)
}

/// The changes of `v` as plain values.
pub open spec fn deltas(v: Seq<Change>) -> Seq<Delta> {
    v.map_values(|c: Change| c@)
}

impl Change {
    /// The path that the change is about.
    pub fn path(&self) -> (path: &Vec<u8>)
        ensures
            path@ == self@.path,
    {
        match self {
            Change::Added { path, .. } => path,
            Change::Removed { path, .. } => path,
            Change::Modified { path, .. } => path,
        }
    }

    /// What the first tree records under the path.
    pub fn before(&self) -> (leaf: Option<Leaf>)
        ensures
            leaf == self@.before,
    {
        match self {
            Change::Added { .. } => None,
            Change::Removed { before, .. } => Some(*before),
            Change::Modified { before, .. } => Some(*before),
        }
    }

    /// What the second tree records under the path.
    pub fn after(&self) -> (leaf: Option<Leaf>)
        ensures
            leaf == self@.after,
    {
        match self {
            Change::Added { after, .. } => Some(*after),
            Change::Removed { .. } => None,
            Change::Modified { after, .. } => Some(*after),
        }
    }
}

/// The first `n` lines of `s` hold the path `p`.
spec fn passed(s: Seq<Entry>, n: int, p: Seq<u8>) -> bool {
    exists|k: int| 0 <= k < n && (#[trigger] s[k]).path@ == p
}

/// Whether the contents `x` and `y` of one path differ.
pub fn leaves_differ(x: &Option<Leaf>, y: &Option<Leaf>) -> (d: bool)
    ensures
        d == differs(*x, *y),
{
    match (x, y) {
        (None, None) => false,
        (Some(l), Some(r)) => !(l.id == r.id),
        _ => true,
    }
}

/// The difference from `a` to `b`.
pub fn diff(a: &Tree, b: &Tree) -> (changes: Vec<Change>)
    ensures
        is_diff(deltas(changes@), a@, b@),
        a@ == b@ ==> changes@.len() == 0,
{
    let sa = a.entries();
    let sb = b.entries();
    let mut out: Vec<Change> = Vec::new();
    let mut i: usize = 0;
    let mut j: usize = 0;
    while i < sa.len() || j < sb.len()
        invariant
            i <= sa.len(),
            j <= sb.len(),
            crate::tree::lists(sa@, a@),
            crate::tree::lists(sb@, b@),
            forall|k: int, l: int|
                0 <= k < i && j <= l < sb.len() ==> precedes(
                    (#[trigger] sa[k]).path@,
                    (#[trigger] sb[l]).path@,
                ),
            forall|k: int, l: int|
                0 <= l < j && i <= k < sa.len() ==> precedes(
                    (#[trigger] sb[l]).path@,
                    (#[trigger] sa[k]).path@,
                ),
            forall|x: int|
                0 <= x < out.len() ==> passed(sa@, i as int, (#[trigger] out[x])@.path) || passed(
                    sb@,
                    j as int,
                    out[x]@.path,
                ),
            forall|x: int, y: int|
                0 <= x < y < out.len() ==> precedes(#[trigger] out[x]@.path, #[trigger] out[y]@.path),
            forall|x: int|
                0 <= x < out.len() ==> {
                    &&& (#[trigger] out[x])@.before == a@.get(out[x]@.path)
                    &&& out[x]@.after == b@.get(out[x]@.path)
                    &&& differs(out[x]@.before, out[x]@.after)
                },
            forall|k: int|
                0 <= k < i && differs(a@.get((#[trigger] sa[k]).path@), b@.get(sa[k].path@))
                    ==> mentions(deltas(out@), sa[k].path@),
            forall|l: int|
                0 <= l < j && differs(a@.get((#[trigger] sb[l]).path@), b@.get(sb[l].path@))
                    ==> mentions(deltas(out@), sb[l].path@),
        decreases (sa.len() - i) + (sb.len() - j),
    {
        let ghost prior = out@;
        let how = if j == sb.len() {
            Rank::Before
        } else if i == sa.len() {
            Rank::After
        } else {
            rank(sa[i].path.as_slice(), sb[j].path.as_slice())
        };
        match how {
            Rank::Before => {
                let path = copy_of(&sa[i].path);
                proof {
                    lemma_not_held(sb@, b@, j as int, path@);
                }
                out.push(Change::Removed { path, before: sa[i].leaf });
                proof {
                    assert(out@.drop_last() =~= prior);
                    lemma_pushed(prior, out@);
                    assert forall|k: int, l: int|
                        0 <= k < i + 1 && j <= l < sb.len() implies precedes(
                        (#[trigger] sa[k]).path@,
                        (#[trigger] sb[l]).path@,
                    ) by {
                        if k == i && l > j {
                            lemma_precedes_transitive(sa[k].path@, sb[j as int].path@, sb[l].path@);
                        }
                    }
                }
                i += 1;
            },
            Rank::After => {
                let path = copy_of(&sb[j].path);
                proof {
                    lemma_not_held(sa@, a@, i as int, path@);
                }
                out.push(Change::Added { path, after: sb[j].leaf });
                proof {
                    assert(out@.drop_last() =~= prior);
                    lemma_pushed(prior, out@);
                    assert forall|k: int, l: int|
                        0 <= l < j + 1 && i <= k < sa.len() implies precedes(
                        (#[trigger] sb[l]).path@,
                        (#[trigger] sa[k]).path@,
                    ) by {
                        if l == j && k > i {
                            lemma_precedes_transitive(sb[l].path@, sa[i as int].path@, sa[k].path@);
                        }
                    }
                }
                j += 1;
            },
            Rank::Same => {
                let before = sa[i].leaf;
                let after = sb[j].leaf;
                if !(before.id == after.id) {
                    let path = copy_of(&sa[i].path);
                    out.push(Change::Modified { path, before, after });
                    assert(out@.drop_last() =~= prior);
                }
                proof {
                    lemma_pushed(prior, out@);
                }
                i += 1;
                j += 1;
            },
        }
    }
    proof {
        if a@ == b@ {
            lemma_diff_of_same(deltas(out@), a@);
        }
    }
    out
}

/// A path that stands between the passed lines of a listing and the lines to
/// come is not in the map that is listed.
proof fn lemma_not_held(s: Seq<Entry>, m: Map<Seq<u8>, Leaf>, n: int, p: Seq<u8>)
    requires
        crate::tree::lists(s, m),
        0 <= n <= s.len(),
        forall|k: int| 0 <= k < n ==> precedes((#[trigger] s[k]).path@, p),
        n < s.len() ==> precedes(p, s[n].path@),
    ensures
        m.get(p) == None::<Leaf>,
{
    if m.contains_key(p) {
        let k = choose|k: int| 0 <= k < s.len() && (#[trigger] s[k]).path@ == p;
        lemma_precedes_irreflexive(p);
        if k > n {
            lemma_precedes_transitive(p, s[n].path@, s[k].path@);
        }
    }
}

/// The changes made before a step are still there after it.
proof fn lemma_pushed(prior: Seq<Change>, now: Seq<Change>)
    requires
        now == prior || (now.len() == prior.len() + 1 && now.drop_last() == prior),
    ensures
        forall|x: int| 0 <= x < prior.len() ==> #[trigger] now[x] == prior[x],
        forall|p: Seq<u8>| mentions(deltas(prior), p) ==> mentions(deltas(now), p),
        now.len() > prior.len() ==> mentions(deltas(now), now.last()@.path),
{
    assert forall|p: Seq<u8>| mentions(deltas(prior), p) implies mentions(deltas(now), p) by {
        let x = choose|x: int|
            0 <= x < deltas(prior).len() && (#[trigger] deltas(prior)[x]).path == p;
        assert(deltas(now)[x].path == p);
    }
    if now.len() > prior.len() {
        assert(deltas(now)[now.len() - 1].path == now.last()@.path);
    }
}

/// Two trees have one difference only.
pub proof fn lemma_diff_unique(
    d: Seq<Delta>,
    e: Seq<Delta>,
    a: Map<Seq<u8>, Leaf>,
    b: Map<Seq<u8>, Leaf>,
)
    requires
        is_diff(d, a, b),
        is_diff(e, a, b),
    ensures
        d == e,
{
    let dp = d.map_values(|c: Delta| c.path);
    let ep = e.map_values(|c: Delta| c.path);
    assert forall|p: Seq<u8>| dp.contains(p) <==> ep.contains(p) by {
        if dp.contains(p) {
            let i = choose|i: int| 0 <= i < dp.len() && dp[i] == p;
            assert(differs(d[i].before, d[i].after));
            let j = choose|j: int| 0 <= j < e.len() && (#[trigger] e[j]).path == p;
            assert(ep[j] == p);
        }
        if ep.contains(p) {
            let i = choose|i: int| 0 <= i < ep.len() && ep[i] == p;
            assert(differs(e[i].before, e[i].after));
            let j = choose|j: int| 0 <= j < d.len() && (#[trigger] d[j]).path == p;
            assert(dp[j] == p);
        }
    }
    assert(rising(dp)) by {
        assert forall|i: int, j: int| 0 <= i < j < dp.len() implies precedes(
            #[trigger] dp[i],
            #[trigger] dp[j],
        ) by {
            assert(precedes(d[i].path, d[j].path));
        }
    }
    assert(rising(ep)) by {
        assert forall|i: int, j: int| 0 <= i < j < ep.len() implies precedes(
            #[trigger] ep[i],
            #[trigger] ep[j],
        ) by {
            assert(precedes(e[i].path, e[j].path));
        }
    }
    lemma_rising_unique(dp, ep);
    assert forall|i: int| 0 <= i < d.len() implies #[trigger] d[i] == e[i] by {
        assert(dp[i] == ep[i]);
    }
    assert(d =~= e);
}

/// Reversing each change of the difference from `a` to `b` gives the
/// difference from `b` to `a`.
pub proof fn lemma_diff_reversed(d: Seq<Delta>, a: Map<Seq<u8>, Leaf>, b: Map<Seq<u8>, Leaf>)
    requires
        is_diff(d, a, b),
    ensures
        is_diff(d.map_values(|c: Delta| c.reversed()), b, a),
{
    let r = d.map_values(|c: Delta| c.reversed());
    assert forall|p: Seq<u8>| #[trigger] differs(b.get(p), a.get(p)) implies mentions(r, p) by {
        assert(differs(a.get(p), b.get(p)));
        let x = choose|x: int| 0 <= x < d.len() && (#[trigger] d[x]).path == p;
        assert(r[x].path == p);
    }
}

/// The difference from `b` to `a` is the difference from `a` to `b` with
/// each change reversed: the same paths in the same order, what was added
/// now removed, what was removed now added, and the two sides of each
/// modification in each other's place.
pub proof fn lemma_diff_swapped(
    forth: Seq<Delta>,
    back: Seq<Delta>,
    a: Map<Seq<u8>, Leaf>,
    b: Map<Seq<u8>, Leaf>,
)
    requires
        is_diff(forth, a, b),
        is_diff(back, b, a),
    ensures
        back == forth.map_values(|c: Delta| c.reversed()),
{
    lemma_diff_reversed(forth, a, b);
    lemma_diff_unique(back, forth.map_values(|c: Delta| c.reversed()), b, a);
}

/// The difference from a tree to itself has no change.
pub proof fn lemma_diff_of_same(d: Seq<Delta>, a: Map<Seq<u8>, Leaf>)
    requires
        is_diff(d, a, a),
    ensures
        d.len() == 0,
{
    if d.len() > 0 {
        assert(differs(d[0].before, d[0].after));
    }
}

} // verus!
