//! Directory snapshots.
//!
//! A [`Tree`] is the snapshot that a commit points at, flattened: it maps the
//! full path of every file to the mode and the content name recorded for it.
//! Its listing is kept in dictionary order of the paths, so that everything
//! computed from trees comes out in the same order whatever order the entries
//! were put in.

use crate::object::ObjectId;
use crate::path::{
    copy_of, lemma_precedes_irreflexive, lemma_precedes_transitive, lemma_rising_unique, precedes,
    rank, rising, Rank,
};
use vstd::prelude::*;

verus! {

/// What a tree records under one path: the mode of the file and the name of
/// its content.
#[derive(Clone, Copy, Debug, PartialEq, Eq)]
pub struct Leaf {
    pub mode: u32,
    pub id: ObjectId,
}

/// One line of a tree's listing.
#[derive(Clone, Debug, PartialEq, Eq)]
pub struct Entry {
    pub path: Vec<u8>,
    pub leaf: Leaf,
}

/// The paths of `s` go up strictly in dictionary order.
pub open spec fn ascending(s: Seq<Entry>) -> bool {
    forall|i: int, j: int|
        0 <= i < j < s.len() ==> precedes(#[trigger] s[i].path@, #[trigger] s[j].path@)
}

/// `s` is the listing of `m`: its paths go up strictly, each of its lines is
/// in `m`, and every path of `m` has a line.
pub open spec fn lists(s: Seq<Entry>, m: Map<Seq<u8>, Leaf>) -> bool {
    &&& ascending(s)
    &&& forall|i: int| 0 <= i < s.len() ==> m.get((#[trigger] s[i]).path@) == Some(s[i].leaf)
    &&& forall|p: Seq<u8>| #[trigger] m.contains_key(p) ==> holds(s, p)
}

/// Some line of `s` has the path `p`.
pub open spec fn holds(s: Seq<Entry>, p: Seq<u8>) -> bool {
    exists|i: int| 0 <= i < s.len() && (#[trigger] s[i]).path@ == p
}

spec fn place(s: Seq<Entry>, p: Seq<u8>) -> int {
    choose|i: int| 0 <= i < s.len() && (#[trigger] s[i]).path@ == p
}

spec fn map_of(s: Seq<Entry>) -> Map<Seq<u8>, Leaf> {
    Map::new(|p: Seq<u8>| holds(s, p), |p: Seq<u8>| s[place(s, p)].leaf)
}

proof fn lemma_ascending_distinct(s: Seq<Entry>, i: int, j: int)
    requires
        ascending(s),
        0 <= i < s.len(),
        0 <= j < s.len(),
        s[i].path@ == s[j].path@,
    ensures
        i == j,
{
    lemma_precedes_irreflexive(s[i].path@);
}

proof fn lemma_map_of(s: Seq<Entry>)
    requires
        ascending(s),
    ensures
        lists(s, map_of(s)),
{
    let m = map_of(s);
    assert forall|i: int| 0 <= i < s.len() implies m.get((#[trigger] s[i]).path@) == Some(
        s[i].leaf,
    ) by {
        lemma_ascending_distinct(s, i, place(s, s[i].path@));
    }
}

/// A listing lists one map only.
pub proof fn lemma_map_unique(s: Seq<Entry>, m: Map<Seq<u8>, Leaf>, n: Map<Seq<u8>, Leaf>)
    requires
        lists(s, m),
        lists(s, n),
    ensures
        m == n,
{
}

/// The paths of the lines of `s`.
pub open spec fn paths_of(s: Seq<Entry>) -> Seq<Seq<u8>> {
    s.map_values(|e: Entry| e.path@)
}

/// A map has one listing only: two listings of it have the same lines.
pub proof fn lemma_listing_unique(s: Seq<Entry>, t: Seq<Entry>, m: Map<Seq<u8>, Leaf>)
    requires
        lists(s, m),
        lists(t, m),
    ensures
        s.len() == t.len(),
        forall|i: int|
            0 <= i < s.len() ==> (#[trigger] s[i]).path@ == t[i].path@ && s[i].leaf == t[i].leaf,
{
    let sp = paths_of(s);
    let tp = paths_of(t);
    assert forall|p: Seq<u8>| sp.contains(p) <==> tp.contains(p) by {
        if sp.contains(p) {
            let i = choose|i: int| 0 <= i < sp.len() && sp[i] == p;
            assert(m.get(s[i].path@) == Some(s[i].leaf));
            let j = choose|j: int| 0 <= j < t.len() && (#[trigger] t[j]).path@ == p;
            assert(tp[j] == p);
        }
        if tp.contains(p) {
            let i = choose|i: int| 0 <= i < tp.len() && tp[i] == p;
            assert(m.get(t[i].path@) == Some(t[i].leaf));
            let j = choose|j: int| 0 <= j < s.len() && (#[trigger] s[j]).path@ == p;
            assert(sp[j] == p);
        }
    }
    assert(rising(sp)) by {
        assert forall|i: int, j: int| 0 <= i < j < sp.len() implies precedes(
            #[trigger] sp[i],
            #[trigger] sp[j],
        ) by {
            assert(precedes(s[i].path@, s[j].path@));
        }
    }
    assert(rising(tp)) by {
        assert forall|i: int, j: int| 0 <= i < j < tp.len() implies precedes(
            #[trigger] tp[i],
            #[trigger] tp[j],
        ) by {
            assert(precedes(t[i].path@, t[j].path@));
        }
    }
    lemma_rising_unique(sp, tp);
    assert forall|i: int| 0 <= i < s.len() implies (#[trigger] s[i]).path@ == t[i].path@
        && s[i].leaf == t[i].leaf by {
        assert(sp[i] == tp[i]);
        assert(m.get(s[i].path@) == Some(s[i].leaf));
        assert(m.get(t[i].path@) == Some(t[i].leaf));
    }
}

/// A directory snapshot: a finite map from paths to leaves.
#[derive(Debug, PartialEq, Eq)]
pub struct Tree {
    entries: Vec<Entry>,
}

impl View for Tree {
    type V = Map<Seq<u8>, Leaf>;

    closed spec fn view(&self) -> Map<Seq<u8>, Leaf> {
        map_of(self.entries@)
    }
}

impl Tree {
    #[verifier::type_invariant]
    spec fn ordered(self) -> bool {
        ascending(self.entries@)
    }

    /// The tree without any path.
    pub fn new() -> (tree: Tree)
        ensures
            tree@ == Map::<Seq<u8>, Leaf>::empty(),
    {
        let tree = Tree { entries: Vec::new() };
        tree
    }

    /// The tree's listing, in dictionary order of the paths.
    pub fn entries(&self) -> (listing: &Vec<Entry>)
        ensures
            lists(listing@, self@),
    {
        proof {
            use_type_invariant(self);
            lemma_map_of(self.entries@);
        }
        &self.entries
    }

    /// Where `path` stands in the listing: the number of lines that come
    /// before it, and whether the line at that place has this very path.
    fn locate(&self, path: &[u8]) -> (at: (usize, bool))
        ensures
            at.0 <= self.entries.len(),
            forall|j: int| 0 <= j < at.0 ==> precedes((#[trigger] self.entries[j]).path@, path@),
            forall|j: int|
                at.0 + (if at.1 { 1int } else { 0int }) <= j < self.entries.len() ==> precedes(
                    path@,
                    (#[trigger] self.entries[j]).path@,
                ),
            at.1 ==> at.0 < self.entries.len() && self.entries[at.0 as int].path@ == path@,
    {
        proof {
            use_type_invariant(self);
        }
        let mut lo: usize = 0;
        let mut hi: usize = self.entries.len();
        while lo < hi
            invariant
                lo <= hi <= self.entries.len(),
                ascending(self.entries@),
                forall|j: int| 0 <= j < lo ==> precedes((#[trigger] self.entries[j]).path@, path@),
                forall|j: int|
                    hi <= j < self.entries.len() ==> precedes(
                        path@,
                        (#[trigger] self.entries[j]).path@,
                    ),
            decreases hi - lo,
        {
            let mid = lo + (hi - lo) / 2;
            match rank(self.entries[mid].path.as_slice(), path) {
                Rank::Before => {
                    assert forall|j: int| 0 <= j < mid + 1 implies precedes(
                        (#[trigger] self.entries[j]).path@,
                        path@,
                    ) by {
                        if j < mid {
                            lemma_precedes_transitive(
                                self.entries[j].path@,
                                self.entries[mid as int].path@,
                                path@,
                            );
                        }
                    }
                    lo = mid + 1;
                },
                Rank::Same => {
                    return (mid, true);
                },
                Rank::After => {
                    assert forall|j: int| mid <= j < self.entries.len() implies precedes(
                        path@,
                        (#[trigger] self.entries[j]).path@,
                    ) by {
                        if mid < j {
                            lemma_precedes_transitive(
                                path@,
                                self.entries[mid as int].path@,
                                self.entries[j].path@,
                            );
                        }
                    }
                    hi = mid;
                },
            }
        }
        (lo, false)
    }

    /// The leaf recorded under `path`, if the tree has that path.
    pub fn get(&self, path: &[u8]) -> (leaf: Option<Leaf>)
        ensures
            leaf == self@.get(path@),
    {
        proof {
            use_type_invariant(self);
            lemma_map_of(self.entries@);
        }
        let (i, found) = self.locate(path);
        if found {
            Some(self.entries[i].leaf)
        } else {
            proof {
                lemma_absent(self.entries@, path@, i as int);
            }
            None
        }
    }

    /// Records `leaf` under `path`, in place of what was recorded there, and
    /// returns what was recorded there before.
    pub fn insert(&mut self, path: Vec<u8>, leaf: Leaf) -> (before: Option<Leaf>)
        ensures
            final(self)@ == old(self)@.insert(path@, leaf),
            before == old(self)@.get(path@),
    {
        proof {
            use_type_invariant(&*self);
            lemma_map_of(self.entries@);
        }
        let (i, found) = self.locate(path.as_slice());
        let ghost was = self.entries@;
        let mut entries: Vec<Entry> = Vec::new();
        core::mem::swap(&mut entries, &mut self.entries);
        let before = if found {
            let before = entries[i].leaf;
            entries[i].leaf = leaf;
            proof {
                lemma_replaced(was, entries@, i as int);
            }
            Some(before)
        } else {
            proof {
                lemma_absent(was, path@, i as int);
            }
            entries.insert(i, Entry { path, leaf });
            proof {
                lemma_inserted(was, entries@, i as int);
            }
            None
        };
        self.entries = entries;
        before
    }

    /// Takes `path` out of the tree and returns what was recorded under it.
    pub fn remove(&mut self, path: &[u8]) -> (before: Option<Leaf>)
        ensures
            final(self)@ == old(self)@.remove(path@),
            before == old(self)@.get(path@),
    {
        proof {
            use_type_invariant(&*self);
            lemma_map_of(self.entries@);
        }
        let (i, found) = self.locate(path);
        if found {
            let ghost was = self.entries@;
            let mut entries: Vec<Entry> = Vec::new();
            core::mem::swap(&mut entries, &mut self.entries);
            let gone = entries.remove(i);
            proof {
                lemma_removed(was, entries@, i as int);
            }
            self.entries = entries;
            Some(gone.leaf)
        } else {
            proof {
                lemma_absent(self.entries@, path@, i as int);
            }
            None
        }
    }
}

impl Clone for Tree {
    fn clone(&self) -> (copy: Tree)
        ensures
            copy@ == self@,
    {
        proof {
            use_type_invariant(self);
        }
        let mut entries: Vec<Entry> = Vec::new();
        let mut i: usize = 0;
        while i < self.entries.len()
            invariant
                i <= self.entries.len(),
                entries.len() == i,
                forall|j: int|
                    0 <= j < i ==> (#[trigger] entries[j]).path@ == self.entries[j].path@
                        && entries[j].leaf == self.entries[j].leaf,
            decreases self.entries.len() - i,
        {
            let path = copy_of(&self.entries[i].path);
            entries.push(Entry { path, leaf: self.entries[i].leaf });
            i += 1;
        }
        proof {
            lemma_same_lines(self.entries@, entries@);
        }
        Tree { entries }
    }
}

/// A path that stands between two neighbouring lines is on no line.
proof fn lemma_absent(s: Seq<Entry>, p: Seq<u8>, at: int)
    requires
        0 <= at <= s.len(),
        forall|j: int| 0 <= j < at ==> precedes((#[trigger] s[j]).path@, p),
        forall|j: int| at <= j < s.len() ==> precedes(p, (#[trigger] s[j]).path@),
    ensures
        !holds(s, p),
        map_of(s).get(p) == None::<Leaf>,
{
    lemma_precedes_irreflexive(p);
}

/// Changing the leaf of one line changes the map at that line's path only.
proof fn lemma_replaced(s: Seq<Entry>, t: Seq<Entry>, at: int)
    requires
        ascending(s),
        0 <= at < s.len(),
        t.len() == s.len(),
        forall|j: int| 0 <= j < s.len() ==> (#[trigger] t[j]).path@ == s[j].path@,
        forall|j: int| 0 <= j < s.len() && j != at ==> (#[trigger] t[j]).leaf == s[j].leaf,
    ensures
        ascending(t),
        map_of(t) == map_of(s).insert(s[at].path@, t[at].leaf),
{
    lemma_map_of(s);
    let m = map_of(s).insert(s[at].path@, t[at].leaf);
    assert forall|p: Seq<u8>| #[trigger] m.contains_key(p) implies holds(t, p) by {
        if p != s[at].path@ {
            let i = choose|i: int| 0 <= i < s.len() && (#[trigger] s[i]).path@ == p;
            assert(t[i].path@ == p);
        }
    }
    assert forall|i: int| 0 <= i < t.len() implies m.get((#[trigger] t[i]).path@) == Some(
        t[i].leaf,
    ) by {
        if i != at {
            lemma_ascending_distinct_paths(s, i, at);
        }
    }
}

proof fn lemma_ascending_distinct_paths(s: Seq<Entry>, i: int, j: int)
    requires
        ascending(s),
        0 <= i < s.len(),
        0 <= j < s.len(),
        i != j,
    ensures
        s[i].path@ != s[j].path@,
{
    if s[i].path@ == s[j].path@ {
        lemma_ascending_distinct(s, i, j);
    }
}

/// Putting a line where its path belongs adds that path to the map.
proof fn lemma_inserted(s: Seq<Entry>, t: Seq<Entry>, at: int)
    requires
        ascending(s),
        0 <= at <= s.len(),
        t.len() == s.len() + 1,
        t == s.insert(at, t[at]),
        forall|j: int| 0 <= j < at ==> precedes((#[trigger] s[j]).path@, t[at].path@),
        forall|j: int| at <= j < s.len() ==> precedes(t[at].path@, (#[trigger] s[j]).path@),
    ensures
        ascending(t),
        map_of(t) == map_of(s).insert(t[at].path@, t[at].leaf),
{
    s.insert_ensures(at, t[at]);
    lemma_map_of(s);
    let m = map_of(s).insert(t[at].path@, t[at].leaf);
    assert forall|p: Seq<u8>| #[trigger] m.contains_key(p) implies holds(t, p) by {
        if p != t[at].path@ {
            let i = choose|i: int| 0 <= i < s.len() && (#[trigger] s[i]).path@ == p;
            if i < at {
                assert(t[i].path@ == p);
            }
        }
    }
    assert forall|i: int| 0 <= i < t.len() implies m.get((#[trigger] t[i]).path@) == Some(
        t[i].leaf,
    ) by {
        if i != at {
            lemma_precedes_irreflexive(t[at].path@);
        }
    }
}

/// Two listings with the same paths and leaves list the same map.
proof fn lemma_same_lines(s: Seq<Entry>, t: Seq<Entry>)
    requires
        ascending(s),
        t.len() == s.len(),
        forall|j: int|
            0 <= j < s.len() ==> (#[trigger] t[j]).path@ == s[j].path@ && t[j].leaf == s[j].leaf,
    ensures
        ascending(t),
        map_of(t) == map_of(s),
{
    lemma_map_of(s);
    let m = map_of(s);
    assert forall|p: Seq<u8>| #[trigger] m.contains_key(p) implies holds(t, p) by {
        let i = choose|i: int| 0 <= i < s.len() && (#[trigger] s[i]).path@ == p;
        assert(t[i].path@ == p);
    }
}

/// Taking a line out takes its path out of the map.
proof fn lemma_removed(s: Seq<Entry>, t: Seq<Entry>, at: int)
    requires
        ascending(s),
        0 <= at < s.len(),
        t == s.remove(at),
    ensures
        ascending(t),
        map_of(t) == map_of(s).remove(s[at].path@),
{
    lemma_map_of(s);
    let m = map_of(s).remove(s[at].path@);
    assert forall|p: Seq<u8>| #[trigger] m.contains_key(p) implies holds(t, p) by {
        let i = choose|i: int| 0 <= i < s.len() && (#[trigger] s[i]).path@ == p;
        if i < at {
            assert(t[i].path@ == p);
        } else {
            assert(t[i - 1].path@ == p);
        }
    }
    assert forall|i: int| 0 <= i < t.len() implies m.get((#[trigger] t[i]).path@) == Some(
        t[i].leaf,
    ) by {
        let i0 = if i < at { i } else { i + 1 };
        lemma_ascending_distinct_paths(s, i0, at);
    }
}

} // verus!
