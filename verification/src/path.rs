//! The order of paths.
//!
//! A path is a string of bytes. Paths are ordered as in a dictionary: at the
//! first place where two paths differ the one with the smaller byte comes
//! first, and a path comes before every longer path that starts with it.

use vstd::prelude::*;

verus! {

/// `a` comes before `b` in dictionary order.
pub open spec fn precedes(a: Seq<u8>, b: Seq<u8>) -> bool
    decreases a.len(),
{
    if b.len() == 0 {
        false
    } else if a.len() == 0 {
        true
    } else if a[0] != b[0] {
        a[0] < b[0]
    } else {
        precedes(a.drop_first(), b.drop_first())
    }
}

/// How one path stands to another.
#[derive(Clone, Copy, Debug, PartialEq, Eq, Structural)]
pub enum Rank {
    /// The first path comes before the second.
    Before,
    /// The two paths are the same.
    Same,
    /// The first path comes after the second.
    After,
}

/// `rank` is how `a` stands to `b`.
pub open spec fn ranks(a: Seq<u8>, b: Seq<u8>, rank: Rank) -> bool {
    match rank {
        Rank::Before => precedes(a, b),
        Rank::Same => a == b,
        Rank::After => precedes(b, a),
    }
}

/// No path comes before itself.
pub proof fn lemma_precedes_irreflexive(a: Seq<u8>)
    ensures
        !precedes(a, a),
    decreases a.len(),
{
    if a.len() > 0 {
        lemma_precedes_irreflexive(a.drop_first());
    }
}

/// Of two paths at most one comes before the other.
pub proof fn lemma_precedes_asymmetric(a: Seq<u8>, b: Seq<u8>)
    ensures
        !(precedes(a, b) && precedes(b, a)),
    decreases a.len(),
{
    if a.len() > 0 && b.len() > 0 && a[0] == b[0] {
        lemma_precedes_asymmetric(a.drop_first(), b.drop_first());
    }
}

/// If `a` comes before `b` and `b` before `c`, then `a` comes before `c`.
pub proof fn lemma_precedes_transitive(a: Seq<u8>, b: Seq<u8>, c: Seq<u8>)
    requires
        precedes(a, b),
        precedes(b, c),
    ensures
        precedes(a, c),
    decreases a.len(),
{
    if a.len() > 0 && a[0] == b[0] && b[0] == c[0] {
        lemma_precedes_transitive(a.drop_first(), b.drop_first(), c.drop_first());
    }
}

/// Two paths that agree on their first `k` bytes are ordered by what follows:
/// `a` comes before `b` if `a` ends there and `b` goes on, or if the next
/// byte of `a` is the smaller one.
pub proof fn lemma_precedes_at(a: Seq<u8>, b: Seq<u8>, k: int)
    requires
        0 <= k <= a.len(),
        k < b.len(),
        forall|j: int| 0 <= j < k ==> a[j] == b[j],
        k == a.len() || a[k] < b[k],
    ensures
        precedes(a, b),
    decreases k,
{
    if k > 0 {
        lemma_precedes_at(a.drop_first(), b.drop_first(), k - 1);
    }
}

/// The paths of `s` go up strictly in dictionary order.
pub open spec fn rising(s: Seq<Seq<u8>>) -> bool {
    forall|i: int, j: int| 0 <= i < j < s.len() ==> precedes(#[trigger] s[i], #[trigger] s[j])
}

/// Two rising lists of the same paths have the same first `n` paths.
proof fn lemma_rising_start(s: Seq<Seq<u8>>, t: Seq<Seq<u8>>, n: int)
    requires
        rising(s),
        rising(t),
        forall|p: Seq<u8>| s.contains(p) <==> t.contains(p),
        0 <= n <= s.len(),
    ensures
        n <= t.len(),
        forall|i: int| 0 <= i < n ==> #[trigger] s[i] == t[i],
    decreases n,
{
    if n > 0 {
        lemma_rising_start(s, t, n - 1);
        let x = n - 1;
        let p = s[x];
        // `t` has `p`, at some place `z`.
        assert(s.contains(p));
        let z = choose|z: int| 0 <= z < t.len() && t[z] == p;
        if z < x {
            // Then `s` has `p` twice, at `z` and at `x`.
            assert(precedes(s[z], s[x]));
            lemma_precedes_irreflexive(p);
        }
        if z > x {
            // Then `t` has another path `q` before `p`, which `s` has at
            // some place `w`: before `x` it would stand twice in `t`, and
            // after `x` it would come both before and after `p`.
            let q = t[x];
            assert(t.contains(q));
            let w = choose|w: int| 0 <= w < s.len() && s[w] == q;
            assert(precedes(t[x], t[z]));
            if w < x {
                assert(precedes(t[w], t[x]));
                lemma_precedes_irreflexive(q);
            } else if w > x {
                assert(precedes(s[x], s[w]));
                lemma_precedes_asymmetric(p, q);
            }
        }
    }
}

/// There is one rising list of a set of paths only.
pub proof fn lemma_rising_unique(s: Seq<Seq<u8>>, t: Seq<Seq<u8>>)
    requires
        rising(s),
        rising(t),
        forall|p: Seq<u8>| s.contains(p) <==> t.contains(p),
    ensures
        s == t,
{
    lemma_rising_start(s, t, s.len() as int);
    lemma_rising_start(t, s, t.len() as int);
    assert(s =~= t);
}

/// How `a` stands to `b` in dictionary order.
pub fn rank(a: &[u8], b: &[u8]) -> (r: Rank)
    ensures
        ranks(a@, b@, r),
{
    let mut i: usize = 0;
    while i < a.len() && i < b.len()
        invariant
            i <= a.len(),
            i <= b.len(),
            forall|j: int| 0 <= j < i ==> a@[j] == b@[j],
        decreases a.len() - i,
    {
        if a[i] < b[i] {
            proof {
                lemma_precedes_at(a@, b@, i as int);
            }
            return Rank::Before;
        }
        if a[i] > b[i] {
            proof {
                lemma_precedes_at(b@, a@, i as int);
            }
            return Rank::After;
        }
        i += 1;
    }
    if i < b.len() {
        proof {
            lemma_precedes_at(a@, b@, i as int);
        }
        Rank::Before
    } else if i < a.len() {
        proof {
            lemma_precedes_at(b@, a@, i as int);
        }
        Rank::After
    } else {
        assert(a@ =~= b@);
        Rank::Same
    }
}

/// A copy of `path`.
pub fn copy_of(path: &Vec<u8>) -> (copy: Vec<u8>)
    ensures
        copy@ == path@,
{
    let copy = path.clone();
    copy
}

} // verus!
