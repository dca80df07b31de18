//! Alias clusters: what it means for the `akas` of a library's authors to be
//! consistent, what pairing and unpairing two authors does to them, and the
//! facts that the library's cluster operations rest on.
use vstd::prelude::*;
use crate::author_model::AuthorView;
use crate::ids::AuthorId;

verus! {

/// The same author with `akas` in place of its aliases.
pub open spec fn with_akas(a: AuthorView, akas: Seq<AuthorId>) -> AuthorView {
    AuthorView { akas, ..a }
}

/// Whether the author under `x` lists `y` among its aliases.
pub open spec fn lists(m: Map<usize, AuthorView>, x: usize, y: AuthorId) -> bool {
    m.contains_key(x) && m[x].akas.contains(y)
}

/// No author lists another twice, and each alias is another author of the
/// library that lists back.
pub open spec fn aka_symmetric(m: Map<usize, AuthorView>) -> bool {
    &&& forall|x: usize| #[trigger] m.contains_key(x) ==> m[x].akas.no_duplicates()
    &&& forall|x: usize, y: AuthorId| #[trigger] lists(m, x, y) ==> {
        &&& m.contains_key(y.0)
        &&& y.0 != x
        &&& lists(m, y.0, AuthorId(x))
    }
}

/// An author lists every alias of each of its aliases, but itself.
pub open spec fn aka_transitive(m: Map<usize, AuthorView>) -> bool {
    forall|x: usize, y: AuthorId, z: AuthorId|
        #[trigger] lists(m, x, y) && #[trigger] lists(m, y.0, z) && z.0 != x ==> lists(m, x, z)
}

/// The alias lists describe clusters: within a cluster every member lists
/// every other member once, and nobody outside it.
pub open spec fn aka_consistent(m: Map<usize, AuthorView>) -> bool {
    aka_symmetric(m) && aka_transitive(m)
}

/// The cluster of the author `c`: `c` and its aliases.
pub open spec fn cluster_of(m: Map<usize, AuthorView>, c: AuthorId) -> Set<AuthorId> {
    m[c.0].akas.to_set().insert(c)
}

/// Pairing two authors: where both exist and neither lists the other, each
/// gets the other appended to its aliases; otherwise nothing changes.
pub open spec fn add_pair(m: Map<usize, AuthorView>, a1: AuthorId, a2: AuthorId) -> Map<usize, AuthorView> {
    if m.contains_key(a1.0) && !m[a1.0].akas.contains(a2) && m.contains_key(a2.0) && !m[a2.0].akas.contains(a1) {
        let m1 = m.insert(a1.0, with_akas(m[a1.0], m[a1.0].akas.push(a2)));
        m1.insert(a2.0, with_akas(m1[a2.0], m1[a2.0].akas.push(a1)))
    } else {
        m
    }
}

/// Unpairing two authors: where both exist and each lists the other, each
/// loses the first occurrence of the other; otherwise nothing changes.
pub open spec fn remove_pair(m: Map<usize, AuthorView>, a1: AuthorId, a2: AuthorId) -> Map<usize, AuthorView> {
    if m.contains_key(a1.0) && m[a1.0].akas.contains(a2) && m.contains_key(a2.0) && m[a2.0].akas.contains(a1) {
        let m1 = m.insert(a1.0, with_akas(m[a1.0], m[a1.0].akas.remove_value(a2)));
        m1.insert(a2.0, with_akas(m1[a2.0], m1[a2.0].akas.remove_value(a1)))
    } else {
        m
    }
}

/// Pairing the authors of each pair in turn, first to last.
pub open spec fn add_pairs(m: Map<usize, AuthorView>, pairs: Seq<(AuthorId, AuthorId)>) -> Map<usize, AuthorView>
    decreases pairs.len(),
{
    if pairs.len() == 0 {
        m
    } else {
        add_pair(add_pairs(m, pairs.drop_last()), pairs.last().0, pairs.last().1)
    }
}

/// Unpairing the authors of each pair in turn, first to last.
pub open spec fn remove_pairs(m: Map<usize, AuthorView>, pairs: Seq<(AuthorId, AuthorId)>) -> Map<usize, AuthorView>
    decreases pairs.len(),
{
    if pairs.len() == 0 {
        m
    } else {
        remove_pair(remove_pairs(m, pairs.drop_last()), pairs.last().0, pairs.last().1)
    }
}


/// The pairs `(a, b)` for each `b` of `s`, in order.
pub open spec fn pair_with(a: AuthorId, s: Seq<AuthorId>) -> Seq<(AuthorId, AuthorId)>
    decreases s.len(),
{
    if s.len() == 0 {
        Seq::empty()
    } else {
        pair_with(a, s.drop_last()).push((a, s.last()))
    }
}

/// For each `b` of `s2` in order, the pairs `(c1, b)` and `(a, b)`.
pub open spec fn cross(c1: AuthorId, a: AuthorId, s2: Seq<AuthorId>) -> Seq<(AuthorId, AuthorId)>
    decreases s2.len(),
{
    if s2.len() == 0 {
        Seq::empty()
    } else {
        cross(c1, a, s2.drop_last()).push((c1, s2.last())).push((a, s2.last()))
    }
}

/// For each `a` of `s1` in order, the pair `(a, c2)` followed by `cross(c1, a, s2)`.
pub open spec fn merge_rest(c1: AuthorId, c2: AuthorId, s1: Seq<AuthorId>, s2: Seq<AuthorId>) -> Seq<(AuthorId, AuthorId)>
    decreases s1.len(),
{
    if s1.len() == 0 {
        Seq::empty()
    } else {
        merge_rest(c1, c2, s1.drop_last(), s2).push((s1.last(), c2)) + cross(c1, s1.last(), s2)
    }
}

/// The pairs that merging the clusters of `c1` (with aliases `s1`) and `c2`
/// (with aliases `s2`) makes, in the order it makes them.
pub open spec fn merge_pairs(c1: AuthorId, c2: AuthorId, s1: Seq<AuthorId>, s2: Seq<AuthorId>) -> Seq<(AuthorId, AuthorId)> {
    seq![(c1, c2)] + pair_with(c1, s2) + merge_rest(c1, c2, s1, s2)
}

/// Whether merging the clusters of `c1` and `c2` does anything: they are
/// two authors of the library, and `c1` does not list `c2` yet.
pub open spec fn merge_applies(m: Map<usize, AuthorView>, c1: AuthorId, c2: AuthorId) -> bool {
    c1.0 != c2.0 && m.contains_key(c1.0) && !m[c1.0].akas.contains(c2) && m.contains_key(c2.0)
}

/// The authors after merging the clusters of `c1` and `c2`.
pub open spec fn merge_clusters(m: Map<usize, AuthorView>, c1: AuthorId, c2: AuthorId) -> Map<usize, AuthorView> {
    if merge_applies(m, c1, c2) {
        add_pairs(m, merge_pairs(c1, c2, m[c1.0].akas, m[c2.0].akas))
    } else {
        m
    }
}

/// Pairing the pairs of `p` and then `q` is pairing `q` after all of `p`.
pub(crate) proof fn lemma_add_pairs_push(m: Map<usize, AuthorView>, p: Seq<(AuthorId, AuthorId)>, q: (AuthorId, AuthorId))
    ensures
        add_pairs(m, p.push(q)) == add_pair(add_pairs(m, p), q.0, q.1),
{
    assert(p.push(q).drop_last() =~= p);
}

/// Unpairing the pairs of `p` and then `q` is unpairing `q` after all of `p`.
pub(crate) proof fn lemma_remove_pairs_push(m: Map<usize, AuthorView>, p: Seq<(AuthorId, AuthorId)>, q: (AuthorId, AuthorId))
    ensures
        remove_pairs(m, p.push(q)) == remove_pair(remove_pairs(m, p), q.0, q.1),
{
    assert(p.push(q).drop_last() =~= p);
}


/// The pairs `(x, aka)` for each `x` of `s` other than `aka`, in order.
pub open spec fn removal_pairs(aka: AuthorId, s: Seq<AuthorId>) -> Seq<(AuthorId, AuthorId)>
    decreases s.len(),
{
    if s.len() == 0 {
        Seq::empty()
    } else if s.last() != aka {
        removal_pairs(aka, s.drop_last()).push((s.last(), aka))
    } else {
        removal_pairs(aka, s.drop_last())
    }
}

/// Whether removing `aka` from the cluster of `cluster` does anything:
/// `cluster` exists and lists `aka`.
pub open spec fn removal_applies(m: Map<usize, AuthorView>, cluster: AuthorId, aka: AuthorId) -> bool {
    m.contains_key(cluster.0) && m[cluster.0].akas.contains(aka)
}

/// The pairs that removing `aka` from the cluster of `cluster` unpairs: each
/// other alias of `cluster` with `aka`, then `cluster` itself with `aka`.
pub open spec fn cluster_removal_pairs(cluster: AuthorId, aka: AuthorId, s: Seq<AuthorId>) -> Seq<(AuthorId, AuthorId)> {
    if cluster != aka {
        removal_pairs(aka, s).push((cluster, aka))
    } else {
        removal_pairs(aka, s)
    }
}

/// The authors after removing `aka` from the cluster of `cluster`.
pub open spec fn remove_from_cluster(m: Map<usize, AuthorView>, cluster: AuthorId, aka: AuthorId) -> Map<usize, AuthorView> {
    if removal_applies(m, cluster, aka) {
        remove_pairs(m, cluster_removal_pairs(cluster, aka, m[cluster.0].akas))
    } else {
        m
    }
}


/// What a sequence holds after a push.
proof fn lemma_push_contains<A>(s: Seq<A>, v: A, y: A)
    ensures
        s.push(v).contains(y) <==> (s.contains(y) || y == v),
{
    if s.push(v).contains(y) {
        let i = choose|i: int| 0 <= i < s.push(v).len() && s.push(v)[i] == y;
        if i < s.len() {
            assert(s[i] == y);
        }
    }
    if s.contains(y) {
        let i = choose|i: int| 0 <= i < s.len() && s[i] == y;
        assert(s.push(v)[i] == y);
    }
    if y == v {
        assert(s.push(v)[s.len() as int] == y);
    }
}

/// Whether `x` and `y` make up one of the pairs, in either order.
pub open spec fn paired_in(pairs: Seq<(AuthorId, AuthorId)>, x: usize, y: AuthorId) -> bool {
    pairs.contains((AuthorId(x), y)) || pairs.contains((y, AuthorId(x)))
}

/// Every pair is made of two distinct authors of the library.
pub open spec fn pairs_valid(m: Map<usize, AuthorView>, pairs: Seq<(AuthorId, AuthorId)>) -> bool {
    forall|i: int|
        0 <= i < pairs.len() ==> {
            &&& m.contains_key(#[trigger] pairs[i].0.0)
            &&& m.contains_key(pairs[i].1.0)
            &&& pairs[i].0.0 != pairs[i].1.0
        }
}

/// Whether no pair involves the author under `x`.
pub open spec fn untouched(pairs: Seq<(AuthorId, AuthorId)>, x: usize) -> bool {
    forall|i: int| 0 <= i < pairs.len() ==> #[trigger] pairs[i].0.0 != x && pairs[i].1.0 != x
}

/// Pairing two distinct authors of a symmetric library keeps it symmetric
/// and adds exactly the two listings of the pair.
proof fn lemma_add_pair_step(m: Map<usize, AuthorView>, a: AuthorId, b: AuthorId)
    requires
        aka_symmetric(m),
        m.contains_key(a.0),
        m.contains_key(b.0),
        a.0 != b.0,
    ensures
        add_pair(m, a, b).dom() == m.dom(),
        aka_symmetric(add_pair(m, a, b)),
        forall|x: usize| #[trigger] m.contains_key(x) ==> add_pair(m, a, b)[x] == with_akas(m[x], add_pair(m, a, b)[x].akas),
        forall|x: usize| m.contains_key(x) && x != a.0 && x != b.0 ==> #[trigger] add_pair(m, a, b)[x] == m[x],
        forall|x: usize, y: AuthorId| m.contains_key(x) ==> (#[trigger] lists(add_pair(m, a, b), x, y) <==> (lists(m, x, y)
            || (x == a.0 && y == b) || (x == b.0 && y == a))),
{
    let m2 = add_pair(m, a, b);
    assert(AuthorId(a.0) == a);
    assert(AuthorId(b.0) == b);
    if m[a.0].akas.contains(b) {
        assert(lists(m, a.0, b));
        assert(lists(m, b.0, a));
        assert(m2 == m);
    } else {
        if m[b.0].akas.contains(a) {
            assert(lists(m, b.0, a));
            assert(false);
        }
        let m1 = m.insert(a.0, with_akas(m[a.0], m[a.0].akas.push(b)));
        assert(m1[b.0] == m[b.0]);
        assert(m2 == m1.insert(b.0, with_akas(m[b.0], m[b.0].akas.push(a))));
        assert(m2.dom() =~= m.dom());
        assert forall|x: usize, y: AuthorId| m.contains_key(x) implies (lists(m2, x, y) <==> (lists(m, x, y)
            || (x == a.0 && y == b) || (x == b.0 && y == a))) by {
            if x == a.0 {
                lemma_push_contains(m[a.0].akas, b, y);
            } else if x == b.0 {
                lemma_push_contains(m[b.0].akas, a, y);
            }
        }
        assert forall|x: usize| #[trigger] m2.contains_key(x) implies m2[x].akas.no_duplicates() by {
            if x == a.0 {
                let s = m[a.0].akas;
                assert(s.no_duplicates());
                assert forall|i: int, j: int| 0 <= i < s.push(b).len() && 0 <= j < s.push(b).len() && i != j
                    implies s.push(b)[i] != s.push(b)[j] by {
                    if i < s.len() && j == s.len() {
                        assert(s[i] == s.push(b)[i]);
                    }
                    if j < s.len() && i == s.len() {
                        assert(s[j] == s.push(b)[j]);
                    }
                }
            } else if x == b.0 {
                let s = m[b.0].akas;
                assert(s.no_duplicates());
                assert forall|i: int, j: int| 0 <= i < s.push(a).len() && 0 <= j < s.push(a).len() && i != j
                    implies s.push(a)[i] != s.push(a)[j] by {
                    if i < s.len() && j == s.len() {
                        assert(s[i] == s.push(a)[i]);
                    }
                    if j < s.len() && i == s.len() {
                        assert(s[j] == s.push(a)[j]);
                    }
                }
            }
        }
        assert forall|x: usize, y: AuthorId| #[trigger] lists(m2, x, y) implies {
            &&& m2.contains_key(y.0)
            &&& y.0 != x
            &&& lists(m2, y.0, AuthorId(x))
        } by {
            assert(m.contains_key(x));
            if lists(m, x, y) {
                assert(m.contains_key(y.0));
                assert(lists(m, y.0, AuthorId(x)));
            }
        }
    }
}


/// Pairing distinct authors of a symmetric library, pair after pair, keeps it
/// symmetric, changes nothing but aliases, adds exactly the listings of the
/// pairs and leaves the authors that no pair involves as they were.
proof fn lemma_add_pairs_effect(m: Map<usize, AuthorView>, pairs: Seq<(AuthorId, AuthorId)>)
    requires
        aka_symmetric(m),
        pairs_valid(m, pairs),
    ensures
        add_pairs(m, pairs).dom() == m.dom(),
        aka_symmetric(add_pairs(m, pairs)),
        forall|x: usize| #[trigger] m.contains_key(x) ==> add_pairs(m, pairs)[x] == with_akas(m[x], add_pairs(m, pairs)[x].akas),
        forall|x: usize| m.contains_key(x) && untouched(pairs, x) ==> #[trigger] add_pairs(m, pairs)[x] == m[x],
        forall|x: usize, y: AuthorId| m.contains_key(x) ==> (#[trigger] lists(add_pairs(m, pairs), x, y) <==> (lists(m, x, y)
            || paired_in(pairs, x, y))),
    decreases pairs.len(),
{
    if pairs.len() == 0 {
        assert forall|x: usize, y: AuthorId| m.contains_key(x) implies !paired_in(pairs, x, y) by {}
    } else {
        let p = pairs.drop_last();
        let q = pairs.last();
        assert forall|i: int| 0 <= i < p.len() implies {
            &&& m.contains_key(#[trigger] p[i].0.0)
            &&& m.contains_key(p[i].1.0)
            &&& p[i].0.0 != p[i].1.0
        } by {
            assert(p[i] == pairs[i]);
        }
        lemma_add_pairs_effect(m, p);
        let mp = add_pairs(m, p);
        assert(pairs[pairs.len() - 1] == q);
        lemma_add_pair_step(mp, q.0, q.1);
        assert(pairs =~= p.push(q));
        assert forall|x: usize| m.contains_key(x) && untouched(pairs, x) implies #[trigger] add_pairs(m, pairs)[x] == m[x] by {
            assert forall|i: int| 0 <= i < p.len() implies #[trigger] p[i].0.0 != x && p[i].1.0 != x by {
                assert(p[i] == pairs[i]);
            }
            assert(q.0.0 != x && q.1.0 != x);
        }
        assert forall|x: usize, y: AuthorId| m.contains_key(x) implies (#[trigger] lists(add_pairs(m, pairs), x, y) <==> (lists(m, x, y)
            || paired_in(pairs, x, y))) by {
            lemma_push_contains(p, q, (AuthorId(x), y));
            lemma_push_contains(p, q, (y, AuthorId(x)));
            assert(AuthorId(q.0.0) == q.0);
            assert(AuthorId(q.1.0) == q.1);
        }
    }
}


/// What a concatenation holds.
proof fn lemma_concat_contains<A>(s: Seq<A>, t: Seq<A>, y: A)
    ensures
        (s + t).contains(y) <==> (s.contains(y) || t.contains(y)),
{
    if (s + t).contains(y) {
        let i = choose|i: int| 0 <= i < (s + t).len() && (s + t)[i] == y;
        if i < s.len() {
            assert(s[i] == y);
        } else {
            assert(t[i - s.len()] == y);
        }
    }
    if s.contains(y) {
        let i = choose|i: int| 0 <= i < s.len() && s[i] == y;
        assert((s + t)[i] == y);
    }
    if t.contains(y) {
        let i = choose|i: int| 0 <= i < t.len() && t[i] == y;
        assert((s + t)[s.len() + i] == y);
    }
}

/// What a non-empty sequence holds, split at its last element.
proof fn lemma_last_contains<A>(s: Seq<A>, y: A)
    requires
        s.len() > 0,
    ensures
        s.contains(y) <==> (s.drop_last().contains(y) || y == s.last()),
{
    assert(s =~= s.drop_last().push(s.last()));
    lemma_push_contains(s.drop_last(), s.last(), y);
}

/// The pairs of `pair_with(a, s)` are those of `a` with an element of `s`.
proof fn lemma_pair_with_contains(a: AuthorId, s: Seq<AuthorId>, p: (AuthorId, AuthorId))
    ensures
        pair_with(a, s).contains(p) <==> (p.0 == a && s.contains(p.1)),
    decreases s.len(),
{
    if s.len() == 0 {
    } else {
        lemma_pair_with_contains(a, s.drop_last(), p);
        lemma_push_contains(pair_with(a, s.drop_last()), (a, s.last()), p);
        lemma_last_contains(s, p.1);
    }
}

/// The pairs of `cross(c1, a, s)` are those of `c1` or `a` with an element of `s`.
proof fn lemma_cross_contains(c1: AuthorId, a: AuthorId, s: Seq<AuthorId>, p: (AuthorId, AuthorId))
    ensures
        cross(c1, a, s).contains(p) <==> ((p.0 == c1 || p.0 == a) && s.contains(p.1)),
    decreases s.len(),
{
    if s.len() == 0 {
    } else {
        let r = cross(c1, a, s.drop_last());
        lemma_cross_contains(c1, a, s.drop_last(), p);
        lemma_push_contains(r, (c1, s.last()), p);
        lemma_push_contains(r.push((c1, s.last())), (a, s.last()), p);
        lemma_last_contains(s, p.1);
    }
}

/// The pairs of `merge_rest(c1, c2, s1, s2)` are those of an element of `s1`
/// with `c2` or with an element of `s2`.
proof fn lemma_merge_rest_contains(c1: AuthorId, c2: AuthorId, s1: Seq<AuthorId>, s2: Seq<AuthorId>, p: (AuthorId, AuthorId))
    ensures
        merge_rest(c1, c2, s1, s2).contains(p) <==> ((s1.contains(p.0) && (p.1 == c2 || s2.contains(p.1)))
            || (p.0 == c1 && s1.len() > 0 && s2.contains(p.1))),
    decreases s1.len(),
{
    if s1.len() == 0 {
    } else {
        let r = merge_rest(c1, c2, s1.drop_last(), s2);
        lemma_merge_rest_contains(c1, c2, s1.drop_last(), s2, p);
        lemma_concat_contains(r.push((s1.last(), c2)), cross(c1, s1.last(), s2), p);
        lemma_push_contains(r, (s1.last(), c2), p);
        lemma_cross_contains(c1, s1.last(), s2, p);
        lemma_last_contains(s1, p.0);
    }
}

/// The pairs that merging two clusters makes are those of a member of the
/// first with a member of the second.
proof fn lemma_merge_pairs_contains(c1: AuthorId, c2: AuthorId, s1: Seq<AuthorId>, s2: Seq<AuthorId>, p: (AuthorId, AuthorId))
    ensures
        merge_pairs(c1, c2, s1, s2).contains(p) <==> ((p.0 == c1 || s1.contains(p.0)) && (p.1 == c2 || s2.contains(p.1))),
{
    let h = seq![(c1, c2)];
    lemma_concat_contains(h + pair_with(c1, s2), merge_rest(c1, c2, s1, s2), p);
    lemma_concat_contains(h, pair_with(c1, s2), p);
    lemma_pair_with_contains(c1, s2, p);
    lemma_merge_rest_contains(c1, c2, s1, s2, p);
    if h.contains(p) {
        assert(h[0] == p);
    }
    if p == (c1, c2) {
        assert(h[0] == p);
    }
}


/// In a consistent library, a member of a cluster lists exactly the other
/// members of the cluster.
pub proof fn lemma_cluster_members(m: Map<usize, AuthorView>, c: AuthorId, x: usize)
    requires
        aka_consistent(m),
        m.contains_key(c.0),
        cluster_of(m, c).contains(AuthorId(x)),
    ensures
        m.contains_key(x),
        forall|y: AuthorId| #[trigger] lists(m, x, y) <==> (cluster_of(m, c).contains(y) && y.0 != x),
{
    assert(AuthorId(c.0) == c);
    if AuthorId(x) == c {
        assert forall|y: AuthorId| #[trigger] lists(m, x, y) <==> (cluster_of(m, c).contains(y) && y.0 != x) by {
            if lists(m, x, y) {
                assert(y.0 != x);
            }
        }
    } else {
        assert(lists(m, c.0, AuthorId(x)));
        assert(m.contains_key(x));
        assert(lists(m, x, c));
        assert forall|y: AuthorId| #[trigger] lists(m, x, y) <==> (cluster_of(m, c).contains(y) && y.0 != x) by {
            if lists(m, x, y) {
                assert(y.0 != x);
                if y != c {
                    assert(lists(m, c.0, AuthorId(x)) && lists(m, x, y) && y.0 != c.0);
                    assert(lists(m, c.0, y));
                }
            }
            if cluster_of(m, c).contains(y) && y.0 != x {
                if y != c {
                    assert(lists(m, c.0, y));
                    assert(lists(m, x, c) && lists(m, c.0, y));
                }
            }
        }
    }
}

/// In a consistent library, the clusters of two distinct authors of which the
/// first does not list the second have no member in common.
pub proof fn lemma_clusters_disjoint(m: Map<usize, AuthorView>, c1: AuthorId, c2: AuthorId, z: AuthorId)
    requires
        aka_consistent(m),
        m.contains_key(c1.0),
        m.contains_key(c2.0),
        c1.0 != c2.0,
        !m[c1.0].akas.contains(c2),
    ensures
        !(cluster_of(m, c1).contains(z) && cluster_of(m, c2).contains(z)),
{
    if cluster_of(m, c1).contains(z) && cluster_of(m, c2).contains(z) {
        lemma_cluster_members(m, c1, z.0);
        assert(AuthorId(z.0) == z);
        assert(AuthorId(c2.0) == c2);
        lemma_cluster_members(m, c2, z.0);
        if z == c2 {
            assert(false);
        } else {
            assert(lists(m, z.0, c2));
            assert(lists(m, c1.0, c2));
        }
    }
}


/// `m2` is `m` with the clusters of `c1` and `c2` made into one: each member
/// of either lists exactly the other members of both, and nothing else changes.
pub open spec fn clusters_merged(m: Map<usize, AuthorView>, m2: Map<usize, AuthorView>, c1: AuthorId, c2: AuthorId) -> bool {
    let u = cluster_of(m, c1).union(cluster_of(m, c2));
    &&& m2.dom() == m.dom()
    &&& forall|x: usize| #[trigger] m.contains_key(x) ==> m2[x] == with_akas(m[x], m2[x].akas)
    &&& forall|x: usize| #[trigger] m.contains_key(x) && u.contains(AuthorId(x)) ==> m2[x].akas.to_set() == u.remove(AuthorId(x))
    &&& forall|x: usize| #[trigger] m.contains_key(x) && !u.contains(AuthorId(x)) ==> m2[x] == m[x]
}

/// Merging the clusters of two authors of a consistent library keeps it
/// consistent and makes the two clusters one; merging a cluster with itself
/// changes nothing.
pub proof fn law_merge_clusters(m: Map<usize, AuthorView>, c1: AuthorId, c2: AuthorId)
    requires
        aka_consistent(m),
        m.contains_key(c1.0),
        m.contains_key(c2.0),
    ensures
        aka_consistent(merge_clusters(m, c1, c2)),
        clusters_merged(m, merge_clusters(m, c1, c2), c1, c2),
{
    let m2 = merge_clusters(m, c1, c2);
    let u = cluster_of(m, c1).union(cluster_of(m, c2));
    assert(AuthorId(c1.0) == c1);
    assert(AuthorId(c2.0) == c2);
    if c1.0 == c2.0 {
        assert(c1 == c2);
        assert(m2 == m);
        assert forall|x: usize| #[trigger] m.contains_key(x) && u.contains(AuthorId(x)) implies m2[x].akas.to_set() == u.remove(AuthorId(x)) by {
            lemma_cluster_members(m, c1, x);
            assert(u =~= cluster_of(m, c1));
            assert forall|y: AuthorId| m2[x].akas.to_set().contains(y) == u.remove(AuthorId(x)).contains(y) by {
                assert(lists(m, x, y) == (cluster_of(m, c1).contains(y) && y.0 != x));
                assert(AuthorId(y.0) == y);
            }
            assert(m2[x].akas.to_set() =~= u.remove(AuthorId(x)));
        }
    } else if !merge_applies(m, c1, c2) {
        // `c1` lists `c2` already: both have the one cluster
        assert(lists(m, c1.0, c2));
        assert forall|x: usize| #[trigger] m.contains_key(x) && u.contains(AuthorId(x)) implies m2[x].akas.to_set() == u.remove(AuthorId(x)) by {
            if cluster_of(m, c2).contains(AuthorId(x)) && !cluster_of(m, c1).contains(AuthorId(x)) {
                lemma_cluster_members(m, c2, x);
                if AuthorId(x) != c2 {
                    assert(lists(m, x, c2));
                    assert(lists(m, c2.0, c1));
                    assert(lists(m, x, c1));
                    assert(lists(m, c1.0, AuthorId(x)));
                }
            }
            lemma_cluster_members(m, c1, x);
            assert forall|y: AuthorId| #[trigger] u.contains(y) implies cluster_of(m, c1).contains(y) by {
                if cluster_of(m, c2).contains(y) {
                    lemma_cluster_members(m, c2, y.0);
                    assert(AuthorId(y.0) == y);
                    if y != c2 {
                        assert(lists(m, y.0, c2));
                        assert(lists(m, c2.0, c1));
                        if y != c1 {
                            assert(lists(m, y.0, c1));
                            assert(lists(m, c1.0, y));
                        }
                    }
                }
            }
            assert forall|y: AuthorId| m2[x].akas.to_set().contains(y) == u.remove(AuthorId(x)).contains(y) by {
                assert(lists(m, x, y) == (cluster_of(m, c1).contains(y) && y.0 != x));
                assert(AuthorId(y.0) == y);
            }
            assert(m2[x].akas.to_set() =~= u.remove(AuthorId(x)));
        }
    } else {
        let s1 = m[c1.0].akas;
        let s2 = m[c2.0].akas;
        let pairs = merge_pairs(c1, c2, s1, s2);
        // every pair joins a member of the first cluster to one of the second
        assert forall|p: (AuthorId, AuthorId)| pairs.contains(p) implies cluster_of(m, c1).contains(p.0) && cluster_of(m, c2).contains(p.1) by {
            lemma_merge_pairs_contains(c1, c2, s1, s2, p);
        }
        assert forall|i: int| 0 <= i < pairs.len() implies {
            &&& m.contains_key(#[trigger] pairs[i].0.0)
            &&& m.contains_key(pairs[i].1.0)
            &&& pairs[i].0.0 != pairs[i].1.0
        } by {
            let p = pairs[i];
            assert(pairs.contains(p));
            assert(AuthorId(p.0.0) == p.0);
            assert(AuthorId(p.1.0) == p.1);
            lemma_cluster_members(m, c1, p.0.0);
            lemma_cluster_members(m, c2, p.1.0);
            lemma_clusters_disjoint(m, c1, c2, p.0);
        }
        lemma_add_pairs_effect(m, pairs);
        assert forall|x: usize, y: AuthorId| m.contains_key(x) implies (paired_in(pairs, x, y) <==> (
            (cluster_of(m, c1).contains(AuthorId(x)) && cluster_of(m, c2).contains(y))
            || (cluster_of(m, c2).contains(AuthorId(x)) && cluster_of(m, c1).contains(y)))) by {
            lemma_merge_pairs_contains(c1, c2, s1, s2, (AuthorId(x), y));
            lemma_merge_pairs_contains(c1, c2, s1, s2, (y, AuthorId(x)));
        }
        assert forall|x: usize| #[trigger] m.contains_key(x) && u.contains(AuthorId(x)) implies m2[x].akas.to_set() == u.remove(AuthorId(x)) by {
            assert forall|y: AuthorId| #[trigger] lists(m2, x, y) <==> (u.contains(y) && y != AuthorId(x)) by {
                if cluster_of(m, c1).contains(AuthorId(x)) {
                    lemma_cluster_members(m, c1, x);
                    lemma_clusters_disjoint(m, c1, c2, AuthorId(x));
                    lemma_clusters_disjoint(m, c1, c2, y);
                } else {
                    lemma_cluster_members(m, c2, x);
                    lemma_clusters_disjoint(m, c1, c2, AuthorId(x));
                    lemma_clusters_disjoint(m, c1, c2, y);
                }
            }
            assert forall|y: AuthorId| m2[x].akas.to_set().contains(y) == u.remove(AuthorId(x)).contains(y) by {
                assert(lists(m2, x, y) == (u.contains(y) && y != AuthorId(x)));
            }
            assert(m2[x].akas.to_set() =~= u.remove(AuthorId(x)));
        }
        assert forall|x: usize| #[trigger] m.contains_key(x) && !u.contains(AuthorId(x)) implies m2[x] == m[x] by {
            assert forall|i: int| 0 <= i < pairs.len() implies #[trigger] pairs[i].0.0 != x && pairs[i].1.0 != x by {
                let p = pairs[i];
                assert(pairs.contains(p));
                assert(AuthorId(p.0.0) == p.0);
                assert(AuthorId(p.1.0) == p.1);
            }
        }
        // the merged library is transitive
        assert forall|x: usize, y: AuthorId, z: AuthorId|
            #[trigger] lists(m2, x, y) && #[trigger] lists(m2, y.0, z) && z.0 != x implies lists(m2, x, z) by {
            assert(AuthorId(y.0) == y);
            if u.contains(AuthorId(x)) {
                assert(m2[x].akas.to_set().contains(y));
                assert(u.contains(y));
                assert(m2[y.0].akas.to_set().contains(z));
                assert(u.remove(y).contains(z));
                assert(u.remove(AuthorId(x)).contains(z));
            } else {
                assert(lists(m, x, y));
                if u.contains(y) {
                    assert(lists(m, y.0, AuthorId(x)));
                    if cluster_of(m, c1).contains(y) {
                        lemma_cluster_members(m, c1, y.0);
                    } else {
                        lemma_cluster_members(m, c2, y.0);
                    }
                    assert(false);
                }
                assert(lists(m, y.0, z));
                assert(lists(m, x, z));
            }
        }
    }
}


/// Removing the one occurrence of `v` from a sequence without duplicates.
proof fn lemma_remove_value(s: Seq<AuthorId>, v: AuthorId)
    requires
        s.no_duplicates(),
        s.contains(v),
    ensures
        s.remove_value(v).no_duplicates(),
        forall|y: AuthorId| #[trigger] s.remove_value(v).contains(y) <==> (s.contains(y) && y != v),
{
    s.index_of_first_ensures(v);
    let i = s.index_of_first(v).unwrap();
    let r = s.remove_value(v);
    assert(r == s.remove(i));
    s.remove_ensures(i);
    assert forall|y: AuthorId| #[trigger] r.contains(y) <==> (s.contains(y) && y != v) by {
        if r.contains(y) {
            let k = choose|k: int| 0 <= k < r.len() && r[k] == y;
            if k < i {
                assert(s[k] == y);
            } else {
                assert(s[k + 1] == y);
            }
        }
        if s.contains(y) && y != v {
            let k = choose|k: int| 0 <= k < s.len() && s[k] == y;
            if k < i {
                assert(r[k] == y);
            } else {
                assert(k != i);
                assert(r[k - 1] == y);
            }
        }
    }
    assert forall|j: int, k: int| 0 <= j < r.len() && 0 <= k < r.len() && j != k implies r[j] != r[k] by {
        let jj = if j < i { j } else { j + 1 };
        let kk = if k < i { k } else { k + 1 };
        assert(r[j] == s[jj]);
        assert(r[k] == s[kk]);
    }
}

/// Unpairing two distinct authors of a symmetric library keeps it symmetric
/// and takes away exactly the two listings of the pair.
proof fn lemma_remove_pair_step(m: Map<usize, AuthorView>, a: AuthorId, b: AuthorId)
    requires
        aka_symmetric(m),
        m.contains_key(a.0),
        m.contains_key(b.0),
        a.0 != b.0,
    ensures
        remove_pair(m, a, b).dom() == m.dom(),
        aka_symmetric(remove_pair(m, a, b)),
        forall|x: usize| #[trigger] m.contains_key(x) ==> remove_pair(m, a, b)[x] == with_akas(m[x], remove_pair(m, a, b)[x].akas),
        forall|x: usize| m.contains_key(x) && x != a.0 && x != b.0 ==> #[trigger] remove_pair(m, a, b)[x] == m[x],
        forall|x: usize, y: AuthorId| m.contains_key(x) ==> (#[trigger] lists(remove_pair(m, a, b), x, y) <==> (lists(m, x, y)
            && !((x == a.0 && y == b) || (x == b.0 && y == a)))),
{
    let m2 = remove_pair(m, a, b);
    assert(AuthorId(a.0) == a);
    assert(AuthorId(b.0) == b);
    if !m[a.0].akas.contains(b) {
        if m[b.0].akas.contains(a) {
            assert(lists(m, b.0, a));
            assert(false);
        }
        assert(m2 == m);
    } else {
        assert(lists(m, a.0, b));
        assert(lists(m, b.0, a));
        let m1 = m.insert(a.0, with_akas(m[a.0], m[a.0].akas.remove_value(b)));
        assert(m1[b.0] == m[b.0]);
        assert(m2 == m1.insert(b.0, with_akas(m[b.0], m[b.0].akas.remove_value(a))));
        assert(m2.dom() =~= m.dom());
        lemma_remove_value(m[a.0].akas, b);
        lemma_remove_value(m[b.0].akas, a);
        assert forall|x: usize, y: AuthorId| m.contains_key(x) implies (#[trigger] lists(m2, x, y) <==> (lists(m, x, y)
            && !((x == a.0 && y == b) || (x == b.0 && y == a)))) by {
        }
        assert forall|x: usize, y: AuthorId| #[trigger] lists(m2, x, y) implies {
            &&& m2.contains_key(y.0)
            &&& y.0 != x
            &&& lists(m2, y.0, AuthorId(x))
        } by {
            assert(m.contains_key(x));
            assert(lists(m, x, y));
            assert(lists(m, y.0, AuthorId(x)));
            assert(AuthorId(y.0) == y);
        }
    }
}

/// Unpairing distinct authors of a symmetric library, pair after pair, keeps
/// it symmetric, changes nothing but aliases, takes away exactly the listings
/// of the pairs and leaves the authors that no pair involves as they were.
proof fn lemma_remove_pairs_effect(m: Map<usize, AuthorView>, pairs: Seq<(AuthorId, AuthorId)>)
    requires
        aka_symmetric(m),
        pairs_valid(m, pairs),
    ensures
        remove_pairs(m, pairs).dom() == m.dom(),
        aka_symmetric(remove_pairs(m, pairs)),
        forall|x: usize| #[trigger] m.contains_key(x) ==> remove_pairs(m, pairs)[x] == with_akas(m[x], remove_pairs(m, pairs)[x].akas),
        forall|x: usize| m.contains_key(x) && untouched(pairs, x) ==> #[trigger] remove_pairs(m, pairs)[x] == m[x],
        forall|x: usize, y: AuthorId| m.contains_key(x) ==> (#[trigger] lists(remove_pairs(m, pairs), x, y) <==> (lists(m, x, y)
            && !paired_in(pairs, x, y))),
    decreases pairs.len(),
{
    if pairs.len() == 0 {
        assert forall|x: usize, y: AuthorId| m.contains_key(x) implies !paired_in(pairs, x, y) by {}
    } else {
        let p = pairs.drop_last();
        let q = pairs.last();
        assert forall|i: int| 0 <= i < p.len() implies {
            &&& m.contains_key(#[trigger] p[i].0.0)
            &&& m.contains_key(p[i].1.0)
            &&& p[i].0.0 != p[i].1.0
        } by {
            assert(p[i] == pairs[i]);
        }
        lemma_remove_pairs_effect(m, p);
        let mp = remove_pairs(m, p);
        assert(pairs[pairs.len() - 1] == q);
        lemma_remove_pair_step(mp, q.0, q.1);
        assert(pairs =~= p.push(q));
        assert forall|x: usize| m.contains_key(x) && untouched(pairs, x) implies #[trigger] remove_pairs(m, pairs)[x] == m[x] by {
            assert forall|i: int| 0 <= i < p.len() implies #[trigger] p[i].0.0 != x && p[i].1.0 != x by {
                assert(p[i] == pairs[i]);
            }
            assert(q.0.0 != x && q.1.0 != x);
        }
        assert forall|x: usize, y: AuthorId| m.contains_key(x) implies (#[trigger] lists(remove_pairs(m, pairs), x, y) <==> (lists(m, x, y)
            && !paired_in(pairs, x, y))) by {
            lemma_push_contains(p, q, (AuthorId(x), y));
            lemma_push_contains(p, q, (y, AuthorId(x)));
            assert(AuthorId(q.0.0) == q.0);
            assert(AuthorId(q.1.0) == q.1);
        }
    }
}

/// The pairs of `removal_pairs(aka, s)` are those of an element of `s` other
/// than `aka` with `aka`.
proof fn lemma_removal_pairs_contains(aka: AuthorId, s: Seq<AuthorId>, p: (AuthorId, AuthorId))
    ensures
        removal_pairs(aka, s).contains(p) <==> (p.1 == aka && s.contains(p.0) && p.0 != aka),
    decreases s.len(),
{
    if s.len() > 0 {
        lemma_removal_pairs_contains(aka, s.drop_last(), p);
        lemma_last_contains(s, p.0);
        if s.last() != aka {
            lemma_push_contains(removal_pairs(aka, s.drop_last()), (s.last(), aka), p);
        }
    }
}


/// `m2` is `m` with `aka` taken out of the cluster of `cluster`: `aka` lists
/// nobody, each other member lists exactly the other remaining members, and
/// nothing else changes.
pub open spec fn removed_from_cluster(m: Map<usize, AuthorView>, m2: Map<usize, AuthorView>, cluster: AuthorId, aka: AuthorId) -> bool {
    let c = cluster_of(m, cluster);
    &&& m2.dom() == m.dom()
    &&& forall|x: usize| #[trigger] m.contains_key(x) ==> m2[x] == with_akas(m[x], m2[x].akas)
    &&& m2[aka.0].akas == Seq::<AuthorId>::empty()
    &&& forall|x: usize| #[trigger] m.contains_key(x) && c.contains(AuthorId(x)) && x != aka.0
        ==> m2[x].akas.to_set() == c.remove(AuthorId(x)).remove(aka)
    &&& forall|x: usize| #[trigger] m.contains_key(x) && !c.contains(AuthorId(x)) ==> m2[x] == m[x]
}

/// Removing an alias from a cluster of a consistent library keeps it
/// consistent; where `cluster` lists `aka`, `aka` leaves its cluster.
pub proof fn law_remove_from_cluster(m: Map<usize, AuthorView>, cluster: AuthorId, aka: AuthorId)
    requires
        aka_consistent(m),
    ensures
        aka_consistent(remove_from_cluster(m, cluster, aka)),
        removal_applies(m, cluster, aka) ==> removed_from_cluster(m, remove_from_cluster(m, cluster, aka), cluster, aka),
{
    if removal_applies(m, cluster, aka) {
        let m2 = remove_from_cluster(m, cluster, aka);
        let c = cluster_of(m, cluster);
        let s = m[cluster.0].akas;
        let pairs = cluster_removal_pairs(cluster, aka, s);
        assert(AuthorId(cluster.0) == cluster);
        assert(AuthorId(aka.0) == aka);
        assert(lists(m, cluster.0, aka));
        assert(cluster != aka);
        assert forall|p: (AuthorId, AuthorId)| #[trigger] pairs.contains(p) <==> (p.1 == aka && c.contains(p.0) && p.0 != aka) by {
            lemma_removal_pairs_contains(aka, s, p);
            lemma_push_contains(removal_pairs(aka, s), (cluster, aka), p);
        }
        lemma_cluster_members(m, cluster, aka.0);
        assert forall|i: int| 0 <= i < pairs.len() implies {
            &&& m.contains_key(#[trigger] pairs[i].0.0)
            &&& m.contains_key(pairs[i].1.0)
            &&& pairs[i].0.0 != pairs[i].1.0
        } by {
            let p = pairs[i];
            assert(pairs.contains(p));
            assert(AuthorId(p.0.0) == p.0);
            lemma_cluster_members(m, cluster, p.0.0);
        }
        lemma_remove_pairs_effect(m, pairs);
        assert forall|x: usize, y: AuthorId| m.contains_key(x) implies (paired_in(pairs, x, y) <==> (
            (y == aka && c.contains(AuthorId(x)) && AuthorId(x) != aka)
            || (AuthorId(x) == aka && c.contains(y) && y != aka))) by {
            assert(pairs.contains((AuthorId(x), y)) == (y == aka && c.contains(AuthorId(x)) && AuthorId(x) != aka));
            assert(pairs.contains((y, AuthorId(x))) == (AuthorId(x) == aka && c.contains(y) && y != aka));
        }
        // `aka` lists nobody any more
        assert forall|y: AuthorId| !m2[aka.0].akas.contains(y) by {
            assert(lists(m, aka.0, y) == (c.contains(y) && y.0 != aka.0));
            assert(AuthorId(y.0) == y);
            assert(!lists(m2, aka.0, y));
        }
        if m2[aka.0].akas.len() > 0 {
            assert(m2[aka.0].akas.contains(m2[aka.0].akas[0]));
        }
        assert(m2[aka.0].akas =~= Seq::<AuthorId>::empty());
        // the other members list the remaining members
        assert forall|x: usize| #[trigger] m.contains_key(x) && c.contains(AuthorId(x)) && x != aka.0
            implies m2[x].akas.to_set() == c.remove(AuthorId(x)).remove(aka) by {
            lemma_cluster_members(m, cluster, x);
            assert forall|y: AuthorId| m2[x].akas.to_set().contains(y) == c.remove(AuthorId(x)).remove(aka).contains(y) by {
                assert(AuthorId(y.0) == y);
                assert(lists(m2, x, y) == (lists(m, x, y) && !paired_in(pairs, x, y)));
            }
            assert(m2[x].akas.to_set() =~= c.remove(AuthorId(x)).remove(aka));
        }
        assert forall|x: usize| #[trigger] m.contains_key(x) && !c.contains(AuthorId(x)) implies m2[x] == m[x] by {
            assert forall|i: int| 0 <= i < pairs.len() implies #[trigger] pairs[i].0.0 != x && pairs[i].1.0 != x by {
                let p = pairs[i];
                assert(pairs.contains(p));
                assert(AuthorId(p.0.0) == p.0);
                assert(AuthorId(p.1.0) == p.1);
            }
        }
        // the result is transitive
        assert forall|x: usize, y: AuthorId, z: AuthorId|
            #[trigger] lists(m2, x, y) && #[trigger] lists(m2, y.0, z) && z.0 != x implies lists(m2, x, z) by {
            assert(AuthorId(y.0) == y);
            assert(AuthorId(z.0) == z);
            assert(m.contains_key(x));
            assert(lists(m, x, y));
            assert(lists(m, y.0, z));
            assert(lists(m, x, z));
            if c.contains(AuthorId(x)) {
                lemma_cluster_members(m, cluster, x);
                lemma_cluster_members(m, cluster, y.0);
            }
        }
    } else {
    }
}


/// Adding an author without aliases under a new key keeps the alias lists
/// consistent.
pub proof fn law_insert_unaliased(m: Map<usize, AuthorView>, k: usize, a: AuthorView)
    requires
        aka_consistent(m),
        !m.contains_key(k),
        a.akas.len() == 0,
    ensures
        aka_consistent(m.insert(k, a)),
{
    let m2 = m.insert(k, a);
    assert forall|x: usize, y: AuthorId| #[trigger] lists(m2, x, y) implies lists(m, x, y) by {
        if x == k {
            assert(!a.akas.contains(y));
        }
    }
    assert forall|x: usize, y: AuthorId| #[trigger] lists(m2, x, y) implies {
        &&& m2.contains_key(y.0)
        &&& y.0 != x
        &&& lists(m2, y.0, AuthorId(x))
    } by {
        assert(lists(m, x, y));
    }
    assert forall|x: usize| #[trigger] m2.contains_key(x) implies m2[x].akas.no_duplicates() by {
        if x != k {
            assert(m.contains_key(x));
        }
    }
    assert forall|x: usize, y: AuthorId, z: AuthorId|
        #[trigger] lists(m2, x, y) && #[trigger] lists(m2, y.0, z) && z.0 != x implies lists(m2, x, z) by {
        assert(lists(m, x, y));
        assert(lists(m, y.0, z));
    }
}

/// Removing an author that has no aliases keeps the alias lists consistent.
pub proof fn law_remove_unaliased(m: Map<usize, AuthorView>, k: usize)
    requires
        aka_consistent(m),
        m.contains_key(k) ==> m[k].akas.len() == 0,
    ensures
        aka_consistent(m.remove(k)),
{
    let m2 = m.remove(k);
    assert forall|x: usize, y: AuthorId| #[trigger] lists(m2, x, y) implies {
        &&& m2.contains_key(y.0)
        &&& y.0 != x
        &&& lists(m2, y.0, AuthorId(x))
    } by {
        assert(lists(m, x, y));
        assert(lists(m, y.0, AuthorId(x)));
        if y.0 == k {
            assert(m[k].akas.contains(AuthorId(x)));
        }
    }
    assert forall|x: usize, y: AuthorId, z: AuthorId|
        #[trigger] lists(m2, x, y) && #[trigger] lists(m2, y.0, z) && z.0 != x implies lists(m2, x, z) by {
        assert(lists(m, x, y));
        assert(lists(m, y.0, z));
    }
}


/// Pairing and unpairing never add or drop authors.
proof fn lemma_pairs_keep_authors(m: Map<usize, AuthorView>, pairs: Seq<(AuthorId, AuthorId)>)
    ensures
        add_pairs(m, pairs).dom() == m.dom(),
        remove_pairs(m, pairs).dom() == m.dom(),
    decreases pairs.len(),
{
    if pairs.len() > 0 {
        lemma_pairs_keep_authors(m, pairs.drop_last());
        let q = pairs.last();
        let ma = add_pairs(m, pairs.drop_last());
        let mr = remove_pairs(m, pairs.drop_last());
        assert(add_pair(ma, q.0, q.1).dom() =~= ma.dom());
        assert(remove_pair(mr, q.0, q.1).dom() =~= mr.dom());
    }
}

/// Merging clusters, or removing an alias from one, never adds or drops
/// authors.
pub proof fn lemma_cluster_ops_keep_authors(m: Map<usize, AuthorView>, a: AuthorId, b: AuthorId)
    ensures
        merge_clusters(m, a, b).dom() == m.dom(),
        remove_from_cluster(m, a, b).dom() == m.dom(),
{
    if merge_applies(m, a, b) {
        lemma_pairs_keep_authors(m, merge_pairs(a, b, m[a.0].akas, m[b.0].akas));
    }
    if removal_applies(m, a, b) {
        lemma_pairs_keep_authors(m, cluster_removal_pairs(a, b, m[a.0].akas));
    }
}


/// Appending a value that a sequence lacks and removing its first occurrence
/// gives the sequence back.
proof fn lemma_push_remove_value(s: Seq<AuthorId>, v: AuthorId)
    requires
        !s.contains(v),
    ensures
        s.push(v).remove_value(v) == s,
{
    let t = s.push(v);
    t.index_of_first_ensures(v);
    assert(t[s.len() as int] == v);
    let i = t.index_of_first(v).unwrap();
    if i < s.len() {
        assert(s[i] == v);
    }
    assert(t.remove(i) =~= s);
}

/// In `c` followed by `t`, where `c` differs from the first element of `t`,
/// the first occurrence of that element is the one right after `c`.
proof fn lemma_remove_after_head(c: AuthorId, t: Seq<AuthorId>)
    requires
        t.len() > 0,
        t[0] != c,
    ensures
        (seq![c] + t).remove_value(t[0]) == seq![c] + t.drop_first(),
{
    let u = seq![c] + t;
    assert(u[1] == t[0]);
    u.index_of_first_ensures(t[0]);
    let i = u.index_of_first(t[0]).unwrap();
    assert(u[0] == c);
    assert(i == 1);
    assert(u.remove(1) =~= seq![c] + t.drop_first());
}

/// Pairing two distinct authors that do not list each other and then
/// unpairing them gives back every alias list as it was.
pub proof fn law_add_then_remove_pair(m: Map<usize, AuthorView>, a: AuthorId, b: AuthorId)
    requires
        a.0 != b.0,
        m.contains_key(a.0),
        m.contains_key(b.0),
        !m[a.0].akas.contains(b),
        !m[b.0].akas.contains(a),
    ensures
        remove_pair(add_pair(m, a, b), a, b) == m,
{
    let m1 = add_pair(m, a, b);
    lemma_push_contains(m[a.0].akas, b, b);
    lemma_push_contains(m[b.0].akas, a, a);
    lemma_push_remove_value(m[a.0].akas, b);
    lemma_push_remove_value(m[b.0].akas, a);
    let m2 = remove_pair(m1, a, b);
    assert(m2[a.0] == m[a.0]);
    assert(m2[b.0] == m[b.0]);
    assert(m2 =~= m);
}


/// A consistent library with an author `c` and another author `a` that has no
/// aliases.
pub open spec fn lone_beside(m: Map<usize, AuthorView>, c: AuthorId, a: AuthorId) -> bool {
    &&& aka_consistent(m)
    &&& m.contains_key(c.0)
    &&& m.contains_key(a.0)
    &&& c.0 != a.0
    &&& m[a.0].akas.len() == 0
}

/// The facts about the aliases of `c` that merging `a` in and out rests on.
proof fn lemma_lone_facts(m: Map<usize, AuthorView>, c: AuthorId, a: AuthorId)
    requires
        lone_beside(m, c, a),
    ensures
        m[c.0].akas.no_duplicates(),
        !m[c.0].akas.contains(c),
        !m[c.0].akas.contains(a),
        forall|j: int| 0 <= j < m[c.0].akas.len() ==> {
            &&& m.contains_key(#[trigger] m[c.0].akas[j].0)
            &&& m[c.0].akas[j].0 != c.0
            &&& m[c.0].akas[j].0 != a.0
            &&& !m[m[c.0].akas[j].0].akas.contains(a)
        },
{
    let s1 = m[c.0].akas;
    assert(AuthorId(c.0) == c);
    assert(AuthorId(a.0) == a);
    if s1.contains(c) {
        assert(lists(m, c.0, c));
    }
    if s1.contains(a) {
        assert(lists(m, c.0, a));
        assert(lists(m, a.0, c));
    }
    assert forall|j: int| 0 <= j < s1.len() implies {
        &&& m.contains_key(#[trigger] s1[j].0)
        &&& s1[j].0 != c.0
        &&& s1[j].0 != a.0
        &&& !m[s1[j].0].akas.contains(a)
    } by {
        let x = s1[j];
        assert(s1.contains(x));
        assert(lists(m, c.0, x));
        assert(AuthorId(x.0) == x);
        if m[x.0].akas.contains(a) {
            assert(lists(m, x.0, a));
            assert(lists(m, a.0, AuthorId(x.0)));
        }
    }
}

/// With no aliases on the second side, the pairs of merging are those of
/// unpairing each alias of the first side from `a`.
proof fn lemma_rest_is_removal(c: AuthorId, a: AuthorId, s: Seq<AuthorId>)
    requires
        !s.contains(a),
    ensures
        merge_rest(c, a, s, Seq::empty()) == removal_pairs(a, s),
    decreases s.len(),
{
    if s.len() > 0 {
        lemma_last_contains(s, a);
        lemma_rest_is_removal(c, a, s.drop_last());
        let r = merge_rest(c, a, s.drop_last(), Seq::empty());
        assert(cross(c, s.last(), Seq::<AuthorId>::empty()) =~= Seq::<(AuthorId, AuthorId)>::empty());
        assert(r.push((s.last(), a)) + Seq::<(AuthorId, AuthorId)>::empty() =~= r.push((s.last(), a)));
    }
}

/// The authors after `a` has been paired with `c` and with the first `k`
/// aliases of `c`, which are `s1`.
pub open spec fn joined(m: Map<usize, AuthorView>, c: AuthorId, a: AuthorId, s1: Seq<AuthorId>, k: int) -> Map<usize, AuthorView> {
    Map::new(
        |x: usize| m.contains_key(x),
        |x: usize|
            if x == c.0 {
                with_akas(m[x], s1.push(a))
            } else if x == a.0 {
                with_akas(m[x], seq![c] + s1.subrange(0, k))
            } else if s1.subrange(0, k).contains(AuthorId(x)) {
                with_akas(m[x], m[x].akas.push(a))
            } else {
                m[x]
            },
    )
}

/// The authors after `a` has been unpaired again from the first `k` aliases
/// of `c`, which are `s1`.
pub open spec fn parted(m: Map<usize, AuthorView>, c: AuthorId, a: AuthorId, s1: Seq<AuthorId>, k: int) -> Map<usize, AuthorView> {
    Map::new(
        |x: usize| m.contains_key(x),
        |x: usize|
            if x == c.0 {
                with_akas(m[x], s1.push(a))
            } else if x == a.0 {
                with_akas(m[x], seq![c] + s1.subrange(k, s1.len() as int))
            } else if s1.subrange(k, s1.len() as int).contains(AuthorId(x)) {
                with_akas(m[x], m[x].akas.push(a))
            } else {
                m[x]
            },
    )
}

/// Membership in a range of a sequence without duplicates, by position.
proof fn lemma_range_contains(s1: Seq<AuthorId>, i: int, j: int, x: usize, k: int)
    requires
        s1.no_duplicates(),
        0 <= i <= j <= s1.len(),
        0 <= k < s1.len(),
        s1[k].0 == x,
    ensures
        s1.subrange(i, j).contains(AuthorId(x)) <==> (i <= k < j),
{
    assert(AuthorId(x) == s1[k]);
    if s1.subrange(i, j).contains(AuthorId(x)) {
        let t = choose|t: int| 0 <= t < j - i && #[trigger] s1.subrange(i, j)[t] == AuthorId(x);
        assert(s1[i + t] == s1[k]);
    }
    if i <= k < j {
        assert(s1.subrange(i, j)[k - i] == AuthorId(x));
    }
}

/// Pairing `a` with the next alias of `c`.
proof fn lemma_join_step(m: Map<usize, AuthorView>, c: AuthorId, a: AuthorId, k: int)
    requires
        lone_beside(m, c, a),
        0 <= k < m[c.0].akas.len(),
    ensures
        add_pair(joined(m, c, a, m[c.0].akas, k), m[c.0].akas[k], a) == joined(m, c, a, m[c.0].akas, k + 1),
{
    let s1 = m[c.0].akas;
    lemma_lone_facts(m, c, a);
    let j0 = joined(m, c, a, s1, k);
    let j1 = joined(m, c, a, s1, k + 1);
    let x = s1[k];
    assert(m.contains_key(x.0));
    lemma_range_contains(s1, 0, k, x.0, k);
    assert(AuthorId(x.0) == x);
    assert(j0[x.0] == m[x.0]);
    // `a` lists `c` and the aliases before `x`, not `x`
    if (seq![c] + s1.subrange(0, k)).contains(x) {
        lemma_concat_contains(seq![c], s1.subrange(0, k), x);
        if seq![c].contains(x) {
            assert(seq![c][0] == x);
            assert(s1.contains(c));
        }
    }
    assert(!j0[a.0].akas.contains(x));
    let r = add_pair(j0, x, a);
    assert(seq![c] + s1.subrange(0, k + 1) =~= (seq![c] + s1.subrange(0, k)).push(x));
    assert forall|y: usize| #[trigger] r.contains_key(y) <==> j1.contains_key(y) by {}
    assert forall|y: usize| r.contains_key(y) implies #[trigger] r[y] == j1[y] by {
        if y != c.0 && y != a.0 && y != x.0 {
            if s1.subrange(0, k + 1).contains(AuthorId(y)) {
                let t = choose|t: int| 0 <= t < k + 1 && #[trigger] s1.subrange(0, k + 1)[t] == AuthorId(y);
                assert(s1[t].0 == y);
                lemma_range_contains(s1, 0, k, y, t);
                lemma_range_contains(s1, 0, k + 1, y, t);
            } else if s1.subrange(0, k).contains(AuthorId(y)) {
                let t = choose|t: int| 0 <= t < k && #[trigger] s1.subrange(0, k)[t] == AuthorId(y);
                assert(s1.subrange(0, k + 1)[t] == AuthorId(y));
            }
        }
        if y == x.0 {
            lemma_range_contains(s1, 0, k + 1, y, k);
        }
    }
    assert(r =~= j1);
}

/// Unpairing `a` from the next alias of `c`.
proof fn lemma_part_step(m: Map<usize, AuthorView>, c: AuthorId, a: AuthorId, k: int)
    requires
        lone_beside(m, c, a),
        0 <= k < m[c.0].akas.len(),
    ensures
        remove_pair(parted(m, c, a, m[c.0].akas, k), m[c.0].akas[k], a) == parted(m, c, a, m[c.0].akas, k + 1),
{
    let s1 = m[c.0].akas;
    let n = s1.len() as int;
    lemma_lone_facts(m, c, a);
    let p0 = parted(m, c, a, s1, k);
    let p1 = parted(m, c, a, s1, k + 1);
    let x = s1[k];
    assert(m.contains_key(x.0));
    lemma_range_contains(s1, k, n, x.0, k);
    lemma_range_contains(s1, k + 1, n, x.0, k);
    assert(AuthorId(x.0) == x);
    assert(p0[x.0].akas == m[x.0].akas.push(a));
    lemma_push_contains(m[x.0].akas, a, a);
    let t = s1.subrange(k, n);
    assert(t[0] == x);
    assert(p0[a.0].akas == seq![c] + t);
    assert((seq![c] + t)[1] == x);
    assert(x != c);
    lemma_remove_after_head(c, t);
    assert(t.drop_first() =~= s1.subrange(k + 1, n));
    lemma_push_remove_value(m[x.0].akas, a);
    let r = remove_pair(p0, x, a);
    assert forall|y: usize| r.contains_key(y) implies #[trigger] r[y] == p1[y] by {
        if y != c.0 && y != a.0 && y != x.0 {
            if s1.subrange(k, n).contains(AuthorId(y)) {
                let u = choose|u: int| 0 <= u < n - k && #[trigger] s1.subrange(k, n)[u] == AuthorId(y);
                assert(s1[k + u].0 == y);
                lemma_range_contains(s1, k, n, y, k + u);
                lemma_range_contains(s1, k + 1, n, y, k + u);
            } else if s1.subrange(k + 1, n).contains(AuthorId(y)) {
                let u = choose|u: int| 0 <= u < n - k - 1 && #[trigger] s1.subrange(k + 1, n)[u] == AuthorId(y);
                assert(s1.subrange(k, n)[u + 1] == AuthorId(y));
            }
        }
    }
    assert(r =~= p1);
}

/// Pairing `a` with `c` and then with the first `k` aliases of `c`.
proof fn lemma_join_fold(m: Map<usize, AuthorView>, c: AuthorId, a: AuthorId, k: int)
    requires
        lone_beside(m, c, a),
        0 <= k <= m[c.0].akas.len(),
    ensures
        add_pairs(m, seq![(c, a)] + removal_pairs(a, m[c.0].akas.subrange(0, k))) == joined(m, c, a, m[c.0].akas, k),
    decreases k,
{
    let s1 = m[c.0].akas;
    lemma_lone_facts(m, c, a);
    if k == 0 {
        assert(s1.subrange(0, 0) =~= Seq::<AuthorId>::empty());
        let p = seq![(c, a)] + removal_pairs(a, s1.subrange(0, 0));
        assert(p =~= seq![(c, a)]);
        assert(p.drop_last() =~= Seq::<(AuthorId, AuthorId)>::empty());
        assert(add_pairs(m, p.drop_last()) == m);
        assert(p.last() == (c, a));
        assert(add_pairs(m, p) == add_pair(m, c, a));
        let r = add_pair(m, c, a);
        assert(m[a.0].akas =~= Seq::<AuthorId>::empty());
        assert(!m[a.0].akas.contains(c));
        let j = joined(m, c, a, s1, 0);
        assert(seq![c] + s1.subrange(0, 0) =~= Seq::<AuthorId>::empty().push(c));
        assert forall|y: usize| r.contains_key(y) implies #[trigger] r[y] == j[y] by {
            if y != c.0 && y != a.0 {
                assert(!s1.subrange(0, 0).contains(AuthorId(y)));
            }
            if y == a.0 {
                assert(m[a.0].akas.push(c) =~= seq![c] + s1.subrange(0, 0));
            }
        }
        assert(r =~= j);
    } else {
        lemma_join_fold(m, c, a, k - 1);
        let x = s1[k - 1];
        lemma_range_contains(s1, 0, k - 1, x.0, k - 1);
        assert(AuthorId(x.0) == x);
        assert(s1.subrange(0, k).drop_last() =~= s1.subrange(0, k - 1));
        assert(s1.subrange(0, k).last() == x);
        assert(x != a);
        let p0 = seq![(c, a)] + removal_pairs(a, s1.subrange(0, k - 1));
        assert(seq![(c, a)] + removal_pairs(a, s1.subrange(0, k)) =~= p0.push((x, a)));
        lemma_add_pairs_push(m, p0, (x, a));
        lemma_join_step(m, c, a, k - 1);
    }
}

/// Unpairing `a`, once joined, from the first `k` aliases of `c`.
proof fn lemma_part_fold(m: Map<usize, AuthorView>, c: AuthorId, a: AuthorId, k: int)
    requires
        lone_beside(m, c, a),
        0 <= k <= m[c.0].akas.len(),
    ensures
        remove_pairs(joined(m, c, a, m[c.0].akas, m[c.0].akas.len() as int), removal_pairs(a, m[c.0].akas.subrange(0, k)))
            == parted(m, c, a, m[c.0].akas, k),
    decreases k,
{
    let s1 = m[c.0].akas;
    let n = s1.len() as int;
    lemma_lone_facts(m, c, a);
    let j = joined(m, c, a, s1, n);
    if k == 0 {
        assert(s1.subrange(0, 0) =~= Seq::<AuthorId>::empty());
        assert(removal_pairs(a, s1.subrange(0, 0)) =~= Seq::<(AuthorId, AuthorId)>::empty());
        assert(s1.subrange(0, n) =~= s1);
        assert(s1.subrange(0, n) == s1.subrange(k, n));
        assert(j =~= parted(m, c, a, s1, 0));
    } else {
        lemma_part_fold(m, c, a, k - 1);
        let x = s1[k - 1];
        lemma_range_contains(s1, 0, k - 1, x.0, k - 1);
        assert(AuthorId(x.0) == x);
        assert(s1.subrange(0, k).drop_last() =~= s1.subrange(0, k - 1));
        assert(s1.subrange(0, k).last() == x);
        assert(x != a);
        let p0 = removal_pairs(a, s1.subrange(0, k - 1));
        assert(removal_pairs(a, s1.subrange(0, k)) == p0.push((x, a)));
        lemma_remove_pairs_push(j, p0, (x, a));
        lemma_part_step(m, c, a, k - 1);
    }
}

/// Merging a lone author `a` into the cluster of `c` and then removing it
/// from that cluster gives back the library's authors exactly as they were.
pub proof fn law_merge_then_remove_lone(m: Map<usize, AuthorView>, c: AuthorId, a: AuthorId)
    requires
        lone_beside(m, c, a),
    ensures
        remove_from_cluster(merge_clusters(m, c, a), c, a) == m,
{
    let s1 = m[c.0].akas;
    let n = s1.len() as int;
    lemma_lone_facts(m, c, a);
    assert(m[a.0].akas =~= Seq::<AuthorId>::empty());
    assert(merge_applies(m, c, a));
    lemma_rest_is_removal(c, a, s1);
    assert(s1.subrange(0, n) =~= s1);
    let e = Seq::<AuthorId>::empty();
    assert(m[a.0].akas == e);
    assert(pair_with(c, e) =~= Seq::<(AuthorId, AuthorId)>::empty());
    assert(merge_rest(c, a, s1, e) == removal_pairs(a, s1));
    assert(merge_pairs(c, a, s1, e) =~= seq![(c, a)] + removal_pairs(a, s1.subrange(0, n)));
    lemma_join_fold(m, c, a, n);
    let m1 = merge_clusters(m, c, a);
    assert(m1 == joined(m, c, a, s1, n));
    assert(m1[c.0].akas == s1.push(a));
    lemma_push_contains(s1, a, a);
    assert(removal_applies(m1, c, a));
    assert(c != a);
    assert(s1.push(a).drop_last() =~= s1);
    assert(removal_pairs(a, s1.push(a)) == removal_pairs(a, s1));
    lemma_part_fold(m, c, a, n);
    let rp = removal_pairs(a, s1);
    lemma_remove_pairs_push(m1, rp, (c, a));
    let p = parted(m, c, a, s1, n);
    assert(s1.subrange(n, n) =~= Seq::<AuthorId>::empty());
    assert(p[a.0].akas =~= seq![c]);
    assert(p[c.0].akas == s1.push(a));
    lemma_push_remove_value(s1, a);
    assert(seq![c].remove_value(c) =~= Seq::<AuthorId>::empty()) by {
        seq![c].index_of_first_ensures(c);
        assert(seq![c][0] == c);
    }
    lemma_push_contains(Seq::<AuthorId>::empty(), c, c);
    assert(seq![c] =~= Seq::<AuthorId>::empty().push(c));
    let r = remove_pair(p, c, a);
    assert forall|y: usize| r.contains_key(y) implies #[trigger] r[y] == m[y] by {
        if y != c.0 && y != a.0 {
            assert(!s1.subrange(n, n).contains(AuthorId(y)));
        }
    }
    assert(r =~= m);
}

} // verus!
