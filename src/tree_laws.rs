use vstd::prelude::*;
use vstd::multiset::{lemma_multiset_empty_len, Multiset};
use vstd::seq_lib::to_multiset_build;
use vstd::set_lib::{lemma_int_range, lemma_len_subset, lemma_set_disjoint_lens, set_int_range};

use crate::model::{info_of, DictInfo, DictNode, DictTree};
use crate::tree::{
    forest, kids, kids_upto, lemma_find_code_in_range, lemma_kids_in_range,
    lemma_roots_in_range, parent_of, patched, replace_in_forest, replace_in_tree, roots, roots_upto,
    subtree,
};

verus! {

/// Whether some entry of `t` carries `code`.
pub open spec fn tree_has_code(t: DictTree, code: Seq<char>) -> bool
    decreases t,
{
    t.info.code == code || exists|i: int|
        0 <= i < t.children.len() && tree_has_code(#[trigger] t.children[i], code)
}

pub open spec fn forest_has_code(f: Seq<DictTree>, code: Seq<char>) -> bool {
    exists|i: int| 0 <= i < f.len() && tree_has_code(#[trigger] f[i], code)
}

/// Whether every child in `t` declares its parent's code as parent code.
pub open spec fn children_point_up(t: DictTree) -> bool
    decreases t,
{
    forall|i: int|
        0 <= i < t.children.len() ==> {
            &&& (#[trigger] t.children[i]).info.parent_code == Some(t.info.code)
            &&& children_point_up(t.children[i])
        }
}

/// Building from an empty list gives an empty forest.
pub proof fn law_build_empty(flat: Seq<DictNode>)
    requires
        flat.len() == 0,
    ensures
        forest(flat) == Seq::<DictTree>::empty(),
{
    assert(forest(flat) =~= Seq::<DictTree>::empty());
}

proof fn lemma_flat_roots(flat: Seq<DictNode>, k: nat)
    requires
        k <= flat.len(),
        forall|i: int| 0 <= i < flat.len() ==> (#[trigger] flat[i]).parent_code is None,
    ensures
        roots_upto(flat, k) == Seq::new(k, |x: int| x),
        forall|i: int| kids_upto(flat, i, k) == Seq::<int>::empty(),
    decreases k,
{
    if k > 0 {
        lemma_flat_roots(flat, (k - 1) as nat);
        assert(roots_upto(flat, k) =~= Seq::new(k, |x: int| x));
        assert forall|i: int| #[trigger] kids_upto(flat, i, k) == Seq::<int>::empty() by {
            assert(kids_upto(flat, i, (k - 1) as nat) == Seq::<int>::empty());
        }
    }
}

/// When no entry declares a parent code, every entry becomes a childless
/// root, in list order.
pub proof fn law_build_flat(flat: Seq<DictNode>)
    requires
        forall|i: int| 0 <= i < flat.len() ==> (#[trigger] flat[i]).parent_code is None,
    ensures
        forest(flat).len() == flat.len(),
        forall|i: int|
            0 <= i < flat.len() ==> #[trigger] forest(flat)[i] == (DictTree {
                info: info_of(flat[i]),
                children: Seq::empty(),
            }),
{
    lemma_flat_roots(flat, flat.len());
    assert forall|i: int| 0 <= i < flat.len() implies #[trigger] forest(flat)[i] == (DictTree {
        info: info_of(flat[i]),
        children: Seq::empty(),
    }) by {
        assert(roots(flat)[i] == i);
        assert(kids(flat, i) == Seq::<int>::empty());
        assert(forest(flat)[i].children =~= Seq::<DictTree>::empty());
    }
}

proof fn lemma_kids_point_up(flat: Seq<DictNode>, i: int, k: nat)
    requires
        k <= flat.len(),
    ensures
        forall|c: int|
            0 <= c < kids_upto(flat, i, k).len() ==> parent_of(
                flat,
                #[trigger] kids_upto(flat, i, k)[c],
            ) == Some(i),
    decreases k,
{
    if k > 0 {
        let prev = kids_upto(flat, i, (k - 1) as nat);
        lemma_kids_point_up(flat, i, (k - 1) as nat);
        assert forall|c: int| 0 <= c < kids_upto(flat, i, k).len() implies parent_of(
            flat,
            #[trigger] kids_upto(flat, i, k)[c],
        ) == Some(i) by {
            if c < prev.len() {
                assert(kids_upto(flat, i, k)[c] == prev[c]);
            }
        }
    }
}

proof fn lemma_subtree_points_up(flat: Seq<DictNode>, i: int, depth: nat)
    requires
        0 <= i < flat.len(),
    ensures
        children_point_up(subtree(flat, i, depth)),
    decreases depth,
{
    let t = subtree(flat, i, depth);
    if depth > 0 {
        let ks = kids(flat, i);
        lemma_kids_point_up(flat, i, flat.len());
        lemma_kids_in_range(flat, i, flat.len() as nat);
        assert forall|c: int| 0 <= c < t.children.len() implies {
            &&& (#[trigger] t.children[c]).info.parent_code == Some(t.info.code)
            &&& children_point_up(t.children[c])
        } by {
            let j = ks[c];
            lemma_subtree_points_up(flat, j, (depth - 1) as nat);
            let p = flat[j].parent_code->0@;
            lemma_find_code_in_range(flat, p, 0);
        }
    }
}

/// Every child in a built forest declares its parent's code as parent code.
pub proof fn law_build_children_point_up(flat: Seq<DictNode>)
    ensures
        forall|r: int| 0 <= r < forest(flat).len() ==> children_point_up(#[trigger] forest(flat)[r]),
{
    lemma_roots_in_range(flat, flat.len() as nat);
    assert forall|r: int| 0 <= r < forest(flat).len() implies children_point_up(
        #[trigger] forest(flat)[r],
    ) by {
        lemma_subtree_points_up(flat, roots(flat)[r], flat.len() as nat);
    }
}

/// Replacing keeps the shape of the forest: the same roots in the same
/// order, each patched from `u` where its code is `u.code` and left as it was
/// elsewhere, each with its children replaced in the same way and order.
pub proof fn law_replace_keeps_shape(f: Seq<DictTree>, u: DictInfo)
    ensures
        replace_in_forest(f, u).len() == f.len(),
        forall|i: int|
            0 <= i < f.len() ==> (#[trigger] replace_in_forest(f, u)[i]).info == if f[i].info.code
                == u.code {
                patched(f[i].info, u)
            } else {
                f[i].info
            },
        forall|i: int|
            0 <= i < f.len() ==> (#[trigger] replace_in_forest(f, u)[i]).children
                == replace_in_forest(f[i].children, u),
{
    assert forall|i: int| 0 <= i < f.len() implies (#[trigger] replace_in_forest(
        f,
        u,
    )[i]).children == replace_in_forest(f[i].children, u) by {
        assert(replace_in_forest(f, u)[i].children =~= replace_in_forest(f[i].children, u));
    }
}

/// The entry reached in `f` by following `path`: the root at `path[0]`, then
/// its child at `path[1]`, and so on.
pub open spec fn node_at(f: Seq<DictTree>, path: Seq<int>) -> Option<DictTree>
    decreases path.len(),
{
    if path.len() == 0 || !(0 <= path[0] < f.len()) {
        None
    } else if path.len() == 1 {
        Some(f[path[0]])
    } else {
        node_at(f[path[0]].children, path.drop_first())
    }
}

/// Replacing works at every depth: at each position of the forest there is
/// an entry afterwards exactly where there was one before; it is patched from
/// `u` where its code is `u.code` and left as it was elsewhere; it keeps its
/// number of children, and its children are replaced in the same way.
pub proof fn law_replace_at_every_depth(f: Seq<DictTree>, u: DictInfo, path: Seq<int>)
    ensures
        match node_at(f, path) {
            None => node_at(replace_in_forest(f, u), path) is None,
            Some(t) => node_at(replace_in_forest(f, u), path) matches Some(r) && r.info == (if t.info.code
                == u.code {
                patched(t.info, u)
            } else {
                t.info
            }) && r.children.len() == t.children.len() && r.children == replace_in_forest(
                t.children,
                u,
            ),
        },
    decreases path.len(),
{
    law_replace_keeps_shape(f, u);
    if path.len() > 1 && 0 <= path[0] < f.len() {
        let t = f[path[0]];
        law_replace_at_every_depth(t.children, u, path.drop_first());
    }
}

proof fn lemma_replace_tree_no_match(t: DictTree, u: DictInfo)
    requires
        !tree_has_code(t, u.code),
    ensures
        replace_in_tree(t, u) == t,
    decreases t,
{
    assert forall|i: int| 0 <= i < t.children.len() implies #[trigger] replace_in_tree(
        t.children[i],
        u,
    ) == t.children[i] by {
        lemma_replace_tree_no_match(t.children[i], u);
    }
    let r = replace_in_tree(t, u);
    assert(r.children.len() == t.children.len());
    assert forall|i: int| 0 <= i < t.children.len() implies r.children[i] == t.children[i] by {
        assert(r.children[i] == replace_in_tree(t.children[i], u));
    }
    assert(r.children =~= t.children);
    assert(r.info == t.info);
}

/// Where no entry carries `u.code`, replacing leaves the forest as it was.
pub proof fn law_replace_absent(f: Seq<DictTree>, u: DictInfo)
    requires
        !forest_has_code(f, u.code),
    ensures
        replace_in_forest(f, u) == f,
{
    assert forall|i: int| 0 <= i < f.len() implies #[trigger] replace_in_forest(f, u)[i]
        == f[i] by {
        lemma_replace_tree_no_match(f[i], u);
    }
    assert(replace_in_forest(f, u) =~= f);
}

} // verus!

verus! {

// ---------------------------------------------------------------------------
// No entry is lost or repeated
// ---------------------------------------------------------------------------

/// The number of entries in a tree.
pub open spec fn size(t: DictTree) -> nat
    decreases t,
{
    1 + sizes(t.children)
}

/// The number of entries in a forest.
pub open spec fn sizes(s: Seq<DictTree>) -> nat
    decreases s,
{
    if s.len() == 0 {
        0
    } else {
        sizes(s.subrange(0, s.len() - 1)) + size(s[s.len() - 1])
    }
}

/// The entry reached from `j` by following `d` parent links, if any.
pub open spec fn ancestor(flat: Seq<DictNode>, j: int, d: nat) -> Option<int>
    decreases d,
{
    if d == 0 {
        Some(j)
    } else {
        match parent_of(flat, j) {
            None => None,
            Some(p) => ancestor(flat, p, (d - 1) as nat),
        }
    }
}

/// Following parent links from `i` ends at a root-level entry within `steps`
/// links.
pub open spec fn reaches_root(flat: Seq<DictNode>, i: int, steps: nat) -> bool
    decreases steps,
{
    match parent_of(flat, i) {
        None => true,
        Some(p) => steps > 0 && reaches_root(flat, p, (steps - 1) as nat),
    }
}

/// The parent links of the list have no cycle: from every entry they end at a
/// root-level entry.
pub open spec fn acyclic(flat: Seq<DictNode>) -> bool {
    forall|i: int| 0 <= i < flat.len() ==> #[trigger] reaches_root(flat, i, flat.len() as nat)
}

/// The positions at most `f` parent links below `i`.
pub open spec fn below(flat: Seq<DictNode>, i: int, f: nat) -> Set<int> {
    Set::new(
        |j: int|
            0 <= j < flat.len() && exists|d: nat| d <= f && #[trigger] ancestor(flat, j, d) == Some(i),
    )
}

/// The positions below one of the first `m` positions of `ks`.
pub open spec fn below_any(flat: Seq<DictNode>, ks: Seq<int>, f: nat, m: int) -> Set<int> {
    Set::new(
        |j: int| exists|c: int| 0 <= c < m && #[trigger] below(flat, ks[c], f).contains(j),
    )
}

pub open spec fn trees_at(flat: Seq<DictNode>, ks: Seq<int>, f: nat) -> Seq<DictTree> {
    Seq::new(ks.len(), |c: int| subtree(flat, ks[c], f))
}

proof fn lemma_parent_in_range(flat: Seq<DictNode>, j: int)
    ensures
        parent_of(flat, j) matches Some(p) ==> 0 <= p < flat.len(),
{
    if let Some(code) = flat[j].parent_code {
        lemma_find_code_in_range(flat, code@, 0);
    }
}

proof fn lemma_ancestor_compose(flat: Seq<DictNode>, j: int, a: nat, b: nat)
    ensures
        ancestor(flat, j, a + b) == match ancestor(flat, j, a) {
            Some(k) => ancestor(flat, k, b),
            None => None,
        },
    decreases a,
{
    if a > 0 {
        if let Some(p) = parent_of(flat, j) {
            lemma_ancestor_compose(flat, p, (a - 1) as nat, b);
            assert((a + b - 1) as nat == ((a - 1) as nat + b) as nat);
        }
    }
}

proof fn lemma_ancestor_one(flat: Seq<DictNode>, k: int)
    ensures
        ancestor(flat, k, 1) == parent_of(flat, k),
{
    if let Some(p) = parent_of(flat, k) {
        assert(ancestor(flat, p, 0) == Some(p));
    }
}

proof fn lemma_ancestor_in_range(flat: Seq<DictNode>, j: int, d: nat)
    requires
        0 <= j < flat.len(),
    ensures
        ancestor(flat, j, d) matches Some(k) ==> 0 <= k < flat.len(),
    decreases d,
{
    if d > 0 {
        lemma_parent_in_range(flat, j);
        if let Some(p) = parent_of(flat, j) {
            lemma_ancestor_in_range(flat, p, (d - 1) as nat);
        }
    }
}

proof fn lemma_reach_end(flat: Seq<DictNode>, j: int, s: nat)
    requires
        reaches_root(flat, j, s),
    ensures
        ancestor(flat, j, s + 1) is None,
    decreases s,
{
    if let Some(p) = parent_of(flat, j) {
        lemma_reach_end(flat, p, (s - 1) as nat);
        assert((s + 1 - 1) as nat == ((s - 1) as nat + 1) as nat);
    }
}

proof fn lemma_reach_root(flat: Seq<DictNode>, j: int, s: nat) -> (res: (nat, int))
    requires
        0 <= j < flat.len(),
        reaches_root(flat, j, s),
    ensures
        res.0 <= s,
        ancestor(flat, j, res.0) == Some(res.1),
        0 <= res.1 < flat.len(),
        parent_of(flat, res.1) is None,
    decreases s,
{
    match parent_of(flat, j) {
        None => (0, j),
        Some(p) => {
            lemma_parent_in_range(flat, j);
            let (t, r) = lemma_reach_root(flat, p, (s - 1) as nat);
            assert(ancestor(flat, j, t + 1) == ancestor(flat, p, t));
            ((t + 1) as nat, r)
        },
    }
}

proof fn lemma_cycle_never_ends(flat: Seq<DictNode>, i: int, e: nat, t: nat)
    requires
        e >= 1,
        ancestor(flat, i, e) == Some(i),
    ensures
        ancestor(flat, i, t) is Some,
    decreases t,
{
    if t < e {
        lemma_ancestor_compose(flat, i, t, (e - t) as nat);
    } else {
        lemma_cycle_never_ends(flat, i, e, (t - e) as nat);
        lemma_ancestor_compose(flat, i, e, (t - e) as nat);
    }
}

proof fn lemma_no_self_ancestor(flat: Seq<DictNode>, i: int, e: nat)
    requires
        acyclic(flat),
        0 <= i < flat.len(),
        e >= 1,
    ensures
        ancestor(flat, i, e) != Some(i),
{
    if ancestor(flat, i, e) == Some(i) {
        assert(reaches_root(flat, i, flat.len() as nat));
        lemma_reach_end(flat, i, flat.len() as nat);
        lemma_cycle_never_ends(flat, i, e, (flat.len() + 1) as nat);
    }
}

proof fn lemma_kids_facts(flat: Seq<DictNode>, i: int, m: nat)
    requires
        m <= flat.len(),
    ensures
        forall|c: int|
            0 <= c < kids_upto(flat, i, m).len() ==> parent_of(flat, #[trigger] kids_upto(flat, i, m)[c])
                == Some(i) && 0 <= kids_upto(flat, i, m)[c] < m,
        forall|c1: int, c2: int|
            0 <= c1 < c2 < kids_upto(flat, i, m).len() ==> #[trigger] kids_upto(flat, i, m)[c1]
                < #[trigger] kids_upto(flat, i, m)[c2],
        forall|k: int|
            0 <= k < m && parent_of(flat, k) == Some(i) ==> #[trigger] kids_upto(
                flat,
                i,
                m,
            ).contains(k),
    decreases m,
{
    if m > 0 {
        let prev = kids_upto(flat, i, (m - 1) as nat);
        let cur = kids_upto(flat, i, m);
        lemma_kids_facts(flat, i, (m - 1) as nat);
        assert forall|c: int| 0 <= c < prev.len() implies cur[c] == prev[c] by {}
        assert forall|k: int| 0 <= k < m && parent_of(flat, k) == Some(i) implies #[trigger] cur.contains(
            k,
        ) by {
            if k == m - 1 {
                assert(cur[cur.len() - 1] == k);
            } else {
                assert(prev.contains(k));
                let c = choose|c: int| 0 <= c < prev.len() && prev[c] == k;
                assert(cur[c] == k);
            }
        }
    }
}

proof fn lemma_roots_facts(flat: Seq<DictNode>, m: nat)
    requires
        m <= flat.len(),
    ensures
        forall|c: int|
            0 <= c < roots_upto(flat, m).len() ==> parent_of(flat, #[trigger] roots_upto(flat, m)[c])
                is None && 0 <= roots_upto(flat, m)[c] < m,
        forall|c1: int, c2: int|
            0 <= c1 < c2 < roots_upto(flat, m).len() ==> #[trigger] roots_upto(flat, m)[c1]
                < #[trigger] roots_upto(flat, m)[c2],
        forall|k: int|
            0 <= k < m && parent_of(flat, k) is None ==> #[trigger] roots_upto(flat, m).contains(k),
    decreases m,
{
    if m > 0 {
        let prev = roots_upto(flat, (m - 1) as nat);
        let cur = roots_upto(flat, m);
        lemma_roots_facts(flat, (m - 1) as nat);
        assert forall|c: int| 0 <= c < prev.len() implies cur[c] == prev[c] by {}
        assert forall|k: int| 0 <= k < m && parent_of(flat, k) is None implies #[trigger] cur.contains(
            k,
        ) by {
            if k == m - 1 {
                assert(cur[cur.len() - 1] == k);
            } else {
                assert(prev.contains(k));
                let c = choose|c: int| 0 <= c < prev.len() && prev[c] == k;
                assert(cur[c] == k);
            }
        }
    }
}

proof fn lemma_below_finite(flat: Seq<DictNode>, i: int, f: nat)
    ensures
        below(flat, i, f).finite(),
        below(flat, i, f).subset_of(set_int_range(0, flat.len() as int)),
{
    lemma_int_range(0, flat.len() as int);
    lemma_len_subset(below(flat, i, f), set_int_range(0, flat.len() as int));
}

/// Two entries that share a parent have no entry below both.
proof fn lemma_siblings_apart(flat: Seq<DictNode>, i: int, k1: int, k2: int, f: nat, j: int)
    requires
        acyclic(flat),
        0 <= i < flat.len(),
        0 <= k1 < flat.len(),
        k1 != k2,
        parent_of(flat, k1) == Some(i),
        parent_of(flat, k2) == Some(i),
        below(flat, k1, f).contains(j),
    ensures
        !below(flat, k2, f).contains(j),
{
    if below(flat, k2, f).contains(j) {
        let d1 = choose|d: nat| d <= f && #[trigger] ancestor(flat, j, d) == Some(k1);
        let d2 = choose|d: nat| d <= f && #[trigger] ancestor(flat, j, d) == Some(k2);
        if d1 < d2 {
            lemma_sibling_chain(flat, i, k1, k2, j, d1, d2);
        } else if d2 < d1 {
            lemma_sibling_chain(flat, i, k2, k1, j, d2, d1);
        }
    }
}

proof fn lemma_sibling_chain(flat: Seq<DictNode>, i: int, k1: int, k2: int, j: int, d1: nat, d2: nat)
    requires
        acyclic(flat),
        0 <= i < flat.len(),
        parent_of(flat, k1) == Some(i),
        parent_of(flat, k2) == Some(i),
        d1 < d2,
        ancestor(flat, j, d1) == Some(k1),
    ensures
        ancestor(flat, j, d2) != Some(k2),
{
    if ancestor(flat, j, d2) == Some(k2) {
        lemma_chain_cycle(flat, i, k1, k2, j, d1, d2);
    }
}

proof fn lemma_chain_cycle(flat: Seq<DictNode>, i: int, k1: int, k2: int, j: int, d1: nat, d2: nat)
    requires
        acyclic(flat),
        0 <= i < flat.len(),
        parent_of(flat, k1) == Some(i),
        parent_of(flat, k2) == Some(i),
        d1 < d2,
        ancestor(flat, j, d1) == Some(k1),
        ancestor(flat, j, d2) == Some(k2),
    ensures
        ancestor(flat, i, (d2 - d1) as nat) == Some(i),
        ancestor(flat, i, (d2 - d1) as nat) != Some(i),
{
    let e = (d2 - d1) as nat;
    lemma_ancestor_compose(flat, j, d1, e);
    assert(ancestor(flat, k1, e) == Some(k2));
    lemma_ancestor_compose(flat, k1, e, 1);
    lemma_ancestor_one(flat, k2);
    lemma_ancestor_one(flat, k1);
    lemma_ancestor_compose(flat, k1, 1, e);
    assert(ancestor(flat, k1, 1) == Some(i));
    assert((e + 1) as nat == (1 + e) as nat);
    lemma_no_self_ancestor(flat, i, e);
}

/// Two root-level entries have no entry below both.
proof fn lemma_roots_apart(flat: Seq<DictNode>, r1: int, r2: int, f: nat, j: int)
    requires
        r1 != r2,
        parent_of(flat, r1) is None,
        parent_of(flat, r2) is None,
        below(flat, r1, f).contains(j),
    ensures
        !below(flat, r2, f).contains(j),
{
    if below(flat, r2, f).contains(j) {
        let d1 = choose|d: nat| d <= f && #[trigger] ancestor(flat, j, d) == Some(r1);
        let d2 = choose|d: nat| d <= f && #[trigger] ancestor(flat, j, d) == Some(r2);
        if d1 < d2 {
            lemma_ancestor_compose(flat, j, d1, (d2 - d1) as nat);
        } else if d2 < d1 {
            lemma_ancestor_compose(flat, j, d2, (d1 - d2) as nat);
        }
    }
}

/// The entries of a tree, as a multiset.
pub open spec fn infos(t: DictTree) -> Multiset<DictInfo>
    decreases t,
{
    Multiset::singleton(t.info).add(infos_all(t.children))
}

/// The entries of a forest, as a multiset.
pub open spec fn infos_all(s: Seq<DictTree>) -> Multiset<DictInfo>
    decreases s,
{
    if s.len() == 0 {
        Multiset::empty()
    } else {
        infos_all(s.subrange(0, s.len() - 1)).add(infos(s[s.len() - 1]))
    }
}

/// The entries of the list at the positions of `s` below `k`.
pub open spec fn entries_in(flat: Seq<DictNode>, s: Set<int>, k: nat) -> Multiset<DictInfo>
    decreases k,
{
    if k == 0 {
        Multiset::empty()
    } else {
        let prev = entries_in(flat, s, (k - 1) as nat);
        if s.contains(k - 1) {
            prev.insert(info_of(flat[k - 1]))
        } else {
            prev
        }
    }
}

pub open spec fn list_entries(flat: Seq<DictNode>) -> Multiset<DictInfo> {
    flat.map_values(|n: DictNode| info_of(n)).to_multiset()
}

proof fn lemma_entries_union(flat: Seq<DictNode>, a: Set<int>, b: Set<int>, k: nat)
    requires
        a.disjoint(b),
    ensures
        entries_in(flat, a + b, k) == entries_in(flat, a, k).add(entries_in(flat, b, k)),
    decreases k,
{
    if k > 0 {
        lemma_entries_union(flat, a, b, (k - 1) as nat);
        assert(entries_in(flat, a + b, k) =~= entries_in(flat, a, k).add(entries_in(flat, b, k)));
    }
}

proof fn lemma_entries_empty(flat: Seq<DictNode>, k: nat)
    ensures
        entries_in(flat, Set::empty(), k) == Multiset::<DictInfo>::empty(),
    decreases k,
{
    if k > 0 {
        lemma_entries_empty(flat, (k - 1) as nat);
    }
}

proof fn lemma_entries_single(flat: Seq<DictNode>, i: int, k: nat)
    requires
        0 <= i < k,
    ensures
        entries_in(flat, set![i], k) == Multiset::singleton(info_of(flat[i])),
    decreases k,
{
    if i == k - 1 {
        lemma_entries_empty(flat, (k - 1) as nat);
        assert(entries_in(flat, set![i], (k - 1) as nat) =~= entries_in(flat, Set::empty(), (k - 1) as nat)) by {
            lemma_entries_outside(flat, set![i], Set::empty(), (k - 1) as nat);
        }
        assert(entries_in(flat, set![i], k) =~= Multiset::singleton(info_of(flat[i])));
    } else {
        lemma_entries_single(flat, i, (k - 1) as nat);
    }
}

/// Positions at or above `k` do not count.
proof fn lemma_entries_outside(flat: Seq<DictNode>, a: Set<int>, b: Set<int>, k: nat)
    requires
        forall|j: int| 0 <= j < k ==> (a.contains(j) <==> b.contains(j)),
    ensures
        entries_in(flat, a, k) == entries_in(flat, b, k),
    decreases k,
{
    if k > 0 {
        lemma_entries_outside(flat, a, b, (k - 1) as nat);
    }
}

proof fn lemma_entries_all(flat: Seq<DictNode>, k: nat)
    requires
        k <= flat.len(),
    ensures
        entries_in(flat, set_int_range(0, flat.len() as int), k) == flat.subrange(0, k as int).map_values(
            |n: DictNode| info_of(n),
        ).to_multiset(),
    decreases k,
{
    let f = |n: DictNode| info_of(n);
    if k == 0 {
        let e = flat.subrange(0, 0).map_values(f);
        assert(e.len() == 0);
        e.to_multiset_ensures();
        lemma_multiset_empty_len(e.to_multiset());
    } else {
        lemma_entries_all(flat, (k - 1) as nat);
        let prev = flat.subrange(0, k - 1).map_values(f);
        assert(flat.subrange(0, k as int).map_values(f) =~= prev.push(info_of(flat[k - 1])));
        to_multiset_build(prev, info_of(flat[k - 1]));
    }
}

proof fn lemma_sizes_union(flat: Seq<DictNode>, ks: Seq<int>, f: nat, m: int)
    requires
        0 <= m <= ks.len(),
        forall|c1: int, c2: int|
            0 <= c1 < ks.len() && 0 <= c2 < ks.len() && c1 != c2 ==> #[trigger] below(
                flat,
                ks[c1],
                f,
            ).disjoint(#[trigger] below(flat, ks[c2], f)),
        forall|c: int|
            0 <= c < ks.len() ==> size(#[trigger] subtree(flat, ks[c], f)) == below(
                flat,
                ks[c],
                f,
            ).len() && infos(subtree(flat, ks[c], f)) == entries_in(
                flat,
                below(flat, ks[c], f),
                flat.len() as nat,
            ),
    ensures
        sizes(trees_at(flat, ks, f).subrange(0, m)) == below_any(flat, ks, f, m).len(),
        infos_all(trees_at(flat, ks, f).subrange(0, m)) == entries_in(
            flat,
            below_any(flat, ks, f, m),
            flat.len() as nat,
        ),
        below_any(flat, ks, f, m).finite(),
    decreases m,
{
    let ts = trees_at(flat, ks, f);
    if m == 0 {
        assert(below_any(flat, ks, f, m) =~= Set::<int>::empty());
        assert(ts.subrange(0, 0).len() == 0);
        lemma_entries_empty(flat, flat.len() as nat);
    } else {
        lemma_sizes_union(flat, ks, f, m - 1);
        let prev = below_any(flat, ks, f, m - 1);
        let last = below(flat, ks[m - 1], f);
        lemma_below_finite(flat, ks[m - 1], f);
        assert(below_any(flat, ks, f, m) =~= prev + last) by {
            assert forall|j: int| below_any(flat, ks, f, m).contains(j) implies (prev
                + last).contains(j) by {
                let c = choose|c: int| 0 <= c < m && #[trigger] below(flat, ks[c], f).contains(j);
                if c < m - 1 {
                    assert(prev.contains(j));
                }
            }
            assert forall|j: int| (prev + last).contains(j) implies below_any(
                flat,
                ks,
                f,
                m,
            ).contains(j) by {
                if last.contains(j) {
                    assert(below(flat, ks[m - 1], f).contains(j));
                } else {
                    let c = choose|c: int| 0 <= c < m - 1 && #[trigger] below(flat, ks[c], f).contains(j);
                    assert(below(flat, ks[c], f).contains(j));
                }
            }
        }
        assert(prev.disjoint(last)) by {
            assert forall|j: int| prev.contains(j) implies !last.contains(j) by {
                let c = choose|c: int| 0 <= c < m - 1 && #[trigger] below(flat, ks[c], f).contains(j);
                assert(below(flat, ks[c], f).disjoint(below(flat, ks[m - 1], f)));
            }
        }
        lemma_set_disjoint_lens(prev, last);
        lemma_entries_union(flat, prev, last, flat.len() as nat);
        assert(ts.subrange(0, m).subrange(0, m - 1) =~= ts.subrange(0, m - 1));
        assert(ts.subrange(0, m)[m - 1] == subtree(flat, ks[m - 1], f));
    }
}

/// The tree built below `i` holds exactly the entries at most `f` links
/// below it.
proof fn lemma_subtree_size(flat: Seq<DictNode>, i: int, f: nat)
    requires
        acyclic(flat),
        0 <= i < flat.len(),
    ensures
        size(subtree(flat, i, f)) == below(flat, i, f).len(),
        infos(subtree(flat, i, f)) == entries_in(flat, below(flat, i, f), flat.len() as nat),
        below(flat, i, f).finite(),
    decreases f,
{
    lemma_below_finite(flat, i, f);
    let t = subtree(flat, i, f);
    if f == 0 {
        assert(below(flat, i, f) =~= set![i]) by {
            assert(ancestor(flat, i, 0) == Some(i));
        }
        assert(t.children.len() == 0);
        assert(sizes(t.children) == 0);
        lemma_entries_single(flat, i, flat.len() as nat);
        assert(infos(t) =~= Multiset::singleton(info_of(flat[i])));
    } else {
        let n = flat.len();
        let ks = kids(flat, i);
        let g = (f - 1) as nat;
        lemma_kids_facts(flat, i, n as nat);
        assert forall|c: int| 0 <= c < ks.len() implies size(#[trigger] subtree(flat, ks[c], g))
            == below(flat, ks[c], g).len() && infos(subtree(flat, ks[c], g)) == entries_in(
            flat,
            below(flat, ks[c], g),
            flat.len() as nat,
        ) by {
            lemma_subtree_size(flat, ks[c], g);
        }
        assert forall|c1: int, c2: int|
            0 <= c1 < ks.len() && 0 <= c2 < ks.len() && c1 != c2 implies #[trigger] below(
            flat,
            ks[c1],
            g,
        ).disjoint(#[trigger] below(flat, ks[c2], g)) by {
            assert(ks[c1] != ks[c2]) by {
                if c1 < c2 {
                    assert(ks[c1] < ks[c2]);
                } else {
                    assert(ks[c2] < ks[c1]);
                }
            }
            assert forall|j: int| below(flat, ks[c1], g).contains(j) implies !below(
                flat,
                ks[c2],
                g,
            ).contains(j) by {
                lemma_siblings_apart(flat, i, ks[c1], ks[c2], g, j);
            }
        }
        lemma_sizes_union(flat, ks, g, ks.len() as int);
        let u = below_any(flat, ks, g, ks.len() as int);
        assert(trees_at(flat, ks, g).subrange(0, ks.len() as int) =~= t.children);
        assert(!u.contains(i)) by {
            if u.contains(i) {
                let c = choose|c: int| 0 <= c < ks.len() && #[trigger] below(flat, ks[c], g).contains(i);
                let d = choose|d: nat| d <= g && #[trigger] ancestor(flat, i, d) == Some(ks[c]);
                lemma_ancestor_compose(flat, i, d, 1);
                assert(ancestor(flat, ks[c], 1) == Some(i));
                lemma_no_self_ancestor(flat, i, d + 1);
            }
        }
        assert(below(flat, i, f) =~= u.insert(i)) by {
            assert forall|j: int| below(flat, i, f).contains(j) implies #[trigger] u.insert(i).contains(j) by {
                if j != i {
                    let d = choose|d: nat| d <= f && #[trigger] ancestor(flat, j, d) == Some(i);
                    assert(d != 0);
                    let e = (d - 1) as nat;
                    lemma_ancestor_compose(flat, j, e, 1);
                    let k = ancestor(flat, j, e)->0;
                    lemma_ancestor_in_range(flat, j, e);
                    assert(ancestor(flat, k, 1) == Some(i));
                    lemma_ancestor_one(flat, k);
                    lemma_parent_in_range(flat, k);
                    assert(parent_of(flat, k) == Some(i));
                    assert(ks.contains(k));
                    let c = choose|c: int| 0 <= c < ks.len() && ks[c] == k;
                    assert(below(flat, ks[c], g).contains(j));
                }
            }
            assert forall|j: int| #[trigger] u.insert(i).contains(j) implies below(flat, i, f).contains(j) by {
                if j == i {
                    assert(ancestor(flat, i, 0) == Some(i));
                } else {
                    let c = choose|c: int| 0 <= c < ks.len() && #[trigger] below(flat, ks[c], g).contains(j);
                    let d = choose|d: nat| d <= g && #[trigger] ancestor(flat, j, d) == Some(ks[c]);
                    lemma_ancestor_compose(flat, j, d, 1);
                    assert(ancestor(flat, ks[c], 1) == Some(i));
                    assert(ancestor(flat, j, d + 1) == Some(i));
                }
            }
        }
        lemma_entries_single(flat, i, n as nat);
        assert(u.disjoint(set![i]));
        assert(u.insert(i) =~= u + set![i]);
        lemma_entries_union(flat, u, set![i], n as nat);
        assert(infos(t) =~= entries_in(flat, below(flat, i, f), n as nat));
    }
}

/// Building a list without cycles keeps every entry exactly once: the forest
/// holds as many entries as the list.
pub proof fn law_build_keeps_count(flat: Seq<DictNode>)
    requires
        acyclic(flat),
    ensures
        sizes(forest(flat)) == flat.len(),
{
    lemma_forest_whole(flat);
}

} // verus!

verus! {

/// Building a list without cycles keeps its entries: the forest holds each
/// entry of the list as many times as the list does, and nothing else.
pub proof fn law_build_keeps_entries(flat: Seq<DictNode>)
    requires
        acyclic(flat),
    ensures
        infos_all(forest(flat)) == list_entries(flat),
{
    lemma_forest_whole(flat);
}

proof fn lemma_forest_whole(flat: Seq<DictNode>)
    requires
        acyclic(flat),
    ensures
        sizes(forest(flat)) == flat.len(),
        infos_all(forest(flat)) == list_entries(flat),
{
    let n = flat.len();
    let rs = roots(flat);
    lemma_roots_facts(flat, n as nat);
    assert forall|c: int| 0 <= c < rs.len() implies size(#[trigger] subtree(flat, rs[c], n as nat))
        == below(flat, rs[c], n as nat).len() && infos(subtree(flat, rs[c], n as nat)) == entries_in(
        flat,
        below(flat, rs[c], n as nat),
        n as nat,
    ) by {
        lemma_subtree_size(flat, rs[c], n as nat);
    }
    assert forall|c1: int, c2: int|
        0 <= c1 < rs.len() && 0 <= c2 < rs.len() && c1 != c2 implies #[trigger] below(
        flat,
        rs[c1],
        n as nat,
    ).disjoint(#[trigger] below(flat, rs[c2], n as nat)) by {
        assert(rs[c1] != rs[c2]) by {
            if c1 < c2 {
                assert(rs[c1] < rs[c2]);
            } else {
                assert(rs[c2] < rs[c1]);
            }
        }
        assert forall|j: int| below(flat, rs[c1], n as nat).contains(j) implies !below(
            flat,
            rs[c2],
            n as nat,
        ).contains(j) by {
            lemma_roots_apart(flat, rs[c1], rs[c2], n as nat, j);
        }
    }
    lemma_sizes_union(flat, rs, n as nat, rs.len() as int);
    let u = below_any(flat, rs, n as nat, rs.len() as int);
    assert(trees_at(flat, rs, n as nat).subrange(0, rs.len() as int) =~= forest(flat));
    assert(u =~= set_int_range(0, n as int)) by {
        assert forall|j: int| #[trigger] set_int_range(0, n as int).contains(j) implies u.contains(j) by {
            assert(reaches_root(flat, j, n as nat));
            let (t, r) = lemma_reach_root(flat, j, n as nat);
            assert(rs.contains(r));
            let c = choose|c: int| 0 <= c < rs.len() && rs[c] == r;
            assert(below(flat, rs[c], n as nat).contains(j));
        }
        assert forall|j: int| u.contains(j) implies #[trigger] set_int_range(0, n as int).contains(j) by {
            let c = choose|c: int| 0 <= c < rs.len() && #[trigger] below(flat, rs[c], n as nat).contains(j);
        }
    }
    lemma_entries_all(flat, n as nat);
    assert(flat.subrange(0, n as int) =~= flat);
    lemma_int_range(0, n as int);
}

} // verus!
