use vstd::prelude::*;

use crate::model::{clone_opt_string, forest_of, info_of, tree_of, DictInfo, DictNode, DictTree};

verus! {

broadcast use vstd::std_specs::vec::axiom_vec_index_decreases;

// ---------------------------------------------------------------------------
// What the tree builder computes
// ---------------------------------------------------------------------------

/// The first position at or after `k` whose node carries `code`.
pub open spec fn find_code(flat: Seq<DictNode>, code: Seq<char>, k: int) -> Option<int>
    decreases flat.len() - k,
{
    if 0 <= k < flat.len() {
        if flat[k].code@ == code {
            Some(k)
        } else {
            find_code(flat, code, k + 1)
        }
    } else {
        None
    }
}

/// The position of the parent of node `i`: the first node whose code is the
/// declared parent code. `None` for a root-level entry and for a parent code
/// that nothing in the list carries.
pub open spec fn parent_of(flat: Seq<DictNode>, i: int) -> Option<int> {
    match flat[i].parent_code {
        Some(p) => find_code(flat, p@, 0),
        None => None,
    }
}

/// Positions below `k` whose parent is `i`, in list order.
pub open spec fn kids_upto(flat: Seq<DictNode>, i: int, k: nat) -> Seq<int>
    decreases k,
{
    if k == 0 {
        Seq::empty()
    } else {
        let prev = kids_upto(flat, i, (k - 1) as nat);
        if parent_of(flat, k - 1) == Some(i) {
            prev.push(k - 1)
        } else {
            prev
        }
    }
}

pub open spec fn kids(flat: Seq<DictNode>, i: int) -> Seq<int> {
    kids_upto(flat, i, flat.len())
}

/// Positions below `k` without a parent, in list order.
pub open spec fn roots_upto(flat: Seq<DictNode>, k: nat) -> Seq<int>
    decreases k,
{
    if k == 0 {
        Seq::empty()
    } else {
        let prev = roots_upto(flat, (k - 1) as nat);
        if parent_of(flat, k - 1) is None {
            prev.push(k - 1)
        } else {
            prev
        }
    }
}

pub open spec fn roots(flat: Seq<DictNode>) -> Seq<int> {
    roots_upto(flat, flat.len())
}

/// The tree below node `i`, down to `depth` levels.
pub open spec fn subtree(flat: Seq<DictNode>, i: int, depth: nat) -> DictTree
    decreases depth,
{
    DictTree {
        info: info_of(flat[i]),
        children: if depth == 0 {
            Seq::empty()
        } else {
            Seq::new(
                kids(flat, i).len(),
                |c: int| subtree(flat, kids(flat, i)[c], (depth - 1) as nat),
            )
        },
    }
}

/// The forest built from a flat list: one tree per root, in list order.
/// A list of `n` entries without cycles has no branch deeper than `n`.
pub open spec fn forest(flat: Seq<DictNode>) -> Seq<DictTree> {
    Seq::new(roots(flat).len(), |r: int| subtree(flat, roots(flat)[r], flat.len()))
}

pub open spec fn as_ints(s: Seq<usize>) -> Seq<int> {
    s.map_values(|x: usize| x as int)
}

pub proof fn lemma_kids_in_range(flat: Seq<DictNode>, i: int, k: nat)
    ensures
        forall|c: int|
            0 <= c < kids_upto(flat, i, k).len() ==> 0 <= #[trigger] kids_upto(flat, i, k)[c] < k,
    decreases k,
{
    if k > 0 {
        let prev = kids_upto(flat, i, (k - 1) as nat);
        lemma_kids_in_range(flat, i, (k - 1) as nat);
        assert forall|c: int| 0 <= c < kids_upto(flat, i, k).len() implies 0
            <= #[trigger] kids_upto(flat, i, k)[c] < k by {
            if c < prev.len() {
                assert(kids_upto(flat, i, k)[c] == prev[c]);
            }
        }
    }
}

pub proof fn lemma_roots_in_range(flat: Seq<DictNode>, k: nat)
    ensures
        forall|c: int| 0 <= c < roots_upto(flat, k).len() ==> 0 <= #[trigger] roots_upto(flat, k)[c] < k,
    decreases k,
{
    if k > 0 {
        let prev = roots_upto(flat, (k - 1) as nat);
        lemma_roots_in_range(flat, (k - 1) as nat);
        assert forall|c: int| 0 <= c < roots_upto(flat, k).len() implies 0
            <= #[trigger] roots_upto(flat, k)[c] < k by {
            if c < prev.len() {
                assert(roots_upto(flat, k)[c] == prev[c]);
            }
        }
    }
}

// ---------------------------------------------------------------------------
// The tree builder
// ---------------------------------------------------------------------------

fn find_code_exec(flat: &Vec<DictNode>, code: &String) -> (r: Option<usize>)
    ensures
        match r {
            Some(k) => find_code(flat@, code@, 0) == Some(k as int),
            None => find_code(flat@, code@, 0) is None,
        },
{
    let mut k: usize = 0;
    while k < flat.len()
        invariant
            k <= flat.len(),
            find_code(flat@, code@, 0) == find_code(flat@, code@, k as int),
        decreases flat.len() - k,
    {
        if flat[k].code == *code {
            return Some(k);
        }
        k = k + 1;
    }
    None
}

fn parent_positions(flat: &Vec<DictNode>) -> (r: Vec<Option<usize>>)
    ensures
        r.len() == flat.len(),
        forall|i: int|
            0 <= i < flat.len() ==> match #[trigger] r@[i] {
                Some(p) => parent_of(flat@, i) == Some(p as int),
                None => parent_of(flat@, i) is None,
            },
{
    let mut r: Vec<Option<usize>> = Vec::new();
    let mut i: usize = 0;
    while i < flat.len()
        invariant
            i <= flat.len(),
            r.len() == i,
            forall|j: int|
                0 <= j < i ==> match #[trigger] r@[j] {
                    Some(p) => parent_of(flat@, j) == Some(p as int),
                    None => parent_of(flat@, j) is None,
                },
        decreases flat.len() - i,
    {
        let p = match &flat[i].parent_code {
            Some(code) => find_code_exec(flat, code),
            None => None,
        };
        r.push(p);
        i = i + 1;
    }
    r
}

/// For each position, the positions of its children; and the root positions.
fn child_lists(flat: &Vec<DictNode>) -> (r: (Vec<Vec<usize>>, Vec<usize>))
    ensures
        r.0.len() == flat.len(),
        forall|i: int| 0 <= i < flat.len() ==> as_ints(#[trigger] r.0@[i]@) == kids(flat@, i),
        as_ints(r.1@) == roots(flat@),
{
    let parents = parent_positions(flat);
    let n: usize = flat.len();
    let mut lists: Vec<Vec<usize>> = Vec::new();
    let mut i: usize = 0;
    while i < n
        invariant
            n == flat.len(),
            i <= n,
            lists.len() == i,
            forall|c: int| 0 <= c < i ==> (#[trigger] lists@[c])@.len() == 0,
        decreases n - i,
    {
        lists.push(Vec::new());
        i = i + 1;
    }
    let mut root_list: Vec<usize> = Vec::new();
    let mut j: usize = 0;
    while j < n
        invariant
            n == flat.len(),
            parents.len() == n,
            j <= n,
            lists.len() == n,
            forall|c: int|
                0 <= c < n ==> match #[trigger] parents@[c] {
                    Some(p) => parent_of(flat@, c) == Some(p as int),
                    None => parent_of(flat@, c) is None,
                },
            forall|c: int| 0 <= c < n ==> as_ints(#[trigger] lists@[c]@) == kids_upto(flat@, c, j as nat),
            as_ints(root_list@) == roots_upto(flat@, j as nat),
        decreases n - j,
    {
        let ghost before = lists@;
        match parents[j] {
            Some(p) => {
                proof {
                    let pi = p as int;
                    assert(0 <= pi < n) by {
                        let code = flat@[j as int].parent_code->0@;
                        lemma_find_code_in_range(flat@, code, 0);
                    }
                }
                lists[p].push(j);
                proof {
                    assert forall|c: int| 0 <= c < n implies as_ints(#[trigger] lists@[c]@)
                        == kids_upto(flat@, c, (j + 1) as nat) by {
                        if c == p as int {
                            assert(as_ints(lists@[c]@) =~= as_ints(before[c]@).push(j as int));
                        } else {
                            assert(lists@[c] == before[c]);
                        }
                    }
                }
            },
            None => {
                root_list.push(j);
                proof {
                    assert(as_ints(root_list@) =~= roots_upto(flat@, j as nat).push(j as int));
                }
            },
        }
        j = j + 1;
    }
    (lists, root_list)
}

/// A copy of the scalar fields of `n`, with the given children.
fn with_children(n: &DictNode, children: Vec<DictNode>) -> (r: DictNode)
    ensures
        info_of(r) == info_of(*n),
        r.children == children,
{
    DictNode {
        code: n.code.clone(),
        name: n.name.clone(),
        parent_code: clone_opt_string(&n.parent_code),
        public: n.public,
        status: n.status,
        remark: clone_opt_string(&n.remark),
        created: n.created,
        updated: n.updated,
        children,
    }
}

fn build_subtree(flat: &Vec<DictNode>, lists: &Vec<Vec<usize>>, i: usize, depth: usize) -> (r:
    DictNode)
    requires
        i < flat.len(),
        lists.len() == flat.len(),
        forall|c: int| 0 <= c < flat.len() ==> as_ints(#[trigger] lists@[c]@) == kids(flat@, c),
    ensures
        tree_of(r) == subtree(flat@, i as int, depth as nat),
    decreases depth,
{
    let mut children: Vec<DictNode> = Vec::new();
    if depth > 0 {
        let below = &lists[i];
        let ghost ks = kids(flat@, i as int);
        proof {
            lemma_kids_in_range(flat@, i as int, flat.len() as nat);
            assert(as_ints(below@) == ks);
        }
        let mut c: usize = 0;
        while c < below.len()
            invariant
                i < flat.len(),
                lists.len() == flat.len(),
                forall|c: int| 0 <= c < flat.len() ==> as_ints(#[trigger] lists@[c]@) == kids(flat@, c),
                *below == lists@[i as int],
                ks == kids(flat@, i as int),
                as_ints(below@) == ks,
                forall|x: int| 0 <= x < ks.len() ==> 0 <= #[trigger] ks[x] < flat.len(),
                depth > 0,
                c <= below.len(),
                children.len() == c,
                forall|x: int|
                    0 <= x < c ==> tree_of(#[trigger] children@[x]) == subtree(
                        flat@,
                        ks[x],
                        (depth - 1) as nat,
                    ),
            decreases below.len() - c,
        {
            assert(ks[c as int] == below@[c as int] as int);
            let t = build_subtree(flat, lists, below[c], depth - 1);
            children.push(t);
            c = c + 1;
        }
    }
    let r = with_children(&flat[i], children);
    proof {
        assert(tree_of(r).children =~= subtree(flat@, i as int, depth as nat).children);
    }
    r
}

/// Builds the dictionary forest from a flat list of entries: each entry is
/// placed under the first entry whose code is its parent code; an entry
/// without a parent code, or whose parent code nothing in the list carries,
/// becomes a root. Roots and children keep the order of the list. The
/// children that the input entries carry are not looked at.
pub fn build_tree(flat: &Vec<DictNode>) -> (r: Vec<DictNode>)
    ensures
        forest_of(r@) == forest(flat@),
{
    let (lists, root_list) = child_lists(flat);
    let mut out: Vec<DictNode> = Vec::new();
    let ghost rs = roots(flat@);
    proof {
        lemma_roots_in_range(flat@, flat.len() as nat);
    }
    let mut k: usize = 0;
    while k < root_list.len()
        invariant
            lists.len() == flat.len(),
            forall|c: int| 0 <= c < flat.len() ==> as_ints(#[trigger] lists@[c]@) == kids(flat@, c),
            rs == roots(flat@),
            as_ints(root_list@) == rs,
            forall|x: int| 0 <= x < rs.len() ==> 0 <= #[trigger] rs[x] < flat.len(),
            k <= root_list.len(),
            out.len() == k,
            forall|x: int|
                0 <= x < k ==> tree_of(#[trigger] out@[x]) == subtree(
                    flat@,
                    rs[x],
                    flat.len() as nat,
                ),
        decreases root_list.len() - k,
    {
        assert(rs[k as int] == root_list@[k as int] as int);
        let t = build_subtree(flat, &lists, root_list[k], flat.len());
        out.push(t);
        k = k + 1;
    }
    proof {
        assert(forest_of(out@) =~= forest(flat@));
    }
    out
}

pub proof fn lemma_find_code_in_range(flat: Seq<DictNode>, code: Seq<char>, k: int)
    ensures
        match find_code(flat, code, k) {
            Some(p) => k <= p < flat.len() && flat[p].code@ == code,
            None => true,
        },
    decreases flat.len() - k,
{
    if 0 <= k < flat.len() && flat[k].code@ != code {
        lemma_find_code_in_range(flat, code, k + 1);
    }
}

} // verus!

verus! {

// ---------------------------------------------------------------------------
// Posting one updated entry back into a forest
// ---------------------------------------------------------------------------

/// `old` with the editable fields of `u`; the code and the timestamps stay.
pub open spec fn patched(old: DictInfo, u: DictInfo) -> DictInfo {
    DictInfo {
        name: u.name,
        parent_code: u.parent_code,
        public: u.public,
        status: u.status,
        remark: u.remark,
        ..old
    }
}

/// `t` with every entry whose code is `u.code` patched from `u`.
pub open spec fn replace_in_tree(t: DictTree, u: DictInfo) -> DictTree
    decreases t,
{
    DictTree {
        info: if t.info.code == u.code {
            patched(t.info, u)
        } else {
            t.info
        },
        children: Seq::new(
            t.children.len(),
            |i: int|
                if 0 <= i < t.children.len() {
                    replace_in_tree(t.children[i], u)
                } else {
                    t
                },
        ),
    }
}

pub open spec fn replace_in_forest(f: Seq<DictTree>, u: DictInfo) -> Seq<DictTree> {
    Seq::new(f.len(), |i: int| replace_in_tree(f[i], u))
}

fn replace_in(node: &DictNode, updated: &DictNode) -> (r: DictNode)
    ensures
        tree_of(r) == replace_in_tree(tree_of(*node), info_of(*updated)),
    decreases node,
{
    let mut children: Vec<DictNode> = Vec::new();
    let mut c: usize = 0;
    while c < node.children.len()
        invariant
            c <= node.children.len(),
            children.len() == c,
            forall|x: int|
                0 <= x < c ==> tree_of(#[trigger] children@[x]) == replace_in_tree(
                    tree_of(node.children@[x]),
                    info_of(*updated),
                ),
        decreases node.children.len() - c,
    {
        let t = replace_in(&node.children[c], updated);
        children.push(t);
        c = c + 1;
    }
    let r = if node.code == updated.code {
        DictNode {
            code: node.code.clone(),
            name: updated.name.clone(),
            parent_code: clone_opt_string(&updated.parent_code),
            public: updated.public,
            status: updated.status,
            remark: clone_opt_string(&updated.remark),
            created: node.created,
            updated: node.updated,
            children,
        }
    } else {
        with_children(node, children)
    };
    proof {
        assert(tree_of(r).children =~= replace_in_tree(tree_of(*node), info_of(*updated)).children);
    }
    r
}

/// The forest with each entry whose code is `updated.code` given the name,
/// parent code, flags and remark of `updated`. Children, the order of
/// siblings and of roots, and every other entry stay as they were; where no
/// entry matches, the forest comes back unchanged.
pub fn replace_node(forest: &Vec<DictNode>, updated: &DictNode) -> (r: Vec<DictNode>)
    ensures
        forest_of(r@) == replace_in_forest(forest_of(forest@), info_of(*updated)),
{
    let mut out: Vec<DictNode> = Vec::new();
    let mut k: usize = 0;
    while k < forest.len()
        invariant
            k <= forest.len(),
            out.len() == k,
            forall|x: int|
                0 <= x < k ==> tree_of(#[trigger] out@[x]) == replace_in_tree(
                    tree_of(forest@[x]),
                    info_of(*updated),
                ),
        decreases forest.len() - k,
    {
        let t = replace_in(&forest[k], updated);
        out.push(t);
        k = k + 1;
    }
    proof {
        assert(forest_of(out@) =~= replace_in_forest(forest_of(forest@), info_of(*updated)));
    }
    out
}

// ---------------------------------------------------------------------------
// The dictionary pane
// ---------------------------------------------------------------------------

/// The answer to the dictionary fetch, as the menu shows it: the list built
/// into a forest, or the failure's text as it came.
pub fn dicts_answer(answer: Result<Vec<DictNode>, String>) -> (r: Result<Vec<DictNode>, String>)
    ensures
        match answer {
            Ok(flat) => r matches Ok(f) && forest_of(f@) == forest(flat@),
            Err(e) => r == Err::<Vec<DictNode>, String>(e),
        },
{
    match answer {
        Ok(flat) => Ok(build_tree(&flat)),
        Err(e) => Err(e),
    }
}

/// What the dictionary pane tracks: the entry whose items the table shows,
/// the entry a dialog adds under or edits, and which dialog is open. Entries
/// are named by their code.
#[derive(Debug, Clone, PartialEq, Eq)]
pub struct DictState {
    pub current_dict: Option<String>,
    pub open_add_dict: bool,
    pub open_update_dict: bool,
    pub target_dict: Option<String>,
}

impl DictState {
    pub fn new() -> (r: DictState)
        ensures
            r.current_dict is None,
            !r.open_add_dict,
            !r.open_update_dict,
            r.target_dict is None,
    {
        DictState {
            current_dict: None,
            open_add_dict: false,
            open_update_dict: false,
            target_dict: None,
        }
    }

    /// Shows the items of the entry `code`.
    pub fn select(&mut self, code: String)
        ensures
            final(self).current_dict == Some(code),
            final(self).open_add_dict == old(self).open_add_dict,
            final(self).open_update_dict == old(self).open_update_dict,
            final(self).target_dict == old(self).target_dict,
    {
        self.current_dict = Some(code);
    }

    /// Opens the dialog that adds an entry under `parent`, or at the top level.
    pub fn start_add(&mut self, parent: Option<String>)
        ensures
            final(self).target_dict == parent,
            final(self).open_add_dict,
            final(self).open_update_dict == old(self).open_update_dict,
            final(self).current_dict == old(self).current_dict,
    {
        self.target_dict = parent;
        self.open_add_dict = true;
    }

    /// Opens the dialog that edits the entry `code`.
    pub fn start_update(&mut self, code: String)
        ensures
            final(self).target_dict == Some(code),
            final(self).open_update_dict,
            final(self).open_add_dict == old(self).open_add_dict,
            final(self).current_dict == old(self).current_dict,
    {
        self.target_dict = Some(code);
        self.open_update_dict = true;
    }

    /// Whether the edit dialog shows: it needs an entry to edit.
    pub fn shows_update(&self) -> (r: bool)
        ensures
            r == (self.target_dict is Some && self.open_update_dict),
    {
        self.target_dict.is_some() && self.open_update_dict
    }
}

} // verus!
