use vstd::prelude::*;

verus! {

/// A two-valued flag used for the `public` and `status` columns.
#[derive(Debug, Clone, Copy, PartialEq, Eq, Structural)]
pub enum YesNo {
    Yes,
    No,
}

/// One configuration entry as the management server lists it.
#[derive(Debug, Clone, PartialEq, Eq)]
pub struct ConfigItem {
    pub id: i32,
    pub app_id: String,
    pub app_version: Option<String>,
    pub var_name: String,
    pub var_value: String,
    pub public: YesNo,
    pub remark: Option<String>,
    pub status: YesNo,
    pub created: i64,
    pub updated: Option<i64>,
}

/// One item of a dictionary as the management server lists it.
#[derive(Debug, Clone, PartialEq, Eq)]
pub struct DictItem {
    pub id: i32,
    pub dict_code: String,
    pub item_name: String,
    pub item_value: String,
    pub public: YesNo,
    pub remark: Option<String>,
    pub status: YesNo,
    pub created: i64,
    pub updated: Option<i64>,
}

/// One dictionary entry. `children` is filled by the tree builder; the flat
/// list handed out by the management API leaves it empty.
#[derive(Debug)]
pub struct DictNode {
    pub code: String,
    pub name: String,
    pub parent_code: Option<String>,
    pub public: YesNo,
    pub status: YesNo,
    pub remark: Option<String>,
    pub created: i64,
    pub updated: Option<i64>,
    pub children: Vec<DictNode>,
}

/// The scalar part of a dictionary entry, as mathematical values.
pub struct DictInfo {
    pub code: Seq<char>,
    pub name: Seq<char>,
    pub parent_code: Option<Seq<char>>,
    pub public: YesNo,
    pub status: YesNo,
    pub remark: Option<Seq<char>>,
    pub created: i64,
    pub updated: Option<i64>,
}

/// A dictionary entry together with its subtree.
pub struct DictTree {
    pub info: DictInfo,
    pub children: Seq<DictTree>,
}

pub open spec fn opt_view(o: Option<String>) -> Option<Seq<char>> {
    match o {
        Some(s) => Some(s@),
        None => None,
    }
}

pub open spec fn info_of(n: DictNode) -> DictInfo {
    DictInfo {
        code: n.code@,
        name: n.name@,
        parent_code: opt_view(n.parent_code),
        public: n.public,
        status: n.status,
        remark: opt_view(n.remark),
        created: n.created,
        updated: n.updated,
    }
}

/// The tree that a node stands for, children included.
pub open spec fn tree_of(n: DictNode) -> DictTree
    decreases n,
{
    DictTree {
        info: info_of(n),
        children: Seq::new(
            n.children@.len(),
            |i: int|
                if 0 <= i < n.children@.len() {
                    tree_of(n.children@[i])
                } else {
                    DictTree { info: info_of(n), children: Seq::empty() }
                },
        ),
    }
}

pub open spec fn forest_of(s: Seq<DictNode>) -> Seq<DictTree> {
    Seq::new(s.len(), |i: int| tree_of(s[i]))
}

pub fn clone_opt_string(o: &Option<String>) -> (r: Option<String>)
    ensures
        opt_view(r) == opt_view(*o),
{
    match o {
        Some(s) => Some(s.clone()),
        None => None,
    }
}

} // verus!
