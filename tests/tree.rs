use tower_management::model::{DictNode, YesNo};
use tower_management::tree::{build_tree, dicts_answer, replace_node, DictState};

fn node(code: &str, parent: Option<&str>) -> DictNode {
    DictNode {
        code: code.to_string(),
        name: format!("name-{}", code),
        parent_code: parent.map(|p| p.to_string()),
        public: YesNo::Yes,
        status: YesNo::Yes,
        remark: None,
        created: 100,
        updated: None,
        children: vec![],
    }
}

fn count(forest: &[DictNode]) -> usize {
    forest.iter().map(|n| 1 + count(&n.children)).sum()
}

fn codes(forest: &[DictNode]) -> Vec<String> {
    forest.iter().map(|n| n.code.clone()).collect()
}

fn all_children_point_up(forest: &[DictNode]) -> bool {
    forest.iter().all(|n| {
        n.children.iter().all(|c| c.parent_code.as_deref() == Some(n.code.as_str()))
            && all_children_point_up(&n.children)
    })
}

#[test]
fn build_tree_keeps_every_node_and_links_children() {
    let flat = vec![
        node("c", Some("a")),
        node("a", None),
        node("b", Some("a")),
        node("d", Some("c")),
        node("e", None),
    ];
    let forest = build_tree(&flat);
    assert_eq!(count(&forest), flat.len());
    assert!(all_children_point_up(&forest));
    assert_eq!(codes(&forest), vec!["a", "e"]);
    assert_eq!(codes(&forest[0].children), vec!["c", "b"]);
    assert_eq!(codes(&forest[0].children[0].children), vec!["d"]);
    assert!(forest[1].children.is_empty());
}

#[test]
fn build_tree_of_empty_list_is_empty() {
    let forest = build_tree(&vec![]);
    assert!(forest.is_empty());
}

#[test]
fn build_tree_without_parents_gives_flat_roots_in_order() {
    let flat = vec![node("z", None), node("y", None), node("x", None)];
    let forest = build_tree(&flat);
    assert_eq!(codes(&forest), vec!["z", "y", "x"]);
    assert!(forest.iter().all(|n| n.children.is_empty()));
    assert_eq!(forest[1].name, "name-y");
}

#[test]
fn build_tree_treats_unknown_parent_as_root() {
    let flat = vec![node("a", Some("missing")), node("b", Some("a"))];
    let forest = build_tree(&flat);
    assert_eq!(codes(&forest), vec!["a"]);
    assert_eq!(codes(&forest[0].children), vec!["b"]);
    assert_eq!(count(&forest), 2);
}

#[test]
fn build_tree_puts_children_under_first_of_equal_codes() {
    let flat = vec![node("a", None), node("a", None), node("k", Some("a"))];
    let forest = build_tree(&flat);
    assert_eq!(codes(&forest), vec!["a", "a"]);
    assert_eq!(codes(&forest[0].children), vec!["k"]);
    assert!(forest[1].children.is_empty());
}

#[test]
fn build_tree_drops_entries_on_a_parent_cycle() {
    let flat = vec![node("a", Some("b")), node("b", Some("a")), node("r", None)];
    let forest = build_tree(&flat);
    assert_eq!(codes(&forest), vec!["r"]);
}

#[test]
fn replace_node_patches_nested_match_and_keeps_shape() {
    let flat = vec![
        node("a", None),
        node("b", Some("a")),
        node("c", Some("b")),
        node("d", None),
    ];
    let forest = build_tree(&flat);
    let mut updated = node("b", Some("a"));
    updated.name = "renamed".to_string();
    updated.status = YesNo::No;
    updated.remark = Some("note".to_string());
    updated.created = 999;
    let out = replace_node(&forest, &updated);
    assert_eq!(codes(&out), vec!["a", "d"]);
    let b = &out[0].children[0];
    assert_eq!(b.code, "b");
    assert_eq!(b.name, "renamed");
    assert_eq!(b.status, YesNo::No);
    assert_eq!(b.remark.as_deref(), Some("note"));
    assert_eq!(b.created, 100);
    assert_eq!(codes(&b.children), vec!["c"]);
    assert_eq!(out[0].name, "name-a");
    assert_eq!(out[1].name, "name-d");
}

#[test]
fn replace_node_without_match_returns_same_forest() {
    let flat = vec![node("a", None), node("b", Some("a"))];
    let forest = build_tree(&flat);
    let mut updated = node("zz", None);
    updated.name = "other".to_string();
    let out = replace_node(&forest, &updated);
    assert_eq!(codes(&out), codes(&forest));
    assert_eq!(out[0].name, forest[0].name);
    assert_eq!(codes(&out[0].children), vec!["b"]);
    assert_eq!(out[0].children[0].name, "name-b");
}

#[test]
fn dicts_answer_builds_forest_or_passes_error() {
    let ok = dicts_answer(Ok(vec![node("a", None), node("b", Some("a"))])).unwrap();
    assert_eq!(codes(&ok), vec!["a"]);
    assert_eq!(codes(&ok[0].children), vec!["b"]);
    let err = dicts_answer(Err("boom".to_string()));
    assert_eq!(err.unwrap_err(), "boom");
}

#[test]
fn dict_state_tracks_dialogs() {
    let mut state = DictState::new();
    assert!(state.current_dict.is_none());
    assert!(!state.shows_update());
    state.select("a".to_string());
    state.start_add(Some("a".to_string()));
    assert!(state.open_add_dict);
    assert_eq!(state.target_dict.as_deref(), Some("a"));
    state.start_update("b".to_string());
    assert!(state.shows_update());
    assert_eq!(state.current_dict.as_deref(), Some("a"));
}

fn all_codes(forest: &[DictNode], out: &mut Vec<String>) {
    for n in forest {
        out.push(n.code.clone());
        all_codes(&n.children, out);
    }
}

#[test]
fn build_tree_keeps_each_entry_as_often_as_listed() {
    let flat = vec![
        node("b", Some("a")),
        node("a", None),
        node("x", None),
        node("x", None),
        node("c", Some("x")),
        node("d", Some("b")),
    ];
    let forest = build_tree(&flat);
    let mut got = vec![];
    all_codes(&forest, &mut got);
    got.sort();
    let mut want: Vec<String> = flat.iter().map(|n| n.code.clone()).collect();
    want.sort();
    assert_eq!(got, want);
}
