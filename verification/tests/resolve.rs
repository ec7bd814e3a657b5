use brdb::tables::{BrFile, BrFolder};
use brdb_inspect::node::{Directory, VirtualNode};
use brdb_inspect::traverse::{traverse, TraverseError};

fn file_node(name: &str) -> VirtualNode {
    VirtualNode::File(BrFile { name: name.to_string(), ..BrFile::default() })
}

fn folder_node(name: &str, children: Directory) -> VirtualNode {
    VirtualNode::Folder(BrFolder { name: name.to_string(), ..BrFolder::default() }, children)
}

/// Root{ "a": Folder{ "b.json": File, "sub": Folder{ "c.mps": File } }, "top.schema": File }
fn sample_tree() -> VirtualNode {
    let mut sub = Directory::new();
    sub.insert("c.mps".to_string(), file_node("c.mps"));
    let mut a = Directory::new();
    a.insert("b.json".to_string(), file_node("b.json"));
    a.insert("sub".to_string(), folder_node("sub", sub));
    let mut root = Directory::new();
    root.insert("a".to_string(), folder_node("a", a));
    root.insert("top.schema".to_string(), file_node("top.schema"));
    VirtualNode::Root(root)
}

fn folder_name(node: &VirtualNode) -> String {
    match node {
        VirtualNode::Folder(meta, _) => meta.name.clone(),
        _ => panic!("not a folder: {:?}", node),
    }
}

fn file_name(node: &VirtualNode) -> String {
    match node {
        VirtualNode::File(meta) => meta.name.clone(),
        _ => panic!("not a file: {:?}", node),
    }
}

#[test]
fn resolves_a_child_folder() {
    let root = sample_tree();
    let node = traverse(&root, "a").unwrap();
    assert_eq!(folder_name(node), "a");
}

#[test]
fn resolves_a_nested_file() {
    let root = sample_tree();
    assert_eq!(file_name(traverse(&root, "a/b.json").unwrap()), "b.json");
    assert_eq!(file_name(traverse(&root, "a/sub/c.mps").unwrap()), "c.mps");
    assert_eq!(file_name(traverse(&root, "top.schema").unwrap()), "top.schema");
}

#[test]
fn resolved_node_is_borrowed_from_the_tree() {
    let root = sample_tree();
    let expected = match &root {
        VirtualNode::Root(dir) => dir.get("a").unwrap(),
        _ => unreachable!(),
    };
    let node = traverse(&root, "a").unwrap();
    assert!(std::ptr::eq(node, expected));
}

#[test]
fn dot_stays_in_place() {
    let root = sample_tree();
    assert!(std::ptr::eq(traverse(&root, ".").unwrap(), &root));
    assert!(std::ptr::eq(traverse(&root, "./.").unwrap(), &root));
    assert_eq!(folder_name(traverse(&root, "./a/.").unwrap()), "a");
}

#[test]
fn dot_dot_steps_back_to_the_parent() {
    let root = sample_tree();
    assert!(std::ptr::eq(traverse(&root, "a/..").unwrap(), &root));
    assert_eq!(folder_name(traverse(&root, "a/sub/..").unwrap()), "a");
    assert_eq!(file_name(traverse(&root, "a/sub/../b.json").unwrap()), "b.json");
    assert_eq!(folder_name(traverse(&root, "a/b.json/..").unwrap()), "a");
    assert_eq!(file_name(traverse(&root, "a/./sub/../../a/sub/./c.mps").unwrap()), "c.mps");
}

#[test]
fn dot_dot_from_the_root_fails() {
    let root = VirtualNode::Root(Directory::new());
    assert_eq!(traverse(&root, "..").unwrap_err(), TraverseError::NoParentOfRoot);
    let root = sample_tree();
    assert_eq!(traverse(&root, "..").unwrap_err(), TraverseError::NoParentOfRoot);
}

#[test]
fn nothing_resolves_once_above_the_root() {
    let root = sample_tree();
    assert_eq!(traverse(&root, "../a").unwrap_err(), TraverseError::NoParentOfRoot);
    assert_eq!(traverse(&root, "../.").unwrap_err(), TraverseError::NoParentOfRoot);
    assert_eq!(traverse(&root, "../..").unwrap_err(), TraverseError::NoParentOfRoot);
    assert_eq!(traverse(&root, "a/../..").unwrap_err(), TraverseError::NoParentOfRoot);
    assert_eq!(traverse(&root, "a/../../a").unwrap_err(), TraverseError::NoParentOfRoot);
}

#[test]
fn descending_into_a_file_fails() {
    let root = sample_tree();
    assert_eq!(traverse(&root, "a/b.json/c").unwrap_err(), TraverseError::TraverseIntoFile);
}

#[test]
fn descending_into_a_file_fails_whatever_follows() {
    let root = sample_tree();
    for rest in ["c", "", "sub", "b.json", "c/..", "c/../..", "x/y/z", "./c", "././c"] {
        let path = format!("a/b.json/{rest}");
        assert_eq!(traverse(&root, &path).unwrap_err(), TraverseError::TraverseIntoFile);
    }
}

#[test]
fn dots_below_a_file_do_not_descend() {
    let root = sample_tree();
    assert_eq!(file_name(traverse(&root, "a/b.json/.").unwrap()), "b.json");
    assert_eq!(folder_name(traverse(&root, "a/b.json/..").unwrap()), "a");
    assert_eq!(file_name(traverse(&root, "a/b.json/../sub/c.mps").unwrap()), "c.mps");
}

#[test]
fn unknown_name_is_reported() {
    let root = sample_tree();
    assert_eq!(
        traverse(&root, "ghost").unwrap_err(),
        TraverseError::NotFound("ghost".to_string())
    );
    assert_eq!(
        traverse(&root, "a/ghost").unwrap_err(),
        TraverseError::NotFound("ghost".to_string())
    );
}

#[test]
fn first_unknown_name_wins_over_later_segments() {
    let root = sample_tree();
    assert_eq!(
        traverse(&root, "a/ghost/../b.json").unwrap_err(),
        TraverseError::NotFound("ghost".to_string())
    );
    assert_eq!(
        traverse(&root, "ghost/a/b.json").unwrap_err(),
        TraverseError::NotFound("ghost".to_string())
    );
    assert_eq!(
        traverse(&root, "a/ghost/other").unwrap_err(),
        TraverseError::NotFound("ghost".to_string())
    );
    assert_eq!(
        traverse(&root, "a/ghost/../../..").unwrap_err(),
        TraverseError::NotFound("ghost".to_string())
    );
}

#[test]
fn empty_segments_are_names() {
    let root = sample_tree();
    assert_eq!(traverse(&root, "").unwrap_err(), TraverseError::NotFound(String::new()));
    assert_eq!(traverse(&root, "a/").unwrap_err(), TraverseError::NotFound(String::new()));
    assert_eq!(traverse(&root, "/a").unwrap_err(), TraverseError::NotFound(String::new()));
    assert_eq!(traverse(&root, "a//sub").unwrap_err(), TraverseError::NotFound(String::new()));
}

#[test]
fn empty_name_resolves_where_a_child_has_it() {
    let mut dir = Directory::new();
    dir.insert(String::new(), file_node(""));
    let root = VirtualNode::Root(dir);
    assert_eq!(file_name(traverse(&root, "").unwrap()), "");
}

#[test]
fn names_are_matched_exactly() {
    let root = sample_tree();
    assert_eq!(traverse(&root, "A").unwrap_err(), TraverseError::NotFound("A".to_string()));
    assert_eq!(traverse(&root, "a ").unwrap_err(), TraverseError::NotFound("a ".to_string()));
    assert_eq!(traverse(&root, "...").unwrap_err(), TraverseError::NotFound("...".to_string()));
    assert_eq!(
        traverse(&root, "a/b.jso").unwrap_err(),
        TraverseError::NotFound("b.jso".to_string())
    );
}

#[test]
fn names_beyond_ascii_resolve() {
    let mut inner = Directory::new();
    inner.insert("数据.json".to_string(), file_node("数据.json"));
    let mut dir = Directory::new();
    dir.insert("é".to_string(), folder_node("é", inner));
    let root = VirtualNode::Root(dir);
    assert_eq!(file_name(traverse(&root, "é/数据.json").unwrap()), "数据.json");
    assert_eq!(
        traverse(&root, "e/数据.json").unwrap_err(),
        TraverseError::NotFound("e".to_string())
    );
}

#[test]
fn traversal_may_start_at_a_folder_or_a_file() {
    let root = sample_tree();
    let a = traverse(&root, "a").unwrap();
    assert_eq!(file_name(traverse(a, "sub/c.mps").unwrap()), "c.mps");
    assert_eq!(traverse(a, "..").unwrap_err(), TraverseError::NoParentOfRoot);
    let leaf = traverse(&root, "a/b.json").unwrap();
    assert!(std::ptr::eq(traverse(leaf, ".").unwrap(), leaf));
    assert_eq!(traverse(leaf, "x").unwrap_err(), TraverseError::TraverseIntoFile);
}

#[test]
fn traverse_error_messages() {
    assert_eq!(
        TraverseError::NoParentOfRoot.message(),
        "You tried to go above the root directory."
    );
    assert_eq!(
        TraverseError::NotFound("ghost".to_string()).message(),
        "cannot access 'ghost': No such file or directory."
    );
    assert_eq!(
        TraverseError::TraverseIntoFile.message(),
        "Tried to traverse into a file, not a folder."
    );
}

#[test]
fn directory_insert_appends_new_names() {
    let mut dir = Directory::new();
    assert_eq!(dir.len(), 0);
    assert!(dir.insert("b".to_string(), file_node("b")).is_none());
    assert!(dir.insert("a".to_string(), file_node("a")).is_none());
    assert!(dir.insert("c".to_string(), file_node("c")).is_none());
    assert_eq!(dir.len(), 3);
    assert_eq!(dir.keys(), vec!["b", "a", "c"]);
}

#[test]
fn directory_insert_replaces_in_place() {
    let mut dir = Directory::new();
    dir.insert("b".to_string(), file_node("first"));
    dir.insert("a".to_string(), file_node("a"));
    dir.insert("c".to_string(), file_node("c"));
    let replaced = dir.insert("b".to_string(), file_node("second")).unwrap();
    assert_eq!(file_name(&replaced), "first");
    assert_eq!(dir.len(), 3);
    assert_eq!(dir.keys(), vec!["b", "a", "c"]);
    assert_eq!(file_name(dir.get("b").unwrap()), "second");
    assert_eq!(file_name(dir.get("a").unwrap()), "a");
    assert_eq!(file_name(dir.get("c").unwrap()), "c");
    let last = dir.insert("c".to_string(), file_node("third")).unwrap();
    assert_eq!(file_name(&last), "c");
    assert_eq!(dir.keys(), vec!["b", "a", "c"]);
    assert_eq!(file_name(dir.get("c").unwrap()), "third");
}

#[test]
fn directory_get_misses_unknown_names() {
    let mut dir = Directory::new();
    assert!(dir.get("a").is_none());
    dir.insert("a".to_string(), file_node("a"));
    assert!(dir.get("a").is_some());
    assert!(dir.get("").is_none());
    assert!(dir.get("aa").is_none());
    assert!(dir.get("A").is_none());
}
