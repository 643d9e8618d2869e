use mediastore::file::{DirNode, FileNode, NodeStore};

#[test]
fn absolute_path_rebuilds_the_parsed_string() {
    let mut store = NodeStore::new();
    let n = DirNode::from(&mut store, "Users/shiroha/data");
    assert_eq!(n.absolute_path(&store), "Users/shiroha/data");
    assert_eq!(n.name(&store), "data");
    assert_eq!(n.deep(&store), 2);
}

#[test]
fn single_segment_path_is_a_root() {
    let mut store = NodeStore::new();
    let n = DirNode::from(&mut store, "data");
    assert_eq!(n.absolute_path(&store), "data");
    assert!(n.up(&store).is_none());
    assert_eq!(n.deep(&store), 0);
}

#[test]
fn file_path_rebuilds_with_known_extension() {
    let mut store = NodeStore::new();
    let f = FileNode::from(&mut store, "gallery/photo.png");
    assert_eq!(f.name(&store), "photo.png");
    assert_eq!(f.absolute_path(&store), "gallery/photo.png");
}

#[test]
fn extension_splits_at_first_dot_only() {
    // "a.b.c" keeps stem "a" and extension ".b"; ".b" is not in the
    // registry, so the file is typed Unknown and its empty extension
    // drops the rest of the segment from the name.
    let mut store = NodeStore::new();
    let f = FileNode::from(&mut store, "dir/a.b.c");
    assert_eq!(f.name(&store), "a");
    assert_eq!(f.absolute_path(&store), "dir/a");
}

#[test]
fn file_without_dot_is_typed_unknown() {
    let mut store = NodeStore::new();
    let f = FileNode::from(&mut store, "dir/plainfile");
    assert_eq!(f.name(&store), "plainfile");
    assert_eq!(f.absolute_path(&store), "dir/plainfile");
}

#[test]
fn next_appends_a_child_segment() {
    let mut store = NodeStore::new();
    let root = DirNode::new(&mut store, String::from("root"));
    let child = root.next(&mut store, String::from("sub"));
    assert_eq!(child.absolute_path(&store), "root/sub");
    assert_eq!(child.up(&store).unwrap().absolute_path(&store), "root");
    assert_eq!(child.deep(&store), 1);
}

#[test]
fn clones_share_the_lineage_cell() {
    // A clone of a node names the same cell: a rename through either
    // handle is visible through both.
    let mut store = NodeStore::new();
    let d = DirNode::from(&mut store, "a/b");
    let d2 = d.clone();
    d.set_name(&mut store, String::from("z"));
    assert_eq!(d2.name(&store), "z");
    assert_eq!(d2.absolute_path(&store), "a/z");
    d2.set_name(&mut store, String::from("w"));
    assert_eq!(d.absolute_path(&store), "a/w");
}

#[test]
fn parent_rename_is_visible_through_children() {
    // A child shares its parent's cell, so renaming the parent moves
    // every derived path.
    let mut store = NodeStore::new();
    let root = DirNode::new(&mut store, String::from("r"));
    let child = root.next(&mut store, String::from("c"));
    let grandchild = child.next(&mut store, String::from("g"));
    root.set_name(&mut store, String::from("renamed"));
    assert_eq!(child.absolute_path(&store), "renamed/c");
    assert_eq!(grandchild.absolute_path(&store), "renamed/c/g");
}

#[test]
fn independent_constructions_share_no_state() {
    // Two chains parsed from equal strings hold their own cells, even
    // in one store: mutating one never affects the other.
    let mut store = NodeStore::new();
    let a = DirNode::from(&mut store, "x/y");
    let b = DirNode::from(&mut store, "x/y");
    a.rename(&mut store, String::from("z"), false);
    assert_eq!(a.absolute_path(&store), "x/z");
    assert_eq!(b.absolute_path(&store), "x/y");
}

#[test]
fn rename_off_disk_updates_only_the_name() {
    let mut store = NodeStore::new();
    let n = DirNode::from(&mut store, "a/b");
    let plan = n.rename(&mut store, String::from("c"), false);
    assert!(plan.is_none());
    assert_eq!(n.absolute_path(&store), "a/c");
}

#[test]
fn rename_on_disk_plans_first_and_commits_after() {
    let mut store = NodeStore::new();
    let n = DirNode::from(&mut store, "a/b");
    let plan = n.rename(&mut store, String::from("c"), true).unwrap();
    assert_eq!(plan.0, "a/b");
    assert_eq!(plan.1, "a/c");
    // The name is untouched until the caller's physical rename
    // succeeds; a failed rename leaves the node as it was.
    assert_eq!(n.absolute_path(&store), "a/b");
    n.set_name(&mut store, String::from("c"));
    assert_eq!(n.absolute_path(&store), "a/c");
}

#[test]
fn file_rename_keeps_the_extension() {
    let mut store = NodeStore::new();
    let f = FileNode::from(&mut store, "a/b.png");
    let plan = f.rename(&mut store, String::from("c"), true).unwrap();
    assert_eq!(plan.0, "a/b.png");
    assert_eq!(plan.1, "a/c.png");
    assert_eq!(f.name(&store), "b.png");
    f.set_name(&mut store, String::from("c"));
    assert_eq!(f.name(&store), "c.png");
}

#[test]
fn move_to_reparents_and_reports_both_paths() {
    let mut store = NodeStore::new();
    let target = DirNode::from(&mut store, "new/place");
    let f = FileNode::from(&mut store, "old/b.png");
    let (before, after) = f.move_to(&mut store, &target);
    assert_eq!(before, "old/b.png");
    assert_eq!(after, "new/place/b.png");
    // The moved file shares the target's cells: renaming the target
    // moves the file's path too.
    target.set_name(&mut store, String::from("spot"));
    assert_eq!(f.absolute_path(&store), "new/spot/b.png");
}

#[test]
fn set_root_parent_grafts_the_whole_chain() {
    let mut store = NodeStore::new();
    let home = DirNode::from(&mut store, "store/repo");
    let f = FileNode::from(&mut store, "2024/7/42.png");
    f.set_root_parent(&mut store, &home);
    assert_eq!(f.absolute_path(&store), "store/repo/2024/7/42.png");
    // The grafted chain shares the home cells.
    home.set_name(&mut store, String::from("moved"));
    assert_eq!(f.absolute_path(&store), "store/moved/2024/7/42.png");
}

#[test]
fn empty_string_parses_to_one_empty_segment() {
    let mut store = NodeStore::new();
    let n = DirNode::from(&mut store, "");
    assert_eq!(n.absolute_path(&store), "");
    assert_eq!(n.deep(&store), 0);
}
