use mediastore::content_type::guess;
use mediastore::file::{FileNode, NodeStore};
use mediastore::manager::Setting;
use mediastore::resource::{RepoResourceManager, ResourceManager};

fn manager_under(root: &str) -> ResourceManager {
    let setting = Setting { root: String::from(root), max_thumbnail_size: 4096 };
    ResourceManager::new(&setting)
}

#[test]
fn store_lays_out_home_cache_and_temp() {
    let m = manager_under("data");
    let store = m.make_store("gallery");
    assert_eq!(store.home_path(), "data/gallery");
    assert_eq!(store.cache_path(), "data/gallery/.cache");
    assert_eq!(store.temp_path(), "data/gallery/.temp");
}

#[test]
fn cache_serves_the_stored_entry() {
    let mut m = manager_under("data");
    assert!(m.lookup("gallery").is_none());
    let store = m.make_store("gallery");
    m.cache_store(String::from("gallery"), store);
    let cached = m.lookup("gallery").unwrap();
    assert_eq!(cached.home_path(), "data/gallery");
    assert!(m.lookup("other").is_none());
}

#[test]
fn rename_repo_plans_the_disk_move_and_evicts_after() {
    let mut m = manager_under("data");
    let store = m.make_store("old");
    m.cache_store(String::from("old"), store);
    let plan = m.rename_repo("old", String::from("new"), true).unwrap();
    assert_eq!(plan.0, "data/old");
    assert_eq!(plan.1, "data/new");
    // Nothing is evicted until the caller's physical rename succeeds.
    assert!(m.lookup("old").is_some());
    m.evict("old");
    assert!(m.lookup("old").is_none());
}

#[test]
fn rename_repo_off_disk_needs_no_move_and_evicts() {
    let mut m = manager_under("data");
    let store = m.make_store("old");
    m.cache_store(String::from("old"), store);
    let plan = m.rename_repo("old", String::from("new"), false);
    assert!(plan.is_none());
    assert!(m.lookup("old").is_none());
}

#[test]
fn temp_node_gets_a_fresh_safe_name() {
    let m = manager_under("data");
    let mut store = m.make_store("gallery");
    let node = store.create_temp_node();
    let path = node.absolute_path(store.arena());
    let name = path.strip_prefix("data/gallery/.temp/").unwrap();
    assert_eq!(name.len(), 36);
    assert!(!name.contains('/'));
    assert!(!name.contains('.'));
    let other = store.create_temp_node();
    assert_ne!(other.absolute_path(store.arena()), path);
}

#[test]
fn adopt_file_grafts_under_home() {
    let m = manager_under("data");
    let mut store = m.make_store("gallery");
    let mut scratch = NodeStore::new();
    let file = FileNode::from(&mut scratch, "2024/42.png");
    let placed = store.adopt_file(&scratch, &file);
    assert_eq!(placed.absolute_path(store.arena()), "data/gallery/2024/42.png");
}

#[test]
fn build_file_rebuilds_the_stored_node() {
    let m = manager_under("data");
    let mut store = m.make_store("gallery");
    let node = store.build_file("2024/42.png", &guess(".png"));
    assert_eq!(node.absolute_path(store.arena()), "data/gallery/2024/42.png");
}

#[test]
fn thumbnail_path_is_a_stable_cache_key() {
    // The same stored path maps to the identical cache location on
    // every call: the second request hits the first request's file.
    let m = manager_under("data");
    let mut store = m.make_store("gallery");
    let first = store.build_thumbnail_file("2024/42.png");
    let first_path = first.absolute_path(store.arena());
    let second = store.build_thumbnail_file("2024/42.png");
    let second_path = second.absolute_path(store.arena());
    assert_eq!(first_path, second_path);
    assert_eq!(first_path, "data/gallery/.cache/2024/42.jpg");
}

#[test]
fn thumbnail_node_is_typed_jpeg() {
    let m = manager_under("data");
    let mut store = m.make_store("gallery");
    let node = store.build_thumbnail_file("2024/42.png");
    assert_eq!(node.name(store.arena()), "42.jpg");
}

#[test]
fn stores_from_equal_names_are_rebuilt_after_eviction() {
    let mut m = manager_under("data");
    let store = m.make_store("g");
    m.cache_store(String::from("g"), store);
    m.evict("g");
    assert!(m.lookup("g").is_none());
    let again = m.make_store("g");
    assert_eq!(again.home_path(), "data/g");
}

fn clone_keeps_layout(s: &RepoResourceManager) -> RepoResourceManager {
    s.clone()
}

#[test]
fn store_clone_keeps_the_layout() {
    let m = manager_under("data");
    let store = m.make_store("gallery");
    let copy = clone_keeps_layout(&store);
    assert_eq!(copy.temp_path(), "data/gallery/.temp");
}
