use cb_patcher::inventory::{Fingerprint, Inventory};
use cb_patcher::reconcile::reconcile;

fn side(files: &[(&str, &str)]) -> Inventory {
    let mut inventory = Inventory::new();
    for (path, content) in files {
        inventory.insert(path.to_string(), Fingerprint::Content(content.as_bytes().to_vec()));
    }
    inventory
}

fn names(list: &[&str]) -> Vec<String> {
    list.iter().map(|s| s.to_string()).collect()
}

#[test]
fn end_to_end_plan_updates_and_deletes() {
    let remote = side(&[("a.lua", "X")]);
    let local = side(&[("a.lua", "Y"), ("old.lua", "Z")]);
    let plan = reconcile(&remote, &local);
    assert_eq!(plan.additions, names(&[]));
    assert_eq!(plan.updates, names(&["a.lua"]));
    assert_eq!(plan.deletions, names(&["old.lua"]));
    assert!(!plan.is_empty());
}

#[test]
fn update_detection_places_changed_file_in_updates() {
    let mut remote = Inventory::new();
    remote.insert("mod.xml".to_string(), Fingerprint::Hash("h1".to_string()));
    let mut local = Inventory::new();
    local.insert("mod.xml".to_string(), Fingerprint::Hash("h2".to_string()));
    let plan = reconcile(&remote, &local);
    assert_eq!(plan.updates, names(&["mod.xml"]));
    assert!(plan.additions.is_empty());
    assert!(plan.deletions.is_empty());
}

#[test]
fn noise_markers_are_never_deleted() {
    let remote = side(&[("main.lua", "m")]);
    let local = side(&[
        ("main.lua", "m"),
        (".DS_Store", "x"),
        ("gfx/Thumbs.db", "y"),
        ("gfx/.DS_Store", "z"),
        ("gfx/thumbs.db", "w"),
    ]);
    let plan = reconcile(&remote, &local);
    assert!(plan.additions.is_empty());
    assert!(plan.updates.is_empty());
    assert_eq!(plan.deletions, names(&["gfx/thumbs.db"]));
}

#[test]
fn equal_sides_give_an_empty_plan() {
    let remote = side(&[("a", "1"), ("b/c", "2")]);
    let local = side(&[("b/c", "2"), ("a", "1")]);
    let plan = reconcile(&remote, &local);
    assert!(plan.is_empty());
    assert!(plan.additions.is_empty() && plan.updates.is_empty() && plan.deletions.is_empty());
}

#[test]
fn empty_local_side_adds_everything_in_remote_order() {
    let remote = side(&[("z", "1"), ("a", "2"), ("m", "3")]);
    let plan = reconcile(&remote, &Inventory::new());
    assert_eq!(plan.additions, names(&["z", "a", "m"]));
    assert!(plan.updates.is_empty());
    assert!(plan.deletions.is_empty());
}

#[test]
fn empty_remote_side_deletes_everything_in_local_order() {
    let local = side(&[("z", "1"), ("a", "2")]);
    let plan = reconcile(&Inventory::new(), &local);
    assert!(plan.additions.is_empty());
    assert_eq!(plan.deletions, names(&["z", "a"]));
}

#[test]
fn paths_are_compared_exactly() {
    let remote = side(&[("Main.lua", "m")]);
    let local = side(&[("main.lua", "m")]);
    let plan = reconcile(&remote, &local);
    assert_eq!(plan.additions, names(&["Main.lua"]));
    assert_eq!(plan.deletions, names(&["main.lua"]));
    assert!(plan.updates.is_empty());
}

#[test]
fn hash_and_content_of_one_path_count_as_different() {
    let mut remote = Inventory::new();
    remote.insert("a".to_string(), Fingerprint::Hash("ab".to_string()));
    let local = side(&[("a", "ab")]);
    let plan = reconcile(&remote, &local);
    assert_eq!(plan.updates, names(&["a"]));
}

#[test]
fn each_path_stands_in_one_list_only() {
    let remote = side(&[("new", "1"), ("changed", "2"), ("same", "3")]);
    let local = side(&[("changed", "x"), ("same", "3"), ("gone", "4"), ("Thumbs.db", "5")]);
    let plan = reconcile(&remote, &local);
    assert_eq!(plan.additions, names(&["new"]));
    assert_eq!(plan.updates, names(&["changed"]));
    assert_eq!(plan.deletions, names(&["gone"]));
}
