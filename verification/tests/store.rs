use pastebin::io::{
    get_all_paste_ids, get_paste, known_owners, purge_device_old, store_paste, PasteStore,
};
use pastebin::model::DEVICE_PASTE_LIMIT;

fn put(store: &mut PasteStore, id: &str, content: &[u8], device: &str) {
    store_paste(store, id.to_string(), content.to_vec(), device.to_string());
}

fn ids(list: &[&str]) -> Vec<String> {
    list.iter().map(|s| s.to_string()).collect()
}

#[test]
fn retention_limit_is_two() {
    assert_eq!(DEVICE_PASTE_LIMIT, 2);
}

#[test]
fn empty_store_holds_nothing() {
    let store = PasteStore::new();
    assert_eq!(get_all_paste_ids(&store, "DEVICE001"), Vec::<String>::new());
    assert_eq!(get_paste(&store, "anything", "DEVICE001"), None);
    assert_eq!(known_owners(&store), Vec::<String>::new());
}

#[test]
fn third_paste_evicts_the_oldest() {
    let mut store = PasteStore::new();
    put(&mut store, "a", b"first", "DEVICE001");
    put(&mut store, "b", b"second", "DEVICE001");
    put(&mut store, "c", b"third", "DEVICE001");
    assert_eq!(get_all_paste_ids(&store, "DEVICE001"), ids(&["c", "b"]));
    assert_eq!(get_paste(&store, "a", "DEVICE001"), None);
    assert_eq!(get_paste(&store, "b", "DEVICE001"), Some(b"second".to_vec()));
    assert_eq!(get_paste(&store, "c", "DEVICE001"), Some(b"third".to_vec()));
}

#[test]
fn each_owner_lists_only_its_own() {
    let mut store = PasteStore::new();
    put(&mut store, "mine", b"one", "DEVICE001");
    put(&mut store, "yours", b"two", "DEVICE002");
    assert_eq!(get_all_paste_ids(&store, "DEVICE001"), ids(&["mine"]));
    assert_eq!(get_all_paste_ids(&store, "DEVICE002"), ids(&["yours"]));
    assert_eq!(get_paste(&store, "mine", "DEVICE001"), Some(b"one".to_vec()));
    assert_eq!(get_paste(&store, "yours", "DEVICE002"), Some(b"two".to_vec()));
}

#[test]
fn lookup_of_an_id_never_stored_is_absent() {
    let mut store = PasteStore::new();
    put(&mut store, "known", b"data", "DEVICE001");
    assert_eq!(get_paste(&store, "unknown", "DEVICE001"), None);
    assert_eq!(get_paste(&store, "unknown", "DEVICE002"), None);
}

#[test]
fn lookup_by_another_owner_is_absent_like_an_unknown_id() {
    let mut store = PasteStore::new();
    put(&mut store, "known", b"data", "DEVICE001");
    let wrong_owner = get_paste(&store, "known", "DEVICE002");
    let no_such_id = get_paste(&store, "unknown", "DEVICE002");
    assert_eq!(wrong_owner, None);
    assert_eq!(wrong_owner, no_such_id);
}

#[test]
fn lookup_returns_the_exact_bytes() {
    let mut store = PasteStore::new();
    let content: Vec<u8> = vec![0, 255, 10, 13, 0, 128, 1];
    store_paste(&mut store, "bytes".to_string(), content.clone(), "DEVICE001".to_string());
    assert_eq!(get_paste(&store, "bytes", "DEVICE001"), Some(content));
    put(&mut store, "empty", b"", "DEVICE001");
    assert_eq!(get_paste(&store, "empty", "DEVICE001"), Some(Vec::new()));
}

#[test]
fn lookup_survives_submissions_of_other_devices() {
    let mut store = PasteStore::new();
    put(&mut store, "kept", b"stay", "DEVICE001");
    put(&mut store, "x1", b"1", "DEVICE002");
    put(&mut store, "x2", b"2", "DEVICE002");
    put(&mut store, "x3", b"3", "DEVICE002");
    put(&mut store, "y1", b"4", "DEVICE003");
    assert_eq!(get_paste(&store, "kept", "DEVICE001"), Some(b"stay".to_vec()));
    assert_eq!(get_all_paste_ids(&store, "DEVICE001"), ids(&["kept"]));
}

#[test]
fn listing_never_exceeds_the_limit() {
    let mut store = PasteStore::new();
    for n in 0..10 {
        put(&mut store, &format!("p{}", n), b"x", "DEVICE001");
        put(&mut store, &format!("q{}", n), b"y", "DEVICE002");
        assert!(get_all_paste_ids(&store, "DEVICE001").len() <= DEVICE_PASTE_LIMIT);
        assert!(get_all_paste_ids(&store, "DEVICE002").len() <= DEVICE_PASTE_LIMIT);
    }
    assert_eq!(get_all_paste_ids(&store, "DEVICE001"), ids(&["p9", "p8"]));
    assert_eq!(get_all_paste_ids(&store, "DEVICE002"), ids(&["q9", "q8"]));
}

#[test]
fn new_paste_heads_the_listing() {
    let mut store = PasteStore::new();
    put(&mut store, "one", b"1", "DEVICE001");
    assert_eq!(get_all_paste_ids(&store, "DEVICE001"), ids(&["one"]));
    put(&mut store, "two", b"2", "DEVICE001");
    assert_eq!(get_all_paste_ids(&store, "DEVICE001"), ids(&["two", "one"]));
    put(&mut store, "three", b"3", "DEVICE001");
    assert_eq!(get_all_paste_ids(&store, "DEVICE001")[0], "three");
}

#[test]
fn eviction_spares_other_owners() {
    let mut store = PasteStore::new();
    put(&mut store, "o1", b"1", "DEVICE002");
    put(&mut store, "a", b"a", "DEVICE001");
    put(&mut store, "o2", b"2", "DEVICE002");
    put(&mut store, "b", b"b", "DEVICE001");
    put(&mut store, "c", b"c", "DEVICE001");
    put(&mut store, "d", b"d", "DEVICE001");
    assert_eq!(get_all_paste_ids(&store, "DEVICE002"), ids(&["o2", "o1"]));
    assert_eq!(get_paste(&store, "o1", "DEVICE002"), Some(b"1".to_vec()));
    assert_eq!(get_paste(&store, "o2", "DEVICE002"), Some(b"2".to_vec()));
    assert_eq!(get_all_paste_ids(&store, "DEVICE001"), ids(&["d", "c"]));
}

#[test]
fn purge_makes_room_for_one_more() {
    let mut store = PasteStore::new();
    put(&mut store, "a", b"a", "DEVICE001");
    purge_device_old(&mut store, "DEVICE001");
    assert_eq!(get_all_paste_ids(&store, "DEVICE001"), ids(&["a"]));
    put(&mut store, "b", b"b", "DEVICE001");
    put(&mut store, "z", b"z", "DEVICE002");
    purge_device_old(&mut store, "DEVICE001");
    assert_eq!(get_all_paste_ids(&store, "DEVICE001"), ids(&["b"]));
    assert_eq!(get_paste(&store, "a", "DEVICE001"), None);
    assert_eq!(get_all_paste_ids(&store, "DEVICE002"), ids(&["z"]));
    purge_device_old(&mut store, "DEVICE001");
    assert_eq!(get_all_paste_ids(&store, "DEVICE001"), ids(&["b"]));
}

#[test]
fn purge_of_a_device_without_pastes_changes_nothing() {
    let mut store = PasteStore::new();
    put(&mut store, "a", b"a", "DEVICE001");
    put(&mut store, "b", b"b", "DEVICE001");
    purge_device_old(&mut store, "DEVICE009");
    assert_eq!(get_all_paste_ids(&store, "DEVICE001"), ids(&["b", "a"]));
}

#[test]
fn resubmission_under_a_used_id_replaces_the_paste() {
    let mut store = PasteStore::new();
    put(&mut store, "same", b"old", "DEVICE001");
    put(&mut store, "same", b"new", "DEVICE002");
    assert_eq!(get_paste(&store, "same", "DEVICE001"), None);
    assert_eq!(get_paste(&store, "same", "DEVICE002"), Some(b"new".to_vec()));
    assert_eq!(get_all_paste_ids(&store, "DEVICE001"), Vec::<String>::new());
    assert_eq!(get_all_paste_ids(&store, "DEVICE002"), ids(&["same"]));
}

#[test]
fn resubmission_makes_the_paste_the_newest() {
    let mut store = PasteStore::new();
    put(&mut store, "a", b"1", "DEVICE001");
    put(&mut store, "b", b"2", "DEVICE002");
    assert_eq!(known_owners(&store), ids(&["DEVICE001", "DEVICE002"]));
    put(&mut store, "a", b"3", "DEVICE003");
    assert_eq!(known_owners(&store), ids(&["DEVICE002", "DEVICE003"]));
}

#[test]
fn resubmission_by_the_owner_keeps_the_limit() {
    let mut store = PasteStore::new();
    put(&mut store, "a", b"1", "DEVICE001");
    put(&mut store, "b", b"2", "DEVICE001");
    put(&mut store, "b", b"3", "DEVICE001");
    assert_eq!(get_all_paste_ids(&store, "DEVICE001"), ids(&["b"]));
    assert_eq!(get_paste(&store, "b", "DEVICE001"), Some(b"3".to_vec()));
    assert_eq!(get_paste(&store, "a", "DEVICE001"), None);
}

#[test]
fn known_owners_names_each_device_once() {
    let mut store = PasteStore::new();
    put(&mut store, "a", b"1", "DEVICE001");
    put(&mut store, "b", b"2", "DEVICE002");
    put(&mut store, "c", b"3", "DEVICE001");
    put(&mut store, "d", b"4", "DEVICE002");
    assert_eq!(known_owners(&store), ids(&["DEVICE001", "DEVICE002"]));
}

#[test]
fn evicted_device_is_no_longer_known() {
    let mut store = PasteStore::new();
    put(&mut store, "a", b"1", "DEVICE001");
    put(&mut store, "a", b"2", "DEVICE002");
    assert_eq!(known_owners(&store), ids(&["DEVICE002"]));
}
