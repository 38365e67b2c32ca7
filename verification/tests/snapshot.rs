use rspack_cacheable::Cacheable;
use rspack_cacheable::{from_bytes, to_bytes, try_from_bytes, CacheableDynData};
use rspack_cacheable::{Snapshot, SnapshotFile, SnapshotStore, Strategy, ValidateResult};

fn file(path: &str, immutable: bool, managed: bool, lib_version: Option<&str>) -> SnapshotFile {
    SnapshotFile {
        path: path.to_string(),
        immutable,
        managed,
        lib_version: lib_version.map(|v| v.to_string()),
    }
}

fn stored(snapshot: &Snapshot, path: &str) -> Option<Strategy> {
    let store = snapshot.storage();
    for i in 0..store.len() {
        let entry = store.entry(i);
        if entry.0 == path {
            return Some(from_bytes::<Strategy>(&entry.1));
        }
    }
    None
}

#[test]
fn strategy_round_trip() {
    match from_bytes::<Strategy>(&to_bytes(&Strategy::CompileTime(1_700_000_000))) {
        Strategy::CompileTime(t) => assert_eq!(t, 1_700_000_000),
        _ => panic!("expected a compile time"),
    }
    match from_bytes::<Strategy>(&to_bytes(&Strategy::LibVersion(String::from("1.2.3")))) {
        Strategy::LibVersion(v) => assert_eq!(v, "1.2.3"),
        _ => panic!("expected a version"),
    }
}

#[test]
fn strategy_compile_time_is_eight_le_bytes() {
    let data: CacheableDynData = from_bytes(&to_bytes(&Strategy::CompileTime(0x0102)));
    assert_eq!(data.0, "CompileTime");
    assert_eq!(data.1, vec![2, 1, 0, 0, 0, 0, 0, 0]);
}

#[test]
fn strategy_bad_payload_is_refused() {
    let bytes = to_bytes(&CacheableDynData(String::from("CompileTime"), vec![1, 2, 3]));
    assert!(try_from_bytes::<Strategy>(&bytes).is_none());
    let bytes = to_bytes(&CacheableDynData(String::from("Other"), vec![]));
    assert!(try_from_bytes::<Strategy>(&bytes).is_none());
}

#[test]
fn store_set_replaces_and_remove_forgets() {
    let mut store = SnapshotStore::new();
    store.set(String::from("/a"), vec![1]);
    store.set(String::from("/b"), vec![2]);
    store.set(String::from("/a"), vec![3]);
    assert_eq!(store.len(), 2);
    assert_eq!(store.position("/a"), Some(0));
    assert_eq!(store.entry(0).1, vec![3]);
    store.remove("/a");
    assert_eq!(store.len(), 1);
    assert_eq!(store.position("/a"), None);
    store.remove("/missing");
    assert_eq!(store.len(), 1);
}

#[test]
fn add_records_compile_time_and_skips_immutable() {
    let mut snapshot = Snapshot::new(SnapshotStore::new());
    let files = vec![
        file("/src/a.js", false, false, None),
        file("/node_modules/lib/index.js", false, true, Some("4.0.1")),
        file("/frozen/b.js", true, false, None),
    ];
    snapshot.add(&files, 42);
    assert_eq!(snapshot.storage().len(), 2);
    match stored(&snapshot, "/src/a.js") {
        Some(Strategy::CompileTime(t)) => assert_eq!(t, 42),
        _ => panic!("expected the compile time"),
    }
    // The library version is written first, then replaced by the compile time.
    match stored(&snapshot, "/node_modules/lib/index.js") {
        Some(Strategy::CompileTime(t)) => assert_eq!(t, 42),
        _ => panic!("expected the compile time"),
    }
    assert!(stored(&snapshot, "/frozen/b.js").is_none());
}

#[test]
fn add_again_updates_time() {
    let mut snapshot = Snapshot::new(SnapshotStore::new());
    snapshot.add(&vec![file("/a", false, false, None)], 1);
    snapshot.add(&vec![file("/a", false, false, None)], 2);
    assert_eq!(snapshot.storage().len(), 1);
    match stored(&snapshot, "/a") {
        Some(Strategy::CompileTime(t)) => assert_eq!(t, 2),
        _ => panic!("expected the compile time"),
    }
}

#[test]
fn remove_forgets_files() {
    let mut snapshot = Snapshot::new(SnapshotStore::new());
    snapshot.add(&vec![file("/a", false, false, None), file("/b", false, false, None)], 7);
    snapshot.remove(&vec![String::from("/a"), String::from("/c")]);
    assert_eq!(snapshot.storage().len(), 1);
    assert!(stored(&snapshot, "/a").is_none());
    assert!(stored(&snapshot, "/b").is_some());
}

#[test]
fn strategies_read_back_in_order() {
    let mut snapshot = Snapshot::new(SnapshotStore::new());
    snapshot.add(&vec![file("/a", false, false, None), file("/b", false, false, None)], 9);
    let strategies = snapshot.strategies().expect("all entries read back");
    assert_eq!(strategies.len(), 2);
    for s in strategies {
        match s {
            Strategy::CompileTime(t) => assert_eq!(t, 9),
            _ => panic!("expected the compile time"),
        }
    }
}

#[test]
fn strategies_refuse_foreign_bytes() {
    let mut store = SnapshotStore::new();
    store.set(String::from("/a"), vec![1, 2, 3]);
    let snapshot = Snapshot::new(store);
    assert!(snapshot.strategies().is_none());
}

#[test]
fn calc_modified_files_splits_by_result() {
    let mut snapshot = Snapshot::new(SnapshotStore::new());
    snapshot.add(
        &vec![
            file("/a", false, false, None),
            file("/b", false, false, None),
            file("/c", false, false, None),
            file("/d", false, false, None),
        ],
        5,
    );
    let results = vec![
        ValidateResult::Modified,
        ValidateResult::NoChanged,
        ValidateResult::Deleted,
        ValidateResult::Modified,
    ];
    let (modified, deleted) = snapshot.calc_modified_files(&results);
    assert_eq!(modified, vec![String::from("/a"), String::from("/d")]);
    assert_eq!(deleted, vec![String::from("/c")]);
}

#[test]
fn calc_modified_files_empty() {
    let snapshot = Snapshot::new(SnapshotStore::new());
    let (modified, deleted) = snapshot.calc_modified_files(&vec![]);
    assert!(modified.is_empty());
    assert!(deleted.is_empty());
}

#[test]
fn add_then_remove_restores_other_paths() {
    let mut store = SnapshotStore::new();
    store.set(String::from("/keep"), vec![1]);
    store.set(String::from("/a"), vec![2]);
    let mut snapshot = Snapshot::new(store);
    let files = vec![file("/a", false, false, None), file("/b", true, false, None), file("/c", false, true, Some("1"))];
    snapshot.add(&files, 3);
    snapshot.remove(&vec![String::from("/a"), String::from("/b"), String::from("/c")]);
    assert_eq!(snapshot.storage().len(), 1);
    assert_eq!(snapshot.storage().entry(0).0, "/keep");
    assert_eq!(snapshot.storage().entry(0).1, vec![1]);
}

#[test]
fn strategies_are_writable() {
    assert!(Strategy::CompileTime(u64::MAX).writable());
    assert!(Strategy::LibVersion(String::from("1.0.0")).writable());
}
