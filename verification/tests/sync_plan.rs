use diaryx_sync_extism::key_map::KeyMap;
use diaryx_sync_extism::sync_engine::paths::{
    guess_content_type, normalize_root_prefix, path_for, should_skip_file, strip_root_prefix,
};
use diaryx_sync_extism::sync_engine::{compute_diff, LocalFileInfo, ServerEntry};
use diaryx_sync_extism::sync_manifest::{SyncManifest, SyncState};

fn make_manifest() -> SyncManifest {
    SyncManifest::new("test-ns".to_string())
}

fn local(hash: &str, size: u64) -> LocalFileInfo {
    LocalFileInfo {
        hash: hash.to_string(),
        size,
    }
}

fn server(key: &str, hash: Option<&str>, updated_at: i64) -> ServerEntry {
    ServerEntry {
        key: key.to_string(),
        content_hash: hash.map(String::from),
        size_bytes: 100,
        updated_at,
    }
}

#[test]
fn new_local_file_pushes() {
    let manifest = make_manifest();
    let mut local_scan = KeyMap::new();
    local_scan.insert("files/new.md", local("abc123", 100));

    let plan = compute_diff(&manifest, &local_scan, &[]);
    assert_eq!(plan.push, vec!["files/new.md"]);
    assert!(plan.pull.is_empty());
}

#[test]
fn new_remote_file_pulls() {
    let manifest = make_manifest();
    let local_scan = KeyMap::new();
    let server = vec![server("files/remote.md", Some("xyz"), 1000)];

    let plan = compute_diff(&manifest, &local_scan, &server);
    assert_eq!(plan.pull, vec!["files/remote.md"]);
    assert!(plan.push.is_empty());
}

#[test]
fn dirty_local_file_pushes() {
    let mut manifest = make_manifest();
    manifest.mark_clean("files/doc.md", "old_hash", 100, 500);
    manifest.mark_dirty("files/doc.md", None);

    let mut local_scan = KeyMap::new();
    local_scan.insert("files/doc.md", local("new_hash", 120));

    let server = vec![server("files/doc.md", Some("old_hash"), 500)];

    let plan = compute_diff(&manifest, &local_scan, &server);
    assert_eq!(plan.push, vec!["files/doc.md"]);
    assert!(plan.pull.is_empty());
}

#[test]
fn clean_local_server_changed_pulls() {
    let mut manifest = make_manifest();
    manifest.mark_clean("files/doc.md", "hash_v1", 100, 500);

    let mut local_scan = KeyMap::new();
    local_scan.insert("files/doc.md", local("hash_v1", 100));

    let server = vec![server("files/doc.md", Some("hash_v2"), 600)];

    let plan = compute_diff(&manifest, &local_scan, &server);
    assert_eq!(plan.pull, vec!["files/doc.md"]);
    assert!(plan.push.is_empty());
}

#[test]
fn conflict_lww_local_newer_pushes() {
    let mut manifest = make_manifest();
    manifest.mark_clean("files/doc.md", "hash_v1", 100, 700);
    manifest.mark_dirty("files/doc.md", None);

    let mut local_scan = KeyMap::new();
    local_scan.insert("files/doc.md", local("hash_v2_local", 120));

    let server = vec![server("files/doc.md", Some("hash_v2_remote"), 600)];

    let plan = compute_diff(&manifest, &local_scan, &server);
    assert_eq!(plan.push, vec!["files/doc.md"]);
    assert!(plan.pull.is_empty());
}

#[test]
fn conflict_lww_remote_newer_pulls() {
    let mut manifest = make_manifest();
    manifest.mark_clean("files/doc.md", "hash_v1", 100, 400);
    manifest.mark_dirty("files/doc.md", None);

    let mut local_scan = KeyMap::new();
    local_scan.insert("files/doc.md", local("hash_v2_local", 120));

    let server = vec![server("files/doc.md", Some("hash_v2_remote"), 600)];

    let plan = compute_diff(&manifest, &local_scan, &server);
    assert_eq!(plan.pull, vec!["files/doc.md"]);
    assert!(plan.push.is_empty());
}

#[test]
fn clean_file_missing_from_server_deletes_local() {
    let mut manifest = make_manifest();
    manifest.mark_clean("files/gone.md", "hash", 100, 500);

    let mut local_scan = KeyMap::new();
    local_scan.insert("files/gone.md", local("hash", 100));

    let plan = compute_diff(&manifest, &local_scan, &[]);
    assert_eq!(plan.delete_local, vec!["files/gone.md"]);
}

#[test]
fn pending_delete_sends_remote_delete() {
    let mut manifest = make_manifest();
    manifest.record_delete("files/deleted.md", None);

    let local_scan = KeyMap::new();
    let server = vec![server("files/deleted.md", Some("hash"), 500)];

    let plan = compute_diff(&manifest, &local_scan, &server);
    assert_eq!(plan.delete_remote, vec!["files/deleted.md"]);
}

#[test]
fn conflict_tie_goes_to_the_local_file() {
    let mut manifest = make_manifest();
    manifest.mark_clean("files/doc.md", "hash_v1", 100, 600);
    let mut local_scan = KeyMap::new();
    local_scan.insert("files/doc.md", local("hash_v2_local", 120));
    let server = vec![server("files/doc.md", Some("hash_v2_remote"), 600)];
    let plan = compute_diff(&manifest, &local_scan, &server);
    assert_eq!(plan.push, vec!["files/doc.md"]);
    assert!(plan.pull.is_empty());
}

#[test]
fn a_time_beyond_the_signed_range_counts_as_early() {
    let mut manifest = make_manifest();
    manifest.mark_clean("files/doc.md", "hash_v1", 100, u64::MAX);
    let mut local_scan = KeyMap::new();
    local_scan.insert("files/doc.md", local("hash_v2_local", 120));
    let server = vec![server("files/doc.md", Some("hash_v2_remote"), 0)];
    let plan = compute_diff(&manifest, &local_scan, &server);
    assert_eq!(plan.pull, vec!["files/doc.md"]);
    assert!(plan.push.is_empty());
}

#[test]
fn files_in_sync_are_left_alone() {
    let mut manifest = make_manifest();
    manifest.mark_clean("files/a.md", "h", 1, 5);
    manifest.mark_clean("files/b.md", "h", 1, 5);
    let mut local_scan = KeyMap::new();
    local_scan.insert("files/a.md", local("h", 1));
    local_scan.insert("files/b.md", local("h", 1));
    let server = vec![
        server("files/a.md", Some("h"), 900),
        server("files/b.md", None, 900),
    ];
    let plan = compute_diff(&manifest, &local_scan, &server);
    assert!(plan.push.is_empty());
    assert!(plan.pull.is_empty());
    assert!(plan.delete_local.is_empty());
    assert!(plan.delete_remote.is_empty());
}

#[test]
fn unknown_files_with_the_same_content_are_left_alone() {
    let manifest = make_manifest();
    let mut local_scan = KeyMap::new();
    local_scan.insert("files/same.md", local("h", 1));
    local_scan.insert("files/other.md", local("h", 1));
    local_scan.insert("files/unhashed.md", local("h", 1));
    let server = vec![
        server("files/same.md", Some("h"), 1),
        server("files/other.md", Some("g"), 1),
        server("files/unhashed.md", None, 1),
    ];
    let plan = compute_diff(&manifest, &local_scan, &server);
    assert_eq!(plan.push, vec!["files/other.md", "files/unhashed.md"]);
    assert!(plan.pull.is_empty());
}

#[test]
fn files_gone_here_are_pulled_unless_they_were_clean() {
    let mut manifest = make_manifest();
    manifest.mark_clean("files/clean.md", "h", 1, 5);
    manifest.mark_dirty("files/dirty.md", Some(5));
    let local_scan = KeyMap::new();
    let server = vec![
        server("files/dirty.md", Some("h"), 1),
        server("files/clean.md", Some("h"), 1),
        server("files/new.md", Some("h"), 1),
    ];
    let plan = compute_diff(&manifest, &local_scan, &server);
    assert_eq!(plan.pull, vec!["files/dirty.md", "files/new.md"]);
}

#[test]
fn placeholders_are_pushed_when_the_server_lacks_them() {
    let mut manifest = make_manifest();
    manifest.mark_dirty("files/new.md", Some(7));
    let mut local_scan = KeyMap::new();
    local_scan.insert("files/new.md", local("h", 1));
    let plan = compute_diff(&manifest, &local_scan, &[]);
    assert_eq!(plan.push, vec!["files/new.md"]);
    assert!(plan.delete_local.is_empty());
}

#[test]
fn pending_deletes_get_the_prefix_of_objects() {
    let mut manifest = make_manifest();
    manifest.record_delete("bare.md", Some(1));
    manifest.record_delete("files/absent.md", Some(1));
    let local_scan = KeyMap::new();
    let server = vec![server("files/bare.md", Some("h"), 1)];
    let plan = compute_diff(&manifest, &local_scan, &server);
    assert_eq!(plan.delete_remote, vec!["files/bare.md"]);
}

#[test]
fn the_last_of_several_entries_counts() {
    let mut manifest = make_manifest();
    manifest.mark_clean("files/doc.md", "v1", 1, 5);
    let mut local_scan = KeyMap::new();
    local_scan.insert("files/doc.md", local("v1", 1));
    let server = vec![
        server("files/doc.md", Some("v2"), 9),
        server("files/doc.md", Some("v1"), 9),
    ];
    let plan = compute_diff(&manifest, &local_scan, &server);
    assert!(plan.push.is_empty());
    assert!(plan.pull.is_empty());
}

#[test]
fn plans_follow_the_order_of_keys() {
    let manifest = make_manifest();
    let mut local_scan = KeyMap::new();
    for key in ["files/b", "files/a", "files/é", "files/B", "files/aa"] {
        local_scan.insert(key, local("h", 1));
    }
    let plan = compute_diff(&manifest, &local_scan, &[]);
    assert_eq!(
        plan.push,
        vec!["files/B", "files/a", "files/aa", "files/b", "files/é"]
    );
}

#[test]
fn key_maps_hold_what_was_set() {
    let mut map: KeyMap<String> = KeyMap::new();
    assert!(map.is_empty());
    map.insert("b", "1".to_string());
    map.insert("a", "2".to_string());
    map.insert("b", "3".to_string());
    assert_eq!(map.len(), 2);
    assert_eq!(map.get("b").map(|s| s.as_str()), Some("3"));
    assert_eq!(map.entry(0).0, "a");
    assert!(map.contains_key("a"));
    map.remove("a");
    assert!(!map.contains_key("a"));
    assert_eq!(map.len(), 1);
    map.remove("a");
    assert_eq!(map.len(), 1);
}

#[test]
fn manifests_count_by_state() {
    let mut manifest = make_manifest();
    assert_eq!(manifest.dirty_count(), 0);
    manifest.mark_clean("a", "h", 3, 4);
    manifest.mark_clean("b", "h", 3, 4);
    manifest.mark_dirty("b", Some(9));
    manifest.mark_dirty("c", Some(9));
    manifest.mark_dirty("d", None);
    assert_eq!(manifest.dirty_count(), 3);
    assert_eq!(manifest.clean_count(), 1);
    assert_eq!(
        manifest.dirty_count() + manifest.clean_count(),
        manifest.files.len()
    );
    let b = manifest.files.get("b").unwrap();
    assert_eq!((b.content_hash.as_str(), b.modified_at), ("h", 4));
    let c = manifest.files.get("c").unwrap();
    assert_eq!((c.content_hash.as_str(), c.modified_at), ("", 9));
    assert_eq!(manifest.files.get("d").unwrap().modified_at, 0);
    assert_eq!(c.state, SyncState::Dirty);
}

#[test]
fn deletes_are_recorded_once() {
    let mut manifest = make_manifest();
    manifest.mark_clean("a", "h", 3, 4);
    manifest.record_delete("a", Some(5));
    manifest.record_delete("a", Some(6));
    manifest.record_delete("b", None);
    assert!(!manifest.files.contains_key("a"));
    assert_eq!(manifest.pending_deletes.len(), 2);
    assert_eq!(manifest.pending_deletes[0].deleted_at, 5);
    assert_eq!(manifest.pending_deletes[1].deleted_at, 0);
    manifest.clear_deletes();
    assert!(manifest.pending_deletes.is_empty());
}

#[test]
fn manifests_of_another_namespace_are_not_loaded() {
    let mut stored = SyncManifest::new("one".to_string());
    stored.mark_clean("a", "h", 3, 4);
    let copy = stored.copied();
    assert_eq!(SyncManifest::load("one", Some(copy)).files.len(), 1);
    let other = SyncManifest::load("two", Some(stored));
    assert_eq!(other.namespace_id, "two");
    assert!(other.files.is_empty());
    assert!(SyncManifest::load("two", None).files.is_empty());
}

#[test]
fn root_prefixes() {
    assert_eq!(normalize_root_prefix("/work"), "/work/");
    assert_eq!(normalize_root_prefix("/work/"), "/work/");
    assert_eq!(normalize_root_prefix("C:\\work"), "C:/work/");
    assert_eq!(strip_root_prefix("/work/a/b.md", "/work/"), "a/b.md");
    assert_eq!(strip_root_prefix("a/b.md", "/work/"), "a/b.md");
    assert_eq!(path_for("/work/", "files/a.md"), "/work/a.md");
    assert_eq!(path_for("/work/", "other/a.md"), "/work/other/a.md");
}

#[test]
fn skipped_files() {
    for name in [
        ".git/config",
        "a/.hidden",
        "__MACOSX",
        "a/__MACOSX/b",
        "Thumbs.db",
        "desktop.ini",
    ] {
        assert!(should_skip_file(name), "{name}");
    }
    for name in ["a.md", "a/b.c", "a/Thumbs.db", "__MACOSX/a", "x.desktop.ini"] {
        assert!(!should_skip_file(name), "{name}");
    }
}

#[test]
fn content_types() {
    for (path, expected) in [
        ("a.md", "text/markdown"),
        ("a.json", "application/json"),
        ("a.yaml", "application/x-yaml"),
        ("a.yml", "application/x-yaml"),
        ("a.png", "image/png"),
        ("a.jpg", "image/jpeg"),
        ("a.jpeg", "image/jpeg"),
        ("a.gif", "image/gif"),
        ("a.svg", "image/svg+xml"),
        ("a.pdf", "application/pdf"),
        ("a.html", "text/html"),
        ("a.css", "text/css"),
        ("a.txt", "text/plain"),
        ("a.bin", "application/octet-stream"),
        ("md", "application/octet-stream"),
    ] {
        assert_eq!(guess_content_type(path), expected);
    }
}

#[test]
fn no_file_is_pulled_twice() {
    let mut manifest = make_manifest();
    manifest.mark_clean("files/a.md", "old", 1, 1);
    let mut local_scan = KeyMap::new();
    local_scan.insert("files/a.md", local("old", 1));
    let a = || server("files/a.md", Some("new"), 2);
    let b = || server("files/b.md", Some("b"), 2);
    let plan = compute_diff(&manifest, &local_scan, &[b(), a()]);
    assert_eq!(plan.pull, vec!["files/a.md", "files/b.md"]);
    // A server that names an object twice is asked for it twice.
    let plan = compute_diff(&manifest, &local_scan, &[b(), a(), b()]);
    assert_eq!(plan.pull, vec!["files/a.md", "files/b.md", "files/b.md"]);
}
