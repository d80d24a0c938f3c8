use cb_patcher::hashing::calculate_github_sha1;
use cb_patcher::error::SyncError;
use cb_patcher::inventory::{FileRecord, Fingerprint};
use cb_patcher::local::{local_inventory, local_records, scan_local_files, LocalFile};

fn file(path: &str, content: &[u8]) -> LocalFile {
    LocalFile { path: path.to_string(), content: content.to_vec() }
}

fn found(path: &str, content: &[u8]) -> FileRecord {
    FileRecord { relative_path: path.to_string(), fingerprint: Fingerprint::Content(content.to_vec()) }
}

#[test]
fn scan_lists_visible_files_with_blob_fingerprints() {
    let files = vec![
        file("main.lua", b"abc"),
        file(".git\\config", b"x"),
        file("resources\\gfx\\a.png", b""),
        file(".gitignore", b"y"),
    ];
    let pairs = scan_local_files(&files).unwrap();
    assert_eq!(
        pairs,
        vec![
            ("main.lua".to_string(), "f2ba8f84ab5c1bce84a7b441cb1959cfc7093b7f".to_string()),
            (
                "resources/gfx/a.png".to_string(),
                "e69de29bb2d1d6434b8b29ae775ad8c2e48c5391".to_string()
            ),
        ]
    );
    assert_eq!(pairs[0].1, calculate_github_sha1(b"abc"));
}

#[test]
fn local_records_normalise_and_drop_hidden_paths() {
    let records = local_records(vec![
        found("a\\b.lua", b"1"),
        found(".git/HEAD", b"2"),
        found("c/.hidden", b"3"),
        found("", b"4"),
    ])
    .unwrap();
    let paths: Vec<&str> = records.iter().map(|r| r.relative_path.as_str()).collect();
    assert_eq!(paths, vec!["a/b.lua", "c/.hidden"]);
    assert!(records[0].fingerprint.matches(&Fingerprint::Content(b"1".to_vec())));
}

#[test]
fn local_inventory_is_keyed_by_normalised_path() {
    let inventory =
        local_inventory(vec![found("gfx\\a.png", b"p"), found("main.lua", b"m")]).unwrap();
    assert_eq!(inventory.len(), 2);
    assert!(inventory.contains("gfx/a.png"));
    assert!(!inventory.contains("gfx\\a.png"));
    assert!(inventory.get("main.lua").unwrap().matches(&Fingerprint::Content(b"m".to_vec())));
}

#[test]
fn found_path_that_leaves_the_root_is_a_local_failure() {
    for bad in ["c\\..\\..\\x", "/rooted.lua", "d//e.lua", "a/.."] {
        assert_eq!(
            local_records(vec![found("ok.lua", b"1"), found(bad, b"2")]).unwrap_err(),
            SyncError::LocalIoError
        );
        assert!(matches!(local_inventory(vec![found(bad, b"2")]), Err(SyncError::LocalIoError)));
        assert_eq!(scan_local_files(&vec![file(bad, b"2")]).unwrap_err(), SyncError::LocalIoError);
    }
}
