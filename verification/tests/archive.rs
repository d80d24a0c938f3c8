use std::io::Write;

use cb_patcher::archive::{
    archive_inventory, archive_records, read_archive, record_under, wanted_path, ArchiveEntry,
};
use cb_patcher::error::SyncError;
use cb_patcher::inventory::Fingerprint;

fn entry(name: &str, content: &[u8]) -> ArchiveEntry {
    ArchiveEntry { name: name.to_string(), is_dir: name.ends_with('/'), content: content.to_vec() }
}

fn zip_of(files: &[(&str, &[u8])], method: zip::CompressionMethod) -> Vec<u8> {
    let mut writer = zip::ZipWriter::new(std::io::Cursor::new(Vec::new()));
    let options = zip::write::FileOptions::default().compression_method(method);
    for (name, content) in files {
        if name.ends_with('/') {
            writer.add_directory(*name, options).unwrap();
        } else {
            writer.start_file(*name, options).unwrap();
            writer.write_all(content).unwrap();
        }
    }
    writer.finish().unwrap().into_inner()
}

#[test]
fn prefix_stripping_omits_the_leading_directory() {
    let entries = vec![
        entry("owner-repo-abcdef1/", b""),
        entry("owner-repo-abcdef1/main.lua", b"print(1)"),
        entry("owner-repo-abcdef1/scripts/", b""),
        entry("owner-repo-abcdef1/scripts/a.lua", b"a"),
    ];
    let records = archive_records(entries).unwrap();
    assert_eq!(records.len(), 2);
    assert_eq!(records[0].relative_path, "main.lua");
    assert_eq!(records[1].relative_path, "scripts/a.lua");
    assert!(records[0].fingerprint.matches(&Fingerprint::Content(b"print(1)".to_vec())));
    assert!(records[1].fingerprint.matches(&Fingerprint::Content(b"a".to_vec())));
}

#[test]
fn entry_equal_to_the_prefix_is_dropped() {
    let entries = vec![
        ArchiveEntry { name: "owner-repo-abcdef1/".to_string(), is_dir: false, content: vec![] },
        entry("owner-repo-abcdef1/a.lua", b"a"),
    ];
    let records = archive_records(entries).unwrap();
    assert_eq!(records.len(), 1);
    assert_eq!(records[0].relative_path, "a.lua");
}

#[test]
fn hidden_and_foreign_entries_are_skipped() {
    let entries = vec![
        entry("root/a.lua", b"a"),
        entry("root/.gitignore", b"x"),
        entry("root/.github/workflows/ci.yml", b"y"),
        entry("elsewhere/b.lua", b"b"),
        entry("root/dir/.keep", b""),
        entry("rootless", b"c"),
    ];
    let records = archive_records(entries).unwrap();
    let paths: Vec<&str> = records.iter().map(|r| r.relative_path.as_str()).collect();
    assert_eq!(paths, vec!["a.lua", "dir/.keep"]);
}

#[test]
fn archive_without_leading_directory_is_a_format_error() {
    assert_eq!(archive_records(vec![]).unwrap_err(), SyncError::ArchiveFormatError);
    assert_eq!(
        archive_records(vec![entry("main.lua", b"x"), entry("root/a.lua", b"a")]).unwrap_err(),
        SyncError::ArchiveFormatError
    );
    assert!(matches!(archive_inventory(vec![]), Err(SyncError::ArchiveFormatError)));
}

#[test]
fn record_under_judges_one_entry() {
    assert!(record_under(entry("root/", b""), "root/").is_none());
    assert!(record_under(entry("root/.git/x", b""), "root/").is_none());
    assert!(record_under(entry("other/x", b""), "root/").is_none());
    let record = record_under(entry("root/x/y", b"z"), "root/").unwrap();
    assert_eq!(record.relative_path, "x/y");
    assert!(record.fingerprint.matches(&Fingerprint::Content(b"z".to_vec())));
}

#[test]
fn archive_inventory_holds_the_content_of_each_file() {
    let entries = vec![
        entry("r/", b""),
        entry("r/a.lua", b"one"),
        entry("r/b/c.lua", b"two"),
    ];
    let inventory = archive_inventory(entries).unwrap();
    assert_eq!(inventory.len(), 2);
    assert!(inventory.get("a.lua").unwrap().matches(&Fingerprint::Content(b"one".to_vec())));
    assert!(inventory.get("b/c.lua").unwrap().matches(&Fingerprint::Content(b"two".to_vec())));
    assert!(inventory.get("r/a.lua").is_none());
}

#[test]
fn read_archive_unpacks_deflated_entries_in_order() {
    let big: Vec<u8> = (0..20000u32).map(|i| (i % 7) as u8 + 65).collect();
    let data = zip_of(
        &[
            ("top-1234567/", b""),
            ("top-1234567/main.lua", b"print('hello')"),
            ("top-1234567/resources/big.bin", &big),
        ],
        zip::CompressionMethod::Deflated,
    );
    let entries = read_archive(data).unwrap();
    assert_eq!(entries.len(), 3);
    assert_eq!(entries[0].name, "top-1234567/");
    assert!(entries[0].is_dir);
    assert_eq!(entries[1].name, "top-1234567/main.lua");
    assert!(!entries[1].is_dir);
    assert_eq!(entries[1].content, b"print('hello')".to_vec());
    assert_eq!(entries[2].content, big);
}

#[test]
fn read_archive_reads_stored_entries() {
    let data = zip_of(&[("d/", b""), ("d/x.txt", b"stored")], zip::CompressionMethod::Stored);
    let entries = read_archive(data).unwrap();
    assert_eq!(entries.len(), 2);
    assert_eq!(entries[1].content, b"stored".to_vec());
}

#[test]
fn read_archive_of_an_empty_archive_has_no_entries() {
    let data = zip_of(&[], zip::CompressionMethod::Stored);
    assert!(read_archive(data).unwrap().is_empty());
}

#[test]
fn bytes_that_are_no_archive_are_a_protocol_error() {
    assert_eq!(
        read_archive(b"<html>not a zip</html>".to_vec()).unwrap_err(),
        SyncError::RemoteProtocolError
    );
    assert_eq!(read_archive(Vec::new()).unwrap_err(), SyncError::RemoteProtocolError);
}

#[test]
fn damaged_entry_is_a_protocol_error() {
    let content: Vec<u8> = (0..4000u32).map(|i| (i % 251) as u8).collect();
    let mut data = zip_of(&[("d/x.bin", &content)], zip::CompressionMethod::Stored);
    // The stored bytes follow the local header; flipping one breaks the checksum.
    let at = 30 + "d/x.bin".len() + 100;
    data[at] ^= 0xff;
    assert_eq!(read_archive(data).unwrap_err(), SyncError::RemoteProtocolError);
}

#[test]
fn entries_that_take_no_part_are_not_unpacked() {
    let hidden: Vec<u8> = (0..4000u32).map(|i| (i % 251) as u8).collect();
    let mut data = zip_of(
        &[("d/.hidden.bin", &hidden), ("d/kept.txt", b"kept"), ("elsewhere/x", b"other")],
        zip::CompressionMethod::Stored,
    );
    // Damage the hidden entry: it is never unpacked, so the archive still reads.
    let at = 30 + "d/.hidden.bin".len() + 100;
    data[at] ^= 0xff;
    let entries = read_archive(data).unwrap();
    assert_eq!(entries.len(), 3);
    assert_eq!(entries[0].name, "d/.hidden.bin");
    assert!(entries[0].content.is_empty());
    assert_eq!(entries[1].name, "d/kept.txt");
    assert_eq!(entries[1].content, b"kept".to_vec());
    assert_eq!(entries[2].name, "elsewhere/x");
    assert!(entries[2].content.is_empty());
    let records = archive_records(entries).unwrap();
    assert_eq!(records.len(), 1);
    assert_eq!(records[0].relative_path, "kept.txt");
}

#[test]
fn archive_without_leading_directory_is_listed_without_bytes() {
    let data = zip_of(&[("main.lua", b"x")], zip::CompressionMethod::Stored);
    let entries = read_archive(data).unwrap();
    assert_eq!(entries.len(), 1);
    assert_eq!(entries[0].name, "main.lua");
    assert!(entries[0].content.is_empty());
    assert_eq!(archive_records(entries).unwrap_err(), SyncError::ArchiveFormatError);
}

fn le16(out: &mut Vec<u8>, v: u16) {
    out.extend_from_slice(&v.to_le_bytes());
}

fn le32(out: &mut Vec<u8>, v: u32) {
    out.extend_from_slice(&v.to_le_bytes());
}

// One stored entry whose directory record carries the given extra field.
fn zip_with_extra(name: &str, content: &[u8], crc: u32, extra: &[u8]) -> Vec<u8> {
    let mut out = Vec::new();
    le32(&mut out, 0x0403_4b50);
    le16(&mut out, 20);
    le16(&mut out, 0);
    le16(&mut out, 0);
    le16(&mut out, 0);
    le16(&mut out, 0x21);
    le32(&mut out, crc);
    le32(&mut out, content.len() as u32);
    le32(&mut out, content.len() as u32);
    le16(&mut out, name.len() as u16);
    le16(&mut out, 0);
    out.extend_from_slice(name.as_bytes());
    out.extend_from_slice(content);
    let directory_at = out.len() as u32;
    le32(&mut out, 0x0201_4b50);
    le16(&mut out, 20);
    le16(&mut out, 20);
    le16(&mut out, 0);
    le16(&mut out, 0);
    le16(&mut out, 0);
    le16(&mut out, 0x21);
    le32(&mut out, crc);
    le32(&mut out, content.len() as u32);
    le32(&mut out, content.len() as u32);
    le16(&mut out, name.len() as u16);
    le16(&mut out, extra.len() as u16);
    le16(&mut out, 0);
    le16(&mut out, 0);
    le16(&mut out, 0);
    le32(&mut out, 0);
    le32(&mut out, 0);
    out.extend_from_slice(name.as_bytes());
    out.extend_from_slice(extra);
    let directory_len = out.len() as u32 - directory_at;
    le32(&mut out, 0x0605_4b50);
    le16(&mut out, 0);
    le16(&mut out, 0);
    le16(&mut out, 1);
    le16(&mut out, 1);
    le32(&mut out, directory_len);
    le32(&mut out, directory_at);
    le16(&mut out, 0);
    out
}

#[test]
fn hand_built_archive_reads_like_a_written_one() {
    // The checksum of "abc".
    let data = zip_with_extra("r/a.txt", b"abc", 0x3524_41c2, &[]);
    let entries = read_archive(data).unwrap();
    assert_eq!(entries.len(), 1);
    assert_eq!(entries[0].name, "r/a.txt");
    assert_eq!(entries[0].content, b"abc".to_vec());
}

#[test]
fn entry_marked_for_aes_without_encryption_is_a_protocol_error() {
    // Extra field 0x9901 of seven bytes: version 2, vendor "AE", strength 1, stored.
    let extra = [0x01, 0x99, 0x07, 0x00, 0x02, 0x00, 0x41, 0x45, 0x01, 0x00, 0x00];
    let data = zip_with_extra("r/a.txt", b"abc", 0x3524_41c2, &extra);
    assert_eq!(read_archive(data).unwrap_err(), SyncError::RemoteProtocolError);
}

#[test]
fn wanted_path_is_the_rest_of_a_file_name_under_the_root() {
    assert_eq!(wanted_path("r/a/b.lua", false, "r/"), Some("a/b.lua".to_string()));
    assert_eq!(wanted_path("r/gfx\\a.png", false, "r/"), Some("gfx/a.png".to_string()));
    assert_eq!(wanted_path("r/a/", true, "r/"), None);
    assert_eq!(wanted_path("r/", false, "r/"), None);
    assert_eq!(wanted_path("x/a", false, "r/"), None);
    assert_eq!(wanted_path("r/.git/x", false, "r/"), None);
    assert_eq!(wanted_path("r//a", false, "r/"), Some("/a".to_string()));
    assert_eq!(wanted_path("r/a/../b", false, "r/"), Some("a/../b".to_string()));
}

#[test]
fn file_with_backslashes_is_listed_under_its_normalised_path() {
    let entries = vec![
        entry("owner-repo-abcdef1/", b""),
        entry("owner-repo-abcdef1/gfx\\a.png", b"png"),
        entry("owner-repo-abcdef1/main.lua", b"main"),
    ];
    let inventory = archive_inventory(entries).unwrap();
    assert_eq!(inventory.len(), 2);
    assert!(inventory.get("gfx/a.png").unwrap().matches(&Fingerprint::Content(b"png".to_vec())));
    assert!(inventory.contains("main.lua"));
}

#[test]
fn archive_with_a_path_that_leaves_the_root_fails_the_run() {
    for bad in ["root/dir/../../outside.lua", "root//a.lua", "root/a//b", "root/a/..", "root/a\\..\\b"] {
        let entries = vec![
            entry("root/ok.lua", b"ok"),
            ArchiveEntry { name: bad.to_string(), is_dir: false, content: b"x".to_vec() },
        ];
        assert_eq!(archive_records(entries).unwrap_err(), SyncError::RemoteProtocolError);
    }
    // A directory entry of such a name takes no part and fails nothing.
    let entries = vec![entry("root/ok.lua", b"ok"), entry("root/a//", b"")];
    assert_eq!(archive_records(entries).unwrap().len(), 1);
}

#[test]
fn written_archive_with_backslash_name_is_read_and_listed() {
    let data = zip_of(
        &[("top/", b""), ("top/gfx\\a.png", b"png bytes")],
        zip::CompressionMethod::Deflated,
    );
    let entries = read_archive(data).unwrap();
    assert_eq!(entries[1].content, b"png bytes".to_vec());
    let inventory = archive_inventory(entries).unwrap();
    assert!(inventory
        .get("gfx/a.png")
        .unwrap()
        .matches(&Fingerprint::Content(b"png bytes".to_vec())));
}
