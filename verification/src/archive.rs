//! The snapshot archive: from its bytes to the remote inventory.
//!
//! The host packs a revision into one zip archive whose entries all stand
//! under one leading directory, named after the repository and the
//! revision. That directory is no part of the files' paths: it is read off
//! the first entry and taken off every name.

use vstd::prelude::*;
use crate::error::SyncError;
use crate::inventory::{
    all_clean, all_clean_paths, holdings_of, listing_of, FileRecord, Fingerprint, FingerprintView,
    Inventory, RecordView,
};
use crate::paths::{archive_root, candidate, candidate_path, leading_dir, strip_root, stripped};
use crate::seq_facts::lemma_filter_push;

verus! {

/// `zip::ZipArchive`: an opened archive over a reader. Nothing of its
/// inside is known here; what it holds is named by `zip_entries`.
#[verifier::external_type_specification]
#[verifier::external_body]
#[verifier::reject_recursive_types(R)]
pub struct ExZipArchive<R>(zip::ZipArchive<R>);

/// `std::io::Cursor`: the reader over bytes in memory that the archive is
/// opened on.
#[verifier::external_type_specification]
#[verifier::external_body]
#[verifier::reject_recursive_types(T)]
pub struct ExCursor<T>(std::io::Cursor<T>);

/// `zip::result::ZipError`: why the crate could not read. It is carried
/// out of the wrappers and turned into a failure of the library at once.
#[verifier::external_type_specification]
#[verifier::external_body]
pub struct ExZipError(zip::result::ZipError);

/// One entry of an archive, read out in full.
#[derive(Debug)]
pub struct ArchiveEntry {
    /// The entry's name, with its leading directory.
    pub name: String,
    /// Whether the entry stands for a directory.
    pub is_dir: bool,
    /// The entry's bytes, unpacked.
    pub content: Vec<u8>,
}

/// An entry as a mathematical value.
pub struct EntryView {
    pub name: Seq<char>,
    pub is_dir: bool,
    pub content: Seq<u8>,
}

impl View for ArchiveEntry {
    type V = EntryView;

    open spec fn view(&self) -> EntryView {
        EntryView { name: self.name@, is_dir: self.is_dir, content: self.content@ }
    }
}

impl DeepView for ArchiveEntry {
    type V = EntryView;

    open spec fn deep_view(&self) -> EntryView {
        self@
    }
}

/// What an opened archive holds: for each entry in the order of its
/// directory the name, whether it is a directory, and the unpacked bytes.
/// An entry that cannot be opened is `None`; one that opens but cannot be
/// unpacked has `None` for its bytes.
pub uninterp spec fn zip_entries(archive: zip::ZipArchive<std::io::Cursor<Vec<u8>>>) -> Seq<
    Option<(Seq<char>, bool, Option<Seq<u8>>)>,
>;

/// What the bytes of an archive hold, as the `zip` crate reads them; `None`
/// where it finds no archive in them.
pub uninterp spec fn zip_listing(data: Seq<u8>) -> Option<
    Seq<Option<(Seq<char>, bool, Option<Seq<u8>>)>>,
>;

/// `zip::ZipArchive::new` over the bytes in memory. It succeeds exactly on
/// bytes that hold an archive, and what the opened archive holds depends on
/// the bytes alone.
#[verifier::external_body]
fn zip_open(data: Vec<u8>) -> (r: Result<
    zip::ZipArchive<std::io::Cursor<Vec<u8>>>,
    zip::result::ZipError,
>)
    ensures
        match r {
            Ok(archive) => zip_listing(data@) == Some(zip_entries(archive)),
            Err(_) => zip_listing(data@) is None,
        },
{
    zip::ZipArchive::new(std::io::Cursor::new(data))
}

/// `zip::ZipArchive::len`: the number of entries.
#[verifier::external_body]
fn zip_len(archive: &zip::ZipArchive<std::io::Cursor<Vec<u8>>>) -> (n: usize)
    ensures
        n == zip_entries(*archive).len(),
{
    archive.len()
}

/// `zip::ZipArchive::by_index_decrypt` with the empty password, then the
/// entry's `name` and `is_dir`; nothing is unpacked. This way of opening
/// hands a refused entry back as a value, where `by_index` would stop the
/// program on it. Opening leaves what the archive holds unchanged; an entry
/// that is refused, or that gives an error, is one that cannot be opened.
#[verifier::external_body]
fn zip_entry_head(archive: &mut zip::ZipArchive<std::io::Cursor<Vec<u8>>>, i: usize) -> (r: Result<
    Option<(String, bool)>,
    zip::result::ZipError,
>)
    requires
        i < zip_entries(*old(archive)).len(),
    ensures
        zip_entries(*final(archive)) == zip_entries(*old(archive)),
        match r {
            Ok(Some(head)) => zip_entries(*old(archive))[i as int] matches Some(e) && e.0
                == head.0@ && e.1 == head.1,
            Ok(None) => zip_entries(*old(archive))[i as int] is None,
            Err(_) => zip_entries(*old(archive))[i as int] is None,
        },
{
    match archive.by_index_decrypt(i, &[])? {
        Ok(file) => Ok(Some((file.name().to_string(), file.is_dir()))),
        Err(_) => Ok(None),
    }
}

/// `zip::ZipArchive::by_index_decrypt` with the empty password, then all of
/// the entry's bytes by `read_to_end`. Reading leaves what the archive
/// holds unchanged; without bytes come back the entries that cannot be
/// opened and those that cannot be unpacked.
#[verifier::external_body]
fn zip_entry_bytes(archive: &mut zip::ZipArchive<std::io::Cursor<Vec<u8>>>, i: usize) -> (r: Result<
    Option<Vec<u8>>,
    zip::result::ZipError,
>)
    requires
        i < zip_entries(*old(archive)).len(),
    ensures
        zip_entries(*final(archive)) == zip_entries(*old(archive)),
        match r {
            Ok(Some(bytes)) => zip_entries(*old(archive))[i as int] matches Some(e) && e.2
                == Some(bytes@),
            Ok(None) => zip_entries(*old(archive))[i as int] is None,
            Err(_) => zip_entries(*old(archive))[i as int] matches Some(e) ==> e.2 is None,
        },
{
    let mut content = Vec::new();
    match archive.by_index_decrypt(i, &[])? {
        Ok(mut file) => {
            std::io::Read::read_to_end(&mut file, &mut content)?;
            Ok(Some(content))
        },
        Err(_) => Ok(None),
    }
}

/// The path that an entry's name gives under a leading directory: none for
/// a directory, for a name that does not stand under it, for the directory
/// itself, and for a hidden path; else the rest of the name, with `/`
/// between its segments.
pub open spec fn path_under(name: Seq<char>, is_dir: bool, root: Seq<char>) -> Option<Seq<char>> {
    if is_dir {
        None
    } else {
        match stripped(name, root) {
            None => None,
            Some(rest) => candidate(rest),
        }
    }
}

/// The entry is one whose bytes a run needs: the archive has a leading
/// directory and the entry's name gives a path under it.
pub open spec fn is_wanted(name: Seq<char>, is_dir: bool, root: Option<Seq<char>>) -> bool {
    root matches Some(r) && path_under(name, is_dir, r) is Some
}

/// The leading directory of what an archive holds: that of its first
/// entry's name.
pub open spec fn root_held(held: Seq<Option<(Seq<char>, bool, Option<Seq<u8>>)>>) -> Option<
    Seq<char>,
> {
    if held.len() > 0 {
        match held[0] {
            Some(first) => leading_dir(first.0),
            None => None,
        }
    } else {
        None
    }
}

/// The entry that is read for what the archive holds of it: its name and
/// kind, with its bytes where a run needs them and with none where not.
pub open spec fn entry_of(read: (Seq<char>, bool, Option<Seq<u8>>), root: Option<Seq<char>>)
    -> EntryView {
    EntryView {
        name: read.0,
        is_dir: read.1,
        content: if is_wanted(read.0, read.1, root) && read.2 is Some {
            read.2->0
        } else {
            Seq::empty()
        },
    }
}

/// The entry can be opened, and can be unpacked where a run needs its
/// bytes.
pub open spec fn is_read(entry: Option<(Seq<char>, bool, Option<Seq<u8>>)>, root: Option<Seq<char>>)
    -> bool {
    match entry {
        Some(e) => is_wanted(e.0, e.1, root) ==> e.2 is Some,
        None => false,
    }
}

/// Each entry can be opened, and each whose bytes a run needs can be
/// unpacked.
pub open spec fn is_readable(held: Seq<Option<(Seq<char>, bool, Option<Seq<u8>>)>>) -> bool {
    forall|i: int| 0 <= i < held.len() ==> is_read(#[trigger] held[i], root_held(held))
}

/// What reading an archive gives: its entries in order, each with its
/// bytes where a run needs them, where the bytes are an archive that can
/// be read so far; a breach of protocol otherwise.
pub open spec fn unpacked(listing: Option<Seq<Option<(Seq<char>, bool, Option<Seq<u8>>)>>>)
    -> Result<Seq<EntryView>, SyncError> {
    match listing {
        None => Err(SyncError::RemoteProtocolError),
        Some(held) => if is_readable(held) {
            Ok(Seq::new(held.len(), |i: int| entry_of(held[i]->0, root_held(held))))
        } else {
            Err(SyncError::RemoteProtocolError)
        },
    }
}

/// The path that an entry's name gives under a leading directory.
pub fn wanted_path(name: &str, is_dir: bool, root: &str) -> (path: Option<String>)
    ensures
        match path {
            Some(p) => path_under(name@, is_dir, root@) == Some(p@),
            None => path_under(name@, is_dir, root@) is None,
        },
{
    if is_dir {
        return None;
    }
    match strip_root(name, root) {
        None => None,
        Some(rest) => candidate_path(rest.as_str()),
    }
}

/// Reads the entries of a downloaded archive: the name and kind of each,
/// and the bytes of those that a run needs. The others are not unpacked
/// and come with no bytes.
///
/// Bytes that are no archive, an entry that cannot be opened, or a needed
/// entry that cannot be unpacked, are a breach of protocol: the host sent
/// something other than a snapshot.
pub fn read_archive(data: Vec<u8>) -> (r: Result<Vec<ArchiveEntry>, SyncError>)
    ensures
        match r {
            Ok(entries) => unpacked(zip_listing(data@)) == Ok::<Seq<EntryView>, SyncError>(
                entries.deep_view(),
            ),
            Err(e) => unpacked(zip_listing(data@)) == Err::<Seq<EntryView>, SyncError>(e),
        },
{
    let mut archive = match zip_open(data) {
        Ok(archive) => archive,
        Err(_) => {
            return Err(SyncError::RemoteProtocolError);
        },
    };
    let ghost held = zip_entries(archive);
    let count = zip_len(&archive);
    let mut entries: Vec<ArchiveEntry> = Vec::new();
    if count == 0 {
        assert(entries.deep_view() =~= Seq::new(
            held.len(),
            |i: int| entry_of(held[i]->0, root_held(held)),
        ));
        return Ok(entries);
    }
    let root: Option<String> = match zip_entry_head(&mut archive, 0) {
        Ok(Some(head)) => archive_root(head.0.as_str()),
        _ => {
            assert(held[0] is None);
            return Err(SyncError::RemoteProtocolError);
        },
    };
    let ghost lead = root_held(held);
    let mut i: usize = 0;
    while i < count
        invariant
            i <= count == held.len(),
            zip_entries(archive) == held,
            zip_listing(data@) == Some(held),
            lead == root_held(held),
            match root {
                Some(r) => lead == Some(r@),
                None => lead is None,
            },
            entries.deep_view().len() == i,
            forall|j: int| 0 <= j < i ==> is_read(#[trigger] held[j], lead),
            forall|j: int| 0 <= j < i ==> entries.deep_view()[j] == entry_of(held[j]->0, lead),
        decreases count - i,
    {
        let ghost before = entries.deep_view();
        let (name, is_dir) = match zip_entry_head(&mut archive, i) {
            Ok(Some(head)) => head,
            _ => {
                assert(held[i as int] is None);
                return Err(SyncError::RemoteProtocolError);
            },
        };
        let wanted = match &root {
            Some(r) => wanted_path(name.as_str(), is_dir, r.as_str()).is_some(),
            None => false,
        };
        assert(wanted == is_wanted(name@, is_dir, lead));
        let content: Vec<u8> = if wanted {
            match zip_entry_bytes(&mut archive, i) {
                Ok(Some(bytes)) => bytes,
                _ => {
                    assert(held[i as int] matches Some(e) && e.2 is None);
                    return Err(SyncError::RemoteProtocolError);
                },
            }
        } else {
            Vec::new()
        };
        entries.push(ArchiveEntry { name, is_dir, content });
        assert(entries.deep_view() =~= before.push(entry_of(held[i as int]->0, lead)));
        i += 1;
    }
    assert(entries.deep_view() =~= Seq::new(held.len(), |i: int| entry_of(held[i]->0, lead)));
    Ok(entries)
}

/// The leading directory of an archive: that of its first entry's name.
pub open spec fn root_of(entries: Seq<EntryView>) -> Option<Seq<char>> {
    if entries.len() == 0 {
        None
    } else {
        leading_dir(entries[0].name)
    }
}

/// The record that an entry gives under a leading directory: the path
/// that its name gives there, known by its content.
pub open spec fn file_under(entry: EntryView, root: Seq<char>) -> Option<RecordView> {
    match path_under(entry.name, entry.is_dir, root) {
        None => None,
        Some(rest) => Some(
            RecordView { relative_path: rest, fingerprint: FingerprintView::Content(entry.content) },
        ),
    }
}

/// The test for giving a record under a leading directory, as a value.
pub open spec fn kept_under(root: Seq<char>) -> spec_fn(EntryView) -> bool {
    |entry: EntryView| file_under(entry, root) is Some
}

/// The records of the entries that give one, in the order of the archive.
pub open spec fn archive_files(entries: Seq<EntryView>, root: Seq<char>) -> Seq<RecordView> {
    entries.filter(kept_under(root)).map_values(|entry: EntryView| file_under(entry, root)->0)
}

/// The records of an archive. One without a leading directory fails as a
/// format error. One with a file whose path has an empty segment or a
/// segment `..` fails as a breach of protocol: such a file can be neither
/// written below the root nor left out.
pub open spec fn archive_listing(entries: Seq<EntryView>) -> Result<Seq<RecordView>, SyncError> {
    match root_of(entries) {
        None => Err(SyncError::ArchiveFormatError),
        Some(root) => if all_clean(archive_files(entries, root)) {
            Ok(archive_files(entries, root))
        } else {
            Err(SyncError::RemoteProtocolError)
        },
    }
}

/// The record of one entry under a leading directory.
pub fn record_under(entry: ArchiveEntry, root: &str) -> (record: Option<FileRecord>)
    ensures
        match record {
            Some(r) => file_under(entry@, root@) == Some(r@),
            None => file_under(entry@, root@) is None,
        },
{
    match wanted_path(entry.name.as_str(), entry.is_dir, root) {
        None => None,
        Some(rest) => Some(
            FileRecord { relative_path: rest, fingerprint: Fingerprint::Content(entry.content) },
        ),
    }
}

/// The records of an archive's files, with the leading directory taken off
/// their names.
///
/// An archive without entries, or whose first entry's name holds no
/// separator, has no leading directory: that is a format error. A file
/// whose path has an empty segment or a segment `..` is a breach of
/// protocol.
pub fn archive_records(entries: Vec<ArchiveEntry>) -> (r: Result<Vec<FileRecord>, SyncError>)
    ensures
        match r {
            Ok(records) => archive_listing(entries.deep_view()) == Ok::<
                Seq<RecordView>,
                SyncError,
            >(records.deep_view()),
            Err(e) => archive_listing(entries.deep_view()) == Err::<Seq<RecordView>, SyncError>(e),
        },
{
    if entries.len() == 0 {
        return Err(SyncError::ArchiveFormatError);
    }
    let root = match archive_root(entries[0].name.as_str()) {
        Some(root) => root,
        None => {
            return Err(SyncError::ArchiveFormatError);
        },
    };
    let ghost raw = entries@;
    let ghost all = entries.deep_view();
    assert(root_of(all) == Some(root@));
    let mut records: Vec<FileRecord> = Vec::new();
    proof {
        reveal(Seq::filter);
        assert(all.take(0) =~= Seq::<EntryView>::empty());
        assert(records.deep_view() =~= archive_files(all.take(0), root@));
    }
    for entry in it: entries
        invariant
            it.seq() == raw,
            all.len() == raw.len(),
            forall|i: int| 0 <= i < raw.len() ==> all[i] == raw[i]@,
            records.deep_view() == archive_files(all.take(it.index() as int), root@),
    {
        let ghost k = it.index() as int;
        let ghost before = records.deep_view();
        proof {
            assert(entry@ == all[k]);
            assert(all.take(k + 1) =~= all.take(k).push(entry@));
            lemma_filter_push(all.take(k), entry@, kept_under(root@));
        }
        match record_under(entry, root.as_str()) {
            Some(record) => {
                records.push(record);
                proof {
                    assert(records.deep_view() =~= before.push(file_under(all[k], root@)->0));
                    assert(archive_files(all.take(k + 1), root@) =~= archive_files(
                        all.take(k),
                        root@,
                    ).push(file_under(all[k], root@)->0));
                }
            },
            None => {},
        }
    }
    assert(all.take(all.len() as int) =~= all);
    if all_clean_paths(&records) {
        Ok(records)
    } else {
        Err(SyncError::RemoteProtocolError)
    }
}

/// The remote inventory of an archive: each file under the leading
/// directory, known by its content.
pub fn archive_inventory(entries: Vec<ArchiveEntry>) -> (r: Result<Inventory, SyncError>)
    ensures
        match r {
            Ok(inventory) => archive_listing(entries.deep_view()) matches Ok(records)
                && inventory@ == holdings_of(records) && inventory.paths() == listing_of(records),
            Err(e) => archive_listing(entries.deep_view()) == Err::<Seq<RecordView>, SyncError>(e),
        },
{
    match archive_records(entries) {
        Ok(records) => Ok(Inventory::from_records(records)),
        Err(e) => Err(e),
    }
}

} // verus!
