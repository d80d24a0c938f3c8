//! The local side: from the files found under the mod root to an inventory.
//!
//! The caller walks the directory tree, regular files only, without
//! following symbolic links, and hands over what it found with each path
//! relative to the root. The rules are applied here: separators are
//! brought to `/`, and a path whose first segment begins with a dot takes
//! no part. A path with an empty segment or a segment `..` names no place
//! below the root; a walk hands none over, and the listing fails on one.

use vstd::prelude::*;
use crate::hashing::{blob_fingerprint, calculate_github_sha1};
use crate::error::SyncError;
use crate::inventory::{
    all_clean, all_clean_paths, holdings_of, listing_of, FileRecord, Inventory, RecordView,
};
use crate::paths::{candidate, candidate_path, is_clean, is_clean_path, normalized};
use crate::seq_facts::lemma_filter_push;

verus! {

/// A file found under the mod root, read in full.
#[derive(Debug)]
pub struct LocalFile {
    /// The path below the root, as the file system writes it.
    pub path: String,
    /// The file's bytes.
    pub content: Vec<u8>,
}

/// A found file as a mathematical value.
pub struct LocalFileView {
    pub path: Seq<char>,
    pub content: Seq<u8>,
}

impl View for LocalFile {
    type V = LocalFileView;

    open spec fn view(&self) -> LocalFileView {
        LocalFileView { path: self.path@, content: self.content@ }
    }
}

impl DeepView for LocalFile {
    type V = LocalFileView;

    open spec fn deep_view(&self) -> LocalFileView {
        self@
    }
}

/// A path takes part in a run: it is neither empty nor hidden.
pub open spec fn is_visible(path: Seq<char>) -> bool {
    candidate(path) is Some
}

/// The test for a found file's taking part, as a value.
pub open spec fn visible_file() -> spec_fn(LocalFileView) -> bool {
    |file: LocalFileView| is_visible(file.path)
}

/// The test for a found record's taking part, as a value.
pub open spec fn visible_record() -> spec_fn(RecordView) -> bool {
    |record: RecordView| is_visible(record.relative_path)
}

/// The path and blob fingerprint of each found file that takes part, in
/// the order in which they were found.
pub open spec fn scanned(files: Seq<LocalFileView>) -> Seq<(Seq<char>, Seq<char>)> {
    files.filter(visible_file()).map_values(
        |file: LocalFileView| (normalized(file.path), blob_fingerprint(file.content)),
    )
}

/// The found records that take part, with their paths in the form of the
/// remote side.
pub open spec fn local_files(found: Seq<RecordView>) -> Seq<RecordView> {
    found.filter(visible_record()).map_values(
        |record: RecordView|
            RecordView {
                relative_path: normalized(record.relative_path),
                fingerprint: record.fingerprint,
            },
    )
}

/// The records of the local side, or the failure of a found path that
/// names no place below the root.
pub open spec fn local_listing(found: Seq<RecordView>) -> Result<Seq<RecordView>, SyncError> {
    if all_clean(local_files(found)) {
        Ok(local_files(found))
    } else {
        Err(SyncError::LocalIoError)
    }
}

/// The first of each pair names a place below the root.
pub open spec fn pairs_clean(pairs: Seq<(Seq<char>, Seq<char>)>) -> bool {
    forall|i: int| 0 <= i < pairs.len() ==> is_clean((#[trigger] pairs[i]).0)
}

/// The scanned pairs, or the failure of a found path that names no place
/// below the root.
pub open spec fn scan_listing(files: Seq<LocalFileView>) -> Result<
    Seq<(Seq<char>, Seq<char>)>,
    SyncError,
> {
    if pairs_clean(scanned(files)) {
        Ok(scanned(files))
    } else {
        Err(SyncError::LocalIoError)
    }
}

/// The pairs as mathematical values.
pub open spec fn pairs_view(pairs: Seq<(String, String)>) -> Seq<(Seq<char>, Seq<char>)> {
    Seq::new(pairs.len(), |i: int| (pairs[i].0@, pairs[i].1@))
}

/// Lists the found files that take part, each with its path in the form of
/// the remote side and its blob fingerprint. A found path that names no
/// place below the root is a local failure.
pub fn scan_local_files(files: &Vec<LocalFile>) -> (r: Result<Vec<(String, String)>, SyncError>)
    ensures
        match r {
            Ok(pairs) => scan_listing(files.deep_view()) == Ok::<
                Seq<(Seq<char>, Seq<char>)>,
                SyncError,
            >(pairs_view(pairs@)),
            Err(e) => scan_listing(files.deep_view()) == Err::<
                Seq<(Seq<char>, Seq<char>)>,
                SyncError,
            >(e),
        },
{
    let ghost all = files.deep_view();
    let mut pairs: Vec<(String, String)> = Vec::new();
    let mut clean = true;
    let mut i: usize = 0;
    proof {
        reveal(Seq::filter);
        assert(all.take(0) =~= Seq::<LocalFileView>::empty());
        assert(pairs_view(pairs@) =~= scanned(all.take(0)));
    }
    while i < files.len()
        invariant
            i <= files.len(),
            all == files.deep_view(),
            pairs_view(pairs@) == scanned(all.take(i as int)),
            clean == pairs_clean(pairs_view(pairs@)),
        decreases files.len() - i,
    {
        let file = &files[i];
        let ghost before = pairs_view(pairs@);
        proof {
            assert(all.take(i + 1) =~= all.take(i as int).push(file@));
            lemma_filter_push(all.take(i as int), file@, visible_file());
        }
        match candidate_path(file.path.as_str()) {
            Some(path) => {
                let path_clean = is_clean_path(path.as_str());
                let sha = calculate_github_sha1(file.content.as_slice());
                pairs.push((path, sha));
                proof {
                    let pair = (normalized(file@.path), blob_fingerprint(file@.content));
                    assert(pairs_view(pairs@) =~= before.push(pair));
                    assert(scanned(all.take(i + 1)) =~= scanned(all.take(i as int)).push(pair));
                    assert(pairs_clean(before.push(pair)) == (pairs_clean(before) && is_clean(
                        pair.0,
                    ))) by {
                        let after = before.push(pair);
                        if pairs_clean(after) {
                            assert(is_clean(after[before.len() as int].0));
                            assert forall|j: int| 0 <= j < before.len() implies is_clean(
                                (#[trigger] before[j]).0,
                            ) by {
                                assert(after[j] == before[j]);
                            }
                        }
                    }
                }
                clean = clean && path_clean;
            },
            None => {},
        }
        i += 1;
    }
    assert(all.take(i as int) =~= all);
    if clean {
        Ok(pairs)
    } else {
        Err(SyncError::LocalIoError)
    }
}

/// The found records that take part, with their paths brought to the form
/// of the remote side. A found path that names no place below the root is
/// a local failure.
pub fn local_records(found: Vec<FileRecord>) -> (r: Result<Vec<FileRecord>, SyncError>)
    ensures
        match r {
            Ok(records) => local_listing(found.deep_view()) == Ok::<Seq<RecordView>, SyncError>(
                records.deep_view(),
            ),
            Err(e) => local_listing(found.deep_view()) == Err::<Seq<RecordView>, SyncError>(e),
        },
{
    let ghost raw = found@;
    let ghost all = found.deep_view();
    let mut records: Vec<FileRecord> = Vec::new();
    proof {
        reveal(Seq::filter);
        assert(all.take(0) =~= Seq::<RecordView>::empty());
        assert(records.deep_view() =~= local_files(all.take(0)));
    }
    for record in it: found
        invariant
            it.seq() == raw,
            all.len() == raw.len(),
            forall|i: int| 0 <= i < raw.len() ==> all[i] == raw[i]@,
            records.deep_view() == local_files(all.take(it.index() as int)),
    {
        let ghost k = it.index() as int;
        let ghost before = records.deep_view();
        proof {
            assert(record@ == all[k]);
            assert(all.take(k + 1) =~= all.take(k).push(record@));
            lemma_filter_push(all.take(k), record@, visible_record());
        }
        let FileRecord { relative_path, fingerprint } = record;
        match candidate_path(relative_path.as_str()) {
            Some(path) => {
                records.push(FileRecord { relative_path: path, fingerprint });
                proof {
                    let kept = RecordView {
                        relative_path: normalized(all[k].relative_path),
                        fingerprint: all[k].fingerprint,
                    };
                    assert(records.deep_view() =~= before.push(kept));
                    assert(local_files(all.take(k + 1)) =~= local_files(all.take(k)).push(kept));
                }
            },
            None => {},
        }
    }
    assert(all.take(all.len() as int) =~= all);
    if all_clean_paths(&records) {
        Ok(records)
    } else {
        Err(SyncError::LocalIoError)
    }
}

/// The local inventory of what was found under the mod root.
pub fn local_inventory(found: Vec<FileRecord>) -> (r: Result<Inventory, SyncError>)
    ensures
        match r {
            Ok(inventory) => local_listing(found.deep_view()) matches Ok(records) && inventory@
                == holdings_of(records) && inventory.paths() == listing_of(records),
            Err(e) => local_listing(found.deep_view()) == Err::<Seq<RecordView>, SyncError>(e),
        },
{
    match local_records(found) {
        Ok(records) => Ok(Inventory::from_records(records)),
        Err(e) => Err(e),
    }
}

} // verus!
