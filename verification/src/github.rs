//! The remote host: what to ask it, and what its answers mean.
//!
//! Nothing here talks to the network. The library says where a request goes
//! and judges the answer that the caller brings back.

use vstd::prelude::*;
use crate::error::SyncError;
use crate::inventory::{
    all_clean, all_clean_paths, holdings_of, listing_of, FileRecord, Fingerprint, FingerprintView,
    Inventory, RecordView,
};
use crate::paths::{candidate, candidate_path, normalized};
use crate::seq_facts::lemma_filter_push;
use crate::text::same_text;

verus! {

/// One entry of a revision's tree, as the host lists it.
#[derive(Debug)]
pub struct TreeItem {
    /// Where the entry stands in the repository.
    pub path: String,
    /// `blob` for a file, `tree` for a directory.
    pub item_type: String,
    /// The host's content hash of the entry.
    pub sha: String,
    /// Where the entry's content can be fetched.
    pub url: String,
}

/// The host's answer to a request for a tree.
#[derive(Debug)]
pub struct TreeResponse {
    pub tree: Vec<TreeItem>,
}

/// A tree entry as a mathematical value.
pub struct TreeItemView {
    pub path: Seq<char>,
    pub item_type: Seq<char>,
    pub sha: Seq<char>,
    pub url: Seq<char>,
}

impl View for TreeItem {
    type V = TreeItemView;

    open spec fn view(&self) -> TreeItemView {
        TreeItemView { path: self.path@, item_type: self.item_type@, sha: self.sha@, url: self.url@ }
    }
}

impl DeepView for TreeItem {
    type V = TreeItemView;

    open spec fn deep_view(&self) -> TreeItemView {
        self@
    }
}

/// The entry is a file that takes part in a run: its kind is `blob`, and
/// its path is neither empty nor hidden.
pub open spec fn takes_part(item: TreeItemView) -> bool {
    item.item_type == "blob"@ && candidate(item.path) is Some
}

/// The test for taking part, as a value.
pub open spec fn part_test() -> spec_fn(TreeItemView) -> bool {
    |item: TreeItemView| takes_part(item)
}

/// The record that stands for an entry: its path with `/` between its
/// segments, known by its hash.
pub open spec fn record_of(item: TreeItemView) -> RecordView {
    RecordView { relative_path: normalized(item.path), fingerprint: FingerprintView::Hash(item.sha) }
}

/// The records of the entries that take part, in the order of the tree.
pub open spec fn tree_files(items: Seq<TreeItemView>) -> Seq<RecordView> {
    items.filter(part_test()).map_values(|item: TreeItemView| record_of(item))
}

/// The records of a tree. A tree with a file whose path has an empty
/// segment or a segment `..` fails as a breach of protocol: such a file
/// can be neither written below the root nor left out.
pub open spec fn tree_listing(items: Seq<TreeItemView>) -> Result<Seq<RecordView>, SyncError> {
    if all_clean(tree_files(items)) {
        Ok(tree_files(items))
    } else {
        Err(SyncError::RemoteProtocolError)
    }
}

/// Where the content of a path can be fetched: the address of the last
/// entry that takes part and stands for that path.
pub open spec fn handle_of(items: Seq<TreeItemView>, path: Seq<char>) -> Option<Seq<char>>
    decreases items.len(),
{
    if items.len() == 0 {
        None
    } else if takes_part(items.last()) && normalized(items.last().path) == path {
        Some(items.last().url)
    } else {
        handle_of(items.drop_last(), path)
    }
}

/// The path that an entry stands for, where it is a file that takes part
/// in a run.
pub fn file_entry_path(item: &TreeItem) -> (path: Option<String>)
    ensures
        match path {
            Some(p) => takes_part(item@) && p@ == normalized(item@.path),
            None => !takes_part(item@),
        },
{
    if same_text(item.item_type.as_str(), "blob") {
        candidate_path(item.path.as_str())
    } else {
        None
    }
}

/// The records of a tree: one for each entry that takes part. A file whose
/// path has an empty segment or a segment `..` is a breach of protocol.
pub fn tree_records(items: &Vec<TreeItem>) -> (r: Result<Vec<FileRecord>, SyncError>)
    ensures
        match r {
            Ok(records) => tree_listing(items.deep_view()) == Ok::<Seq<RecordView>, SyncError>(
                records.deep_view(),
            ),
            Err(e) => tree_listing(items.deep_view()) == Err::<Seq<RecordView>, SyncError>(e),
        },
{
    let ghost all = items.deep_view();
    let mut records: Vec<FileRecord> = Vec::new();
    let mut i: usize = 0;
    proof {
        reveal(Seq::filter);
        assert(all.take(0) =~= Seq::<TreeItemView>::empty());
        assert(records.deep_view() =~= tree_files(all.take(0)));
    }
    while i < items.len()
        invariant
            i <= items.len(),
            all == items.deep_view(),
            records.deep_view() == tree_files(all.take(i as int)),
        decreases items.len() - i,
    {
        let item = &items[i];
        let ghost before = records.deep_view();
        proof {
            assert(all.take(i + 1) =~= all.take(i as int).push(item@));
            lemma_filter_push(all.take(i as int), item@, part_test());
        }
        match file_entry_path(item) {
            Some(path) => {
                records.push(
                    FileRecord { relative_path: path, fingerprint: Fingerprint::Hash(item.sha.clone()) },
                );
                assert(records.deep_view() =~= before.push(record_of(item@)));
                assert(tree_files(all.take(i + 1)) =~= tree_files(all.take(i as int)).push(
                    record_of(item@),
                ));
            },
            None => {},
        }
        i += 1;
    }
    assert(all.take(i as int) =~= all);
    if all_clean_paths(&records) {
        Ok(records)
    } else {
        Err(SyncError::RemoteProtocolError)
    }
}

/// The remote inventory of a tree: each file that takes part, known by the
/// host's content hash. No content is fetched for it.
pub fn tree_inventory(tree: &TreeResponse) -> (r: Result<Inventory, SyncError>)
    ensures
        match r {
            Ok(inventory) => tree_listing(tree.tree.deep_view()) matches Ok(records)
                && inventory@ == holdings_of(records) && inventory.paths() == listing_of(records),
            Err(e) => tree_listing(tree.tree.deep_view()) == Err::<Seq<RecordView>, SyncError>(e),
        },
{
    match tree_records(&tree.tree) {
        Ok(records) => Ok(Inventory::from_records(records)),
        Err(e) => Err(e),
    }
}

/// Where to fetch the content of a path of the tree.
pub fn fetch_handle(items: &Vec<TreeItem>, path: &str) -> (handle: Option<String>)
    ensures
        match handle {
            Some(url) => handle_of(items.deep_view(), path@) == Some(url@),
            None => handle_of(items.deep_view(), path@) is None,
        },
{
    let ghost all = items.deep_view();
    let mut i: usize = items.len();
    assert(all.take(i as int) =~= all);
    while i > 0
        invariant
            i <= items.len(),
            all == items.deep_view(),
            handle_of(all, path@) == handle_of(all.take(i as int), path@),
        decreases i,
    {
        let item = &items[i - 1];
        proof {
            assert(all.take(i as int).last() == item@);
            assert(all.take(i as int).drop_last() =~= all.take(i - 1));
        }
        let stands_for = match file_entry_path(item) {
            Some(p) => same_text(p.as_str(), path),
            None => false,
        };
        if stands_for {
            return Some(item.url.clone());
        }
        i -= 1;
    }
    None
}

/// `needle` stands in `hay` at position `at`.
pub open spec fn occurs_at(hay: Seq<u8>, needle: Seq<u8>, at: int) -> bool {
    0 <= at && at + needle.len() <= hay.len() && hay.subrange(at, at + needle.len()) == needle
}

/// `needle` stands somewhere in `hay`.
pub open spec fn contains_text(hay: Seq<u8>, needle: Seq<u8>) -> bool {
    exists|at: int| occurs_at(hay, needle, at)
}

/// Whether `needle` stands in `hay` at position `at`.
fn found_at(hay: &[u8], needle: &[u8], at: usize) -> (yes: bool)
    requires
        at + needle@.len() <= hay@.len(),
    ensures
        yes == occurs_at(hay@, needle@, at as int),
{
    let total: usize = hay.len();
    let mut k: usize = 0;
    while k < needle.len()
        invariant
            k <= needle.len(),
            total == hay@.len(),
            at + needle@.len() <= hay@.len(),
            forall|j: int| 0 <= j < k ==> hay@[at + j] == needle@[j],
        decreases needle.len() - k,
    {
        if hay[at + k] != needle[k] {
            assert(hay@.subrange(at as int, at + needle@.len())[k as int] != needle@[k as int]);
            return false;
        }
        k += 1;
    }
    assert(hay@.subrange(at as int, at + needle@.len()) =~= needle@);
    true
}

/// Whether `needle` stands somewhere in `hay`.
pub fn contains_bytes(hay: &[u8], needle: &[u8]) -> (yes: bool)
    ensures
        yes == contains_text(hay@, needle@),
{
    if needle.len() > hay.len() {
        return false;
    }
    let last: usize = hay.len() - needle.len();
    let mut at: usize = 0;
    loop
        invariant
            at <= last,
            last + needle@.len() == hay@.len(),
            forall|j: int| 0 <= j < at ==> !occurs_at(hay@, needle@, j),
        decreases last - at,
    {
        if found_at(hay, needle, at) {
            return true;
        }
        if at == last {
            return false;
        }
        at += 1;
    }
}

/// The words by which the host says that too many requests were made.
pub open spec fn rate_limit_marker() -> Seq<u8> {
    seq![114u8, 97u8, 116u8, 101u8, 32u8, 108u8, 105u8, 109u8, 105u8, 116u8]
}

/// What an answer of the host means: a status from 200 to 299 is a
/// success; status 403 with the rate-limit words in its body says that too
/// many requests were made; any other answer is a breach of protocol.
pub open spec fn verdict(status: u16, body: Seq<u8>) -> Result<(), SyncError> {
    if 200 <= status < 300 {
        Ok(())
    } else if status == 403 && contains_text(body, rate_limit_marker()) {
        Err(SyncError::RateLimited)
    } else {
        Err(SyncError::RemoteProtocolError)
    }
}

/// Judges an answer of the host by its status and body.
pub fn check_reply(status: u16, body: &[u8]) -> (r: Result<(), SyncError>)
    ensures
        r == verdict(status, body@),
{
    if 200 <= status && status < 300 {
        return Ok(());
    }
    if status == 403 {
        let mut marker: Vec<u8> = Vec::new();
        marker.push(114u8);
        marker.push(97u8);
        marker.push(116u8);
        marker.push(101u8);
        marker.push(32u8);
        marker.push(108u8);
        marker.push(105u8);
        marker.push(109u8);
        marker.push(105u8);
        marker.push(116u8);
        assert(marker@ =~= rate_limit_marker());
        if contains_bytes(body, marker.as_slice()) {
            return Err(SyncError::RateLimited);
        }
    }
    Err(SyncError::RemoteProtocolError)
}

/// How a request ended.
#[derive(Debug)]
pub enum Reply {
    /// No answer came: the host could not be reached.
    Unreachable,
    /// The host answered.
    Answer { status: u16, body: Vec<u8> },
}

/// What a reply is worth: the body of a success, or the failure it stands
/// for.
pub open spec fn worth(reply: Reply) -> Result<Seq<u8>, SyncError> {
    match reply {
        Reply::Unreachable => Err(SyncError::RemoteUnavailable),
        Reply::Answer { status, body } => match verdict(status, body@) {
            Ok(_) => Ok(body@),
            Err(e) => Err(e),
        },
    }
}

/// Takes the body out of a successful reply, and names the failure of any
/// other.
pub fn accept_reply(reply: Reply) -> (r: Result<Vec<u8>, SyncError>)
    ensures
        match r {
            Ok(body) => worth(reply) == Ok::<Seq<u8>, SyncError>(body@),
            Err(e) => worth(reply) == Err::<Seq<u8>, SyncError>(e),
        },
{
    match reply {
        Reply::Unreachable => Err(SyncError::RemoteUnavailable),
        Reply::Answer { status, body } => match check_reply(status, body.as_slice()) {
            Ok(_) => Ok(body),
            Err(e) => Err(e),
        },
    }
}

/// Takes what was decoded from the body of a successful reply. A body that
/// could not be decoded is not what was asked for: a breach of protocol.
pub fn accept_decoded<T>(decoded: Option<T>) -> (r: Result<T, SyncError>)
    ensures
        match decoded {
            Some(value) => r == Ok::<T, SyncError>(value),
            None => r == Err::<T, SyncError>(SyncError::RemoteProtocolError),
        },
{
    match decoded {
        Some(value) => Ok(value),
        None => Err(SyncError::RemoteProtocolError),
    }
}

/// A request to the host.
#[derive(Debug)]
pub struct Request {
    /// Where it goes.
    pub url: String,
    /// Whether the raw content is asked for rather than its description.
    pub raw: bool,
}

/// The address of a revision's tree, listed through all directories.
pub open spec fn tree_url_of(owner: Seq<char>, repo: Seq<char>, branch: Seq<char>) -> Seq<char> {
    "https://api.github.com/repos/"@ + owner + "/"@ + repo + "/git/trees/"@ + branch
        + "?recursive=1"@
}

/// The address of a revision's snapshot archive.
pub open spec fn zipball_url_of(owner: Seq<char>, repo: Seq<char>, branch: Seq<char>) -> Seq<
    char,
> {
    "https://api.github.com/repos/"@ + owner + "/"@ + repo + "/zipball/"@ + branch
}

/// The address of a revision's metadata document.
pub open spec fn metadata_url_of(owner: Seq<char>, repo: Seq<char>, branch: Seq<char>) -> Seq<
    char,
> {
    "https://raw.githubusercontent.com/"@ + owner + "/"@ + repo + "/"@ + branch
        + "/metadata.xml"@
}

/// A repository on the host.
#[derive(Clone, Debug)]
pub struct GitHubClient {
    owner: String,
    repo: String,
}

impl GitHubClient {
    /// The owner's name.
    pub closed spec fn owner(self) -> Seq<char> {
        self.owner@
    }

    /// The repository's name.
    pub closed spec fn repo(self) -> Seq<char> {
        self.repo@
    }

    /// The repository `repo` of `owner`.
    pub fn new(owner: &str, repo: &str) -> (client: GitHubClient)
        ensures
            client.owner() == owner@,
            client.repo() == repo@,
    {
        GitHubClient { owner: owner.to_owned(), repo: repo.to_owned() }
    }

    /// The name under which requests are made.
    pub fn user_agent() -> (agent: String)
        ensures
            agent@ == "cb_patcher"@,
    {
        "cb_patcher".to_owned()
    }

    /// The media type that asks for raw content.
    pub fn raw_media_type() -> (media: String)
        ensures
            media@ == "application/vnd.github.v3.raw"@,
    {
        "application/vnd.github.v3.raw".to_owned()
    }

    /// The request for the tree of a revision.
    pub fn tree_request(&self, branch: &str) -> (request: Request)
        ensures
            request.url@ == tree_url_of(self.owner(), self.repo(), branch@),
            !request.raw,
    {
        let mut url = "https://api.github.com/repos/".to_owned();
        url.append(self.owner.as_str());
        url.append("/");
        url.append(self.repo.as_str());
        url.append("/git/trees/");
        url.append(branch);
        url.append("?recursive=1");
        Request { url, raw: false }
    }

    /// The request for the content behind a fetch handle.
    pub fn blob_request(&self, handle: &str) -> (request: Request)
        ensures
            request.url@ == handle@,
            request.raw,
    {
        Request { url: handle.to_owned(), raw: true }
    }

    /// The request for the snapshot archive of a revision.
    pub fn zipball_request(&self, branch: &str) -> (request: Request)
        ensures
            request.url@ == zipball_url_of(self.owner(), self.repo(), branch@),
            !request.raw,
    {
        let mut url = "https://api.github.com/repos/".to_owned();
        url.append(self.owner.as_str());
        url.append("/");
        url.append(self.repo.as_str());
        url.append("/zipball/");
        url.append(branch);
        Request { url, raw: false }
    }

    /// The request for the metadata document of a revision.
    pub fn metadata_request(&self, branch: &str) -> (request: Request)
        ensures
            request.url@ == metadata_url_of(self.owner(), self.repo(), branch@),
            !request.raw,
    {
        let mut url = "https://raw.githubusercontent.com/".to_owned();
        url.append(self.owner.as_str());
        url.append("/");
        url.append(self.repo.as_str());
        url.append("/");
        url.append(branch);
        url.append("/metadata.xml");
        Request { url, raw: false }
    }
}

} // verus!
