//! A run from its two sides to the changes to make.

use vstd::prelude::*;
use crate::apply::{actions_of, start, Applier};
use crate::archive::{
    archive_inventory, archive_listing, read_archive, unpacked, zip_listing, ArchiveEntry,
    EntryView,
};
use crate::error::SyncError;
use crate::github::{
    fetch_handle, handle_of, tree_inventory, tree_listing, GitHubClient, Request, TreeItem,
    TreeItemView, TreeResponse,
};
use crate::inventory::{
    holdings_of, listing_of, FileRecord, Fingerprint, FingerprintView, Inventory, RecordView,
};
use crate::local::{local_inventory, local_listing};
use crate::reconcile::{planned, reconcile, SyncPlan};

verus! {

/// Where the remote state comes from. One run uses one of the two.
#[derive(Debug)]
pub enum RemoteSource {
    /// The listed tree of the revision: each file is known by its hash,
    /// and content is fetched only for the files that change.
    Tree(TreeResponse),
    /// The entries of the revision's snapshot archive: each file is known
    /// by its content, which is at hand already.
    Archive(Vec<ArchiveEntry>),
}

/// The records of the remote side that a source gives, or the failure
/// that its listing ends in.
pub open spec fn remote_listing(source: RemoteSource) -> Result<Seq<RecordView>, SyncError> {
    match source {
        RemoteSource::Tree(tree) => tree_listing(tree.tree.deep_view()),
        RemoteSource::Archive(entries) => archive_listing(entries.deep_view()),
    }
}

/// What planning a run from two listings gives: the failure of the remote
/// listing, else that of the local one, else the records of both.
pub open spec fn both_sides(
    remote: Result<Seq<RecordView>, SyncError>,
    local: Result<Seq<RecordView>, SyncError>,
) -> Result<(Seq<RecordView>, Seq<RecordView>), SyncError> {
    match remote {
        Err(e) => Err(e),
        Ok(theirs) => match local {
            Err(e) => Err(e),
            Ok(ours) => Ok((theirs, ours)),
        },
    }
}

/// The tree entries that a source brings along for fetching content.
pub open spec fn remote_tree(source: RemoteSource) -> Seq<TreeItemView> {
    match source {
        RemoteSource::Tree(tree) => tree.tree.deep_view(),
        RemoteSource::Archive(_) => Seq::empty(),
    }
}

/// A planned run: the remote side, the plan, and the state of carrying it
/// out.
pub struct SyncRun {
    /// What the remote side holds.
    pub remote: Inventory,
    /// The tree entries, where the remote side was listed as a tree.
    pub tree: Vec<TreeItem>,
    /// What is to change.
    pub plan: SyncPlan,
    /// Which change comes next.
    pub applier: Applier,
}

/// The run is the one planned from the records of the two sides: it holds
/// the remote inventory and the tree, its plan is what the two sides
/// differ in, and no change has been made.
pub open spec fn is_planned(
    run: SyncRun,
    remote: Seq<RecordView>,
    local: Seq<RecordView>,
    tree: Seq<TreeItemView>,
) -> bool {
    &&& run.remote@ == holdings_of(remote)
    &&& run.remote.paths() == listing_of(remote)
    &&& run.tree.deep_view() == tree
    &&& run.plan@ == planned(
        listing_of(remote),
        holdings_of(remote),
        listing_of(local),
        holdings_of(local),
    )
    &&& run.applier@ == start(actions_of(run.plan@))
}

/// Where the content of a file to write comes from.
#[derive(Debug)]
pub enum Supply {
    /// The content is at hand.
    Content(Vec<u8>),
    /// The content has to be fetched with this request.
    Fetch(Request),
}

impl SyncRun {
    /// Says where the content for a path comes from: from the remote
    /// inventory where that holds the content, by a request to the path's
    /// fetch handle where it holds a hash.
    ///
    /// A path that the remote side does not hold, or holds by a hash
    /// without a handle to fetch it by, has no content to write: the
    /// remote side broke its word, which is a breach of protocol.
    pub fn supply(&self, client: &GitHubClient, path: &str) -> (supply: Result<Supply, SyncError>)
        ensures
            match supply {
                Ok(Supply::Content(c)) => self.remote@.contains_key(path@) && self.remote@[path@]
                    == FingerprintView::Content(c@),
                Ok(Supply::Fetch(request)) => self.remote@.contains_key(path@)
                    && self.remote@[path@] is Hash && handle_of(self.tree.deep_view(), path@)
                    == Some(request.url@) && request.raw,
                Err(e) => e == SyncError::RemoteProtocolError && (!self.remote@.contains_key(path@)
                    || (self.remote@[path@] is Hash && handle_of(self.tree.deep_view(), path@)
                    is None)),
            },
    {
        match self.remote.get(path) {
            None => Err(SyncError::RemoteProtocolError),
            Some(Fingerprint::Content(c)) => {
                let copy = c.clone();
                assert(copy@ =~= c@);
                Ok(Supply::Content(copy))
            },
            Some(Fingerprint::Hash(_)) => match fetch_handle(&self.tree, path) {
                Some(handle) => Ok(Supply::Fetch(client.blob_request(handle.as_str()))),
                None => Err(SyncError::RemoteProtocolError),
            },
        }
    }
}

/// Keeps one mod folder in step with one repository.
#[derive(Debug)]
pub struct Patcher {
    client: GitHubClient,
    mod_path: String,
}

impl Patcher {
    /// The repository that the folder follows.
    pub closed spec fn spec_client(self) -> GitHubClient {
        self.client
    }

    /// The folder that is kept in step.
    pub closed spec fn spec_mod_path(self) -> Seq<char> {
        self.mod_path@
    }

    /// A patcher for the folder `mod_path` and the repository of `client`.
    pub fn new(client: GitHubClient, mod_path: String) -> (patcher: Patcher)
        ensures
            patcher.spec_client() == client,
            patcher.spec_mod_path() == mod_path@,
    {
        Patcher { client, mod_path }
    }

    /// The repository that the folder follows.
    pub fn client(&self) -> (client: &GitHubClient)
        ensures
            *client == self.spec_client(),
    {
        &self.client
    }

    /// The folder that is kept in step.
    pub fn mod_path(&self) -> (path: &String)
        ensures
            path@ == self.spec_mod_path(),
    {
        &self.mod_path
    }

    /// Where a file of the given relative path stands on disk.
    pub fn target_path(&self, relative_path: &str) -> (target: String)
        ensures
            target@ == self.spec_mod_path() + "/"@ + relative_path@,
    {
        let mut target = self.mod_path.clone();
        target.append("/");
        target.append(relative_path);
        target
    }

    /// Plans a run from the remote source and the files found locally.
    ///
    /// The remote inventory is built from the source, the local one from
    /// what was found; the plan is what the two differ in; the run begins
    /// with no change made. Nothing is planned where a listing fails: an
    /// archive without a leading directory is a format error, a remote
    /// path that names no place below the root a breach of protocol, a
    /// found path of that kind a local failure.
    ///
    /// The found files have to be known in the way of the source: by hash
    /// for a tree, by content for an archive. A hash never matches a
    /// content, so a run that mixed the two would overwrite every file.
    pub fn plan(&self, source: RemoteSource, found: Vec<FileRecord>) -> (r: Result<
        SyncRun,
        SyncError,
    >)
        ensures
            match r {
                Ok(run) => both_sides(remote_listing(source), local_listing(found.deep_view()))
                    matches Ok(sides) && is_planned(run, sides.0, sides.1, remote_tree(source)),
                Err(e) => both_sides(remote_listing(source), local_listing(found.deep_view()))
                    == Err::<(Seq<RecordView>, Seq<RecordView>), SyncError>(e),
            },
    {
        let (remote, tree) = match source {
            RemoteSource::Tree(tree) => match tree_inventory(&tree) {
                Ok(remote) => (remote, tree.tree),
                Err(e) => {
                    return Err(e);
                },
            },
            RemoteSource::Archive(entries) => match archive_inventory(entries) {
                Ok(remote) => {
                    let tree: Vec<TreeItem> = Vec::new();
                    assert(tree.deep_view() =~= Seq::<TreeItemView>::empty());
                    (remote, tree)
                },
                Err(e) => {
                    return Err(e);
                },
            },
        };
        let local = match local_inventory(found) {
            Ok(local) => local,
            Err(e) => {
                return Err(e);
            },
        };
        let plan = reconcile(&remote, &local);
        let applier = Applier::new(&plan);
        Ok(SyncRun { remote, tree, plan, applier })
    }

    /// Plans a run from a downloaded snapshot archive and the files found
    /// locally.
    ///
    /// Bytes that are no archive, or an entry of it that cannot be read,
    /// fail as a breach of protocol. Otherwise the run is planned as `plan`
    /// does from the archive's entries.
    pub fn sync(&self, archive: Vec<u8>, found: Vec<FileRecord>) -> (r: Result<SyncRun, SyncError>)
        ensures
            match r {
                Ok(run) => unpacked(zip_listing(archive@)) matches Ok(entries) && both_sides(
                    archive_listing(entries),
                    local_listing(found.deep_view()),
                ) matches Ok(sides) && is_planned(
                    run,
                    sides.0,
                    sides.1,
                    Seq::<TreeItemView>::empty(),
                ),
                Err(e) => match unpacked(zip_listing(archive@)) {
                    Ok(entries) => both_sides(
                        archive_listing(entries),
                        local_listing(found.deep_view()),
                    ) == Err::<(Seq<RecordView>, Seq<RecordView>), SyncError>(e),
                    Err(early) => e == early,
                },
            },
    {
        match read_archive(archive) {
            Ok(entries) => self.plan(RemoteSource::Archive(entries), found),
            Err(e) => Err(e),
        }
    }
}

} // verus!
