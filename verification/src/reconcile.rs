//! From two inventories to a plan of what to change.

use vstd::prelude::*;
use crate::inventory::{lists, FingerprintView, Inventory};
use crate::paths::{file_name, file_name_of, is_noise_marker, is_noise_name};
use crate::seq_facts::{lemma_filter_members, lemma_filter_push};

verus! {

/// What one side holds, as a mathematical value.
pub type Holdings = Map<Seq<char>, FingerprintView>;

/// The path is to be created: the remote side has it, the local side not.
pub open spec fn is_addition(remote: Holdings, local: Holdings, path: Seq<char>) -> bool {
    remote.contains_key(path) && !local.contains_key(path)
}

/// The path is to be overwritten: both sides have it, with different
/// fingerprints.
pub open spec fn is_update(remote: Holdings, local: Holdings, path: Seq<char>) -> bool {
    remote.contains_key(path) && local.contains_key(path) && remote[path] != local[path]
}

/// The path is to be removed: only the local side has it, and its file name
/// is no noise marker.
pub open spec fn is_deletion(remote: Holdings, local: Holdings, path: Seq<char>) -> bool {
    local.contains_key(path) && !remote.contains_key(path) && !is_noise_marker(file_name(path))
}

/// The path is left alone: both sides have it with one fingerprint, or only
/// the local side has it under a noise marker's name.
pub open spec fn is_untouched(remote: Holdings, local: Holdings, path: Seq<char>) -> bool {
    local.contains_key(path) && if remote.contains_key(path) {
        remote[path] == local[path]
    } else {
        is_noise_marker(file_name(path))
    }
}

/// The test for an addition, as a value.
pub open spec fn addition_test(remote: Holdings, local: Holdings) -> spec_fn(Seq<char>) -> bool {
    |p: Seq<char>| is_addition(remote, local, p)
}

/// The test for an update, as a value.
pub open spec fn update_test(remote: Holdings, local: Holdings) -> spec_fn(Seq<char>) -> bool {
    |p: Seq<char>| is_update(remote, local, p)
}

/// The test for a deletion, as a value.
pub open spec fn deletion_test(remote: Holdings, local: Holdings) -> spec_fn(Seq<char>) -> bool {
    |p: Seq<char>| is_deletion(remote, local, p)
}

/// The paths among `paths` that are to be created, in their order.
pub open spec fn additions_among(paths: Seq<Seq<char>>, remote: Holdings, local: Holdings) -> Seq<
    Seq<char>,
> {
    paths.filter(addition_test(remote, local))
}

/// The paths among `paths` that are to be overwritten, in their order.
pub open spec fn updates_among(paths: Seq<Seq<char>>, remote: Holdings, local: Holdings) -> Seq<
    Seq<char>,
> {
    paths.filter(update_test(remote, local))
}

/// The paths among `paths` that are to be removed, in their order.
pub open spec fn deletions_among(paths: Seq<Seq<char>>, remote: Holdings, local: Holdings) -> Seq<
    Seq<char>,
> {
    paths.filter(deletion_test(remote, local))
}

/// What a run has to do to bring the local side to the remote one.
#[derive(Debug)]
pub struct SyncPlan {
    /// Paths to create.
    pub additions: Vec<String>,
    /// Paths to overwrite.
    pub updates: Vec<String>,
    /// Paths to remove.
    pub deletions: Vec<String>,
}

/// A plan as a mathematical value.
pub struct PlanView {
    pub additions: Seq<Seq<char>>,
    pub updates: Seq<Seq<char>>,
    pub deletions: Seq<Seq<char>>,
}

impl View for SyncPlan {
    type V = PlanView;

    open spec fn view(&self) -> PlanView {
        PlanView {
            additions: self.additions.deep_view(),
            updates: self.updates.deep_view(),
            deletions: self.deletions.deep_view(),
        }
    }
}

impl PlanView {
    /// Nothing is to be done.
    pub open spec fn is_empty(self) -> bool {
        self.additions.len() == 0 && self.updates.len() == 0 && self.deletions.len() == 0
    }
}

/// The plan for two sides whose paths are listed in the given orders:
/// additions and updates in the order of the remote listing, deletions in
/// the order of the local one.
pub open spec fn planned(
    remote_paths: Seq<Seq<char>>,
    remote: Holdings,
    local_paths: Seq<Seq<char>>,
    local: Holdings,
) -> PlanView {
    PlanView {
        additions: additions_among(remote_paths, remote, local),
        updates: updates_among(remote_paths, remote, local),
        deletions: deletions_among(local_paths, remote, local),
    }
}

/// The three lists of a plan hold the additions, the updates and the
/// deletions, all of them and nothing else, each once.
pub proof fn lemma_plan_members(
    remote_paths: Seq<Seq<char>>,
    remote: Holdings,
    local_paths: Seq<Seq<char>>,
    local: Holdings,
)
    requires
        lists(remote_paths, remote),
        lists(local_paths, local),
    ensures
        ({
            let plan = planned(remote_paths, remote, local_paths, local);
            &&& forall|p: Seq<char>| plan.additions.contains(p) <==> is_addition(remote, local, p)
            &&& forall|p: Seq<char>| plan.updates.contains(p) <==> is_update(remote, local, p)
            &&& forall|p: Seq<char>| plan.deletions.contains(p) <==> is_deletion(remote, local, p)
            &&& plan.additions.no_duplicates()
            &&& plan.updates.no_duplicates()
            &&& plan.deletions.no_duplicates()
        }),
{
    let plan = planned(remote_paths, remote, local_paths, local);
    lemma_filter_members(remote_paths, addition_test(remote, local));
    lemma_filter_members(remote_paths, update_test(remote, local));
    lemma_filter_members(local_paths, deletion_test(remote, local));
    assert forall|p: Seq<char>| plan.additions.contains(p) <==> is_addition(remote, local, p) by {
        let test = addition_test(remote, local);
        assert(test(p) == is_addition(remote, local, p));
        assert(plan.additions == remote_paths.filter(test));
        assert(remote_paths.filter(test).contains(p) <==> remote_paths.contains(p) && test(p));
        assert(remote.contains_key(p) <==> remote_paths.contains(p));
    }
    assert forall|p: Seq<char>| plan.updates.contains(p) <==> is_update(remote, local, p) by {
        let test = update_test(remote, local);
        assert(test(p) == is_update(remote, local, p));
        assert(plan.updates == remote_paths.filter(test));
        assert(remote_paths.filter(test).contains(p) <==> remote_paths.contains(p) && test(p));
        assert(remote.contains_key(p) <==> remote_paths.contains(p));
    }
    assert forall|p: Seq<char>| plan.deletions.contains(p) <==> is_deletion(remote, local, p) by {
        let test = deletion_test(remote, local);
        assert(test(p) == is_deletion(remote, local, p));
        assert(plan.deletions == local_paths.filter(test));
        assert(local_paths.filter(test).contains(p) <==> local_paths.contains(p) && test(p));
        assert(local.contains_key(p) <==> local_paths.contains(p));
    }
}

impl SyncPlan {
    /// Whether the plan touches no file.
    pub fn is_empty(&self) -> (empty: bool)
        ensures
            empty == self@.is_empty(),
    {
        self.additions.len() == 0 && self.updates.len() == 0 && self.deletions.len() == 0
    }
}

/// Holds the two inventories against each other.
///
/// A remote path that the local side lacks is an addition; one that both
/// have with different fingerprints is an update; a local path that the
/// remote side lacks is a deletion, unless its file name is a noise marker.
/// Additions and updates come in the order of the remote inventory,
/// deletions in the order of the local one. Each path stands in at most one
/// of the three lists, and in each list at most once.
pub fn reconcile(remote: &Inventory, local: &Inventory) -> (plan: SyncPlan)
    ensures
        plan@ == planned(remote.paths(), remote@, local.paths(), local@),
        lists(remote.paths(), remote@),
        lists(local.paths(), local@),
        forall|p: Seq<char>| plan@.additions.contains(p) <==> is_addition(remote@, local@, p),
        forall|p: Seq<char>| plan@.updates.contains(p) <==> is_update(remote@, local@, p),
        forall|p: Seq<char>| plan@.deletions.contains(p) <==> is_deletion(remote@, local@, p),
        plan@.additions.no_duplicates(),
        plan@.updates.no_duplicates(),
        plan@.deletions.no_duplicates(),
{
    let mut additions: Vec<String> = Vec::new();
    let mut updates: Vec<String> = Vec::new();
    let mut deletions: Vec<String> = Vec::new();
    let remote_len = remote.len();
    let local_len = local.len();
    let mut i: usize = 0;
    assert(remote.paths().take(0) =~= Seq::<Seq<char>>::empty());
    assert(local.paths().take(0) =~= Seq::<Seq<char>>::empty());
    proof {
        reveal(Seq::filter);
    }
    while i < remote_len
        invariant
            i <= remote_len == remote.paths().len(),
            additions.deep_view() == additions_among(remote.paths().take(i as int), remote@, local@),
            updates.deep_view() == updates_among(remote.paths().take(i as int), remote@, local@),
        decreases remote_len - i,
    {
        let record = remote.record_at(i);
        proof {
            let seen = remote.paths().take(i as int);
            let path = remote.paths()[i as int];
            assert(remote.paths().take(i + 1) =~= seen.push(path));
            lemma_filter_push(seen, path, addition_test(remote@, local@));
            lemma_filter_push(seen, path, update_test(remote@, local@));
        }
        let ghost before_additions = additions.deep_view();
        let ghost before_updates = updates.deep_view();
        match local.get(record.relative_path.as_str()) {
            None => {
                additions.push(record.relative_path.clone());
                assert(additions.deep_view() =~= before_additions.push(record.relative_path@));
            },
            Some(mine) => {
                if !mine.matches(&record.fingerprint) {
                    updates.push(record.relative_path.clone());
                    assert(updates.deep_view() =~= before_updates.push(record.relative_path@));
                }
            },
        }
        i += 1;
    }
    let mut j: usize = 0;
    while j < local_len
        invariant
            j <= local_len == local.paths().len(),
            deletions.deep_view() == deletions_among(local.paths().take(j as int), remote@, local@),
        decreases local_len - j,
    {
        let record = local.record_at(j);
        proof {
            let seen = local.paths().take(j as int);
            let path = local.paths()[j as int];
            assert(local.paths().take(j + 1) =~= seen.push(path));
            lemma_filter_push(seen, path, deletion_test(remote@, local@));
        }
        let ghost before = deletions.deep_view();
        if !remote.contains(record.relative_path.as_str()) {
            let name = file_name_of(record.relative_path.as_str());
            if !is_noise_name(name.as_str()) {
                deletions.push(record.relative_path.clone());
                assert(deletions.deep_view() =~= before.push(record.relative_path@));
            }
        }
        j += 1;
    }
    proof {
        assert(remote.paths().take(remote_len as int) =~= remote.paths());
        assert(local.paths().take(local_len as int) =~= local.paths());
        lemma_plan_members(remote.paths(), remote@, local.paths(), local@);
    }
    SyncPlan { additions, updates, deletions }
}

} // verus!
