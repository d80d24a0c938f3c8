//! What holds of every run: the theorems that the parts are built to meet.
//!
//! A run is described here as its effect on what the local side holds. Each
//! change of a plan is a step on that value; the theorems say where the
//! steps of a whole plan lead.

use vstd::prelude::*;
use crate::apply::{
    actions_of, all_ok, changes, events_of, pending, start, state_after, step, tagged, ActionView,
    Category, EventView, RunView, Status,
};
use crate::archive::{
    archive_files, archive_listing, file_under, kept_under, root_of, EntryView,
};
use crate::error::SyncError;
use crate::github::{part_test, takes_part, tree_files, tree_listing, TreeItemView};
use crate::paths::{
    candidate, file_name, is_clean, is_noise_marker, is_relative, normalized, separator_free,
};
use crate::reconcile::{
    deletion_test, is_addition, is_deletion, is_untouched, is_update, lemma_plan_members,
    planned, Holdings,
};
use crate::inventory::{
    holdings_of, listed, listing_of, lists, FingerprintView, RecordView,
};
use crate::local::{local_files, local_listing, visible_record};
use crate::seq_facts::{lemma_contains_last, lemma_filter_members};

verus! {

/// What the local side holds after one change: a written file has the
/// content of the source, a removed file is gone.
pub open spec fn effect(state: Holdings, action: ActionView, source: Holdings) -> Holdings {
    match action.category {
        Category::Deleted => state.remove(action.path),
        _ => state.insert(action.path, source[action.path]),
    }
}

/// What the local side holds after the changes, made in order.
pub open spec fn carried_out(state: Holdings, actions: Seq<ActionView>, source: Holdings) -> Holdings
    decreases actions.len(),
{
    if actions.len() == 0 {
        state
    } else {
        effect(carried_out(state, actions.drop_last(), source), actions.last(), source)
    }
}

/// What the local side holds after a run that made every change of the
/// plan for the two sides.
pub open spec fn synced(
    remote_paths: Seq<Seq<char>>,
    remote: Holdings,
    local_paths: Seq<Seq<char>>,
    local: Holdings,
) -> Holdings {
    carried_out(local, actions_of(planned(remote_paths, remote, local_paths, local)), remote)
}

/// Changes made one series after another are the changes of the joined
/// series.
pub proof fn lemma_carried_out_in_turn(
    state: Holdings,
    first: Seq<ActionView>,
    second: Seq<ActionView>,
    source: Holdings,
)
    ensures
        carried_out(state, first + second, source) == carried_out(
            carried_out(state, first, source),
            second,
            source,
        ),
    decreases second.len(),
{
    if second.len() == 0 {
        assert(first + second =~= first);
    } else {
        assert((first + second).drop_last() =~= first + second.drop_last());
        assert((first + second).last() == second.last());
        lemma_carried_out_in_turn(state, first, second.drop_last(), source);
    }
}

/// After writing the paths, each of them holds the source's content and
/// every other path is as it was.
pub proof fn lemma_writes(
    state: Holdings,
    paths: Seq<Seq<char>>,
    category: Category,
    source: Holdings,
)
    requires
        category != Category::Deleted,
    ensures
        forall|p: Seq<char>| #[trigger]
            carried_out(state, tagged(paths, category), source).contains_key(p) <==> (
            state.contains_key(p) || paths.contains(p)),
        forall|p: Seq<char>|
            paths.contains(p) ==> #[trigger] carried_out(state, tagged(paths, category), source)[p]
                == source[p],
        forall|p: Seq<char>|
            !paths.contains(p) ==> #[trigger] carried_out(state, tagged(paths, category), source)[p]
                == state[p],
    decreases paths.len(),
{
    let actions = tagged(paths, category);
    if paths.len() == 0 {
    } else {
        let front = paths.drop_last();
        let last = paths.last();
        lemma_writes(state, front, category, source);
        assert(actions.drop_last() =~= tagged(front, category));
        assert(actions.last() == ActionView { category, path: last });
        let before = carried_out(state, tagged(front, category), source);
        let after = carried_out(state, actions, source);
        assert(after == before.insert(last, source[last]));
        assert forall|p: Seq<char>| paths.contains(p) <==> (front.contains(p) || p == last) by {
            lemma_contains_last(paths, p);
        }
        assert forall|p: Seq<char>| #[trigger]
            after.contains_key(p) <==> (state.contains_key(p) || paths.contains(p)) by {
            assert(before.contains_key(p) <==> (state.contains_key(p) || front.contains(p)));
        }
        assert forall|p: Seq<char>| paths.contains(p) implies #[trigger] after[p] == source[p] by {
            if p != last {
                assert(front.contains(p));
                assert(before[p] == source[p]);
            }
        }
        assert forall|p: Seq<char>| !paths.contains(p) implies #[trigger] after[p] == state[p] by {
            assert(!front.contains(p));
            assert(before[p] == state[p]);
        }
    }
}

/// After removing the paths, none of them is held and every other path is
/// as it was.
pub proof fn lemma_removals(state: Holdings, paths: Seq<Seq<char>>, source: Holdings)
    ensures
        forall|p: Seq<char>| #[trigger]
            carried_out(state, tagged(paths, Category::Deleted), source).contains_key(p) <==> (
            state.contains_key(p) && !paths.contains(p)),
        forall|p: Seq<char>|
            !paths.contains(p) ==> #[trigger] carried_out(
                state,
                tagged(paths, Category::Deleted),
                source,
            )[p] == state[p],
    decreases paths.len(),
{
    let actions = tagged(paths, Category::Deleted);
    if paths.len() == 0 {
    } else {
        let front = paths.drop_last();
        let last = paths.last();
        lemma_removals(state, front, source);
        assert(actions.drop_last() =~= tagged(front, Category::Deleted));
        assert(actions.last() == ActionView { category: Category::Deleted, path: last });
        let before = carried_out(state, tagged(front, Category::Deleted), source);
        let after = carried_out(state, actions, source);
        assert(after == before.remove(last));
        assert forall|p: Seq<char>| paths.contains(p) <==> (front.contains(p) || p == last) by {
            lemma_contains_last(paths, p);
        }
        assert forall|p: Seq<char>| #[trigger]
            after.contains_key(p) <==> (state.contains_key(p) && !paths.contains(p)) by {
            assert(before.contains_key(p) <==> (state.contains_key(p) && !front.contains(p)));
        }
        assert forall|p: Seq<char>| !paths.contains(p) implies #[trigger] after[p] == state[p] by {
            assert(!front.contains(p));
            assert(before[p] == state[p]);
        }
    }
}

/// What a finished run leaves: every remote path with the remote
/// fingerprint, every local path under a noise marker's name that the
/// remote side lacks as it was, and nothing else.
pub proof fn lemma_synced_holdings(
    remote_paths: Seq<Seq<char>>,
    remote: Holdings,
    local_paths: Seq<Seq<char>>,
    local: Holdings,
)
    requires
        lists(remote_paths, remote),
        lists(local_paths, local),
    ensures
        ({
            let after = synced(remote_paths, remote, local_paths, local);
            &&& forall|p: Seq<char>| #[trigger]
                after.contains_key(p) <==> (remote.contains_key(p) || (local.contains_key(p)
                    && is_noise_marker(file_name(p))))
            &&& forall|p: Seq<char>|
                remote.contains_key(p) ==> #[trigger] after[p] == remote[p]
            &&& forall|p: Seq<char>|
                after.contains_key(p) && !remote.contains_key(p) ==> #[trigger] after[p]
                    == local[p]
        }),
{
    let plan = planned(remote_paths, remote, local_paths, local);
    lemma_plan_members(remote_paths, remote, local_paths, local);
    let added = tagged(plan.additions, Category::New);
    let updated = tagged(plan.updates, Category::Updated);
    let removed = tagged(plan.deletions, Category::Deleted);
    let one = carried_out(local, added, remote);
    let two = carried_out(one, updated, remote);
    let three = carried_out(two, removed, remote);
    lemma_carried_out_in_turn(local, added, updated, remote);
    lemma_carried_out_in_turn(local, added + updated, removed, remote);
    assert(synced(remote_paths, remote, local_paths, local) == three);
    lemma_writes(local, plan.additions, Category::New, remote);
    lemma_writes(one, plan.updates, Category::Updated, remote);
    lemma_removals(two, plan.deletions, remote);
    assert forall|p: Seq<char>| #[trigger]
        three.contains_key(p) <==> (remote.contains_key(p) || (local.contains_key(p)
            && is_noise_marker(file_name(p)))) by {
        assert(two.contains_key(p) <==> (one.contains_key(p) || plan.updates.contains(p)));
        assert(one.contains_key(p) <==> (local.contains_key(p) || plan.additions.contains(p)));
        assert(plan.additions.contains(p) <==> is_addition(remote, local, p));
        assert(plan.updates.contains(p) <==> is_update(remote, local, p));
        assert(plan.deletions.contains(p) <==> is_deletion(remote, local, p));
    }
    assert forall|p: Seq<char>| remote.contains_key(p) implies #[trigger] three[p] == remote[p] by {
        assert(plan.additions.contains(p) <==> is_addition(remote, local, p));
        assert(plan.updates.contains(p) <==> is_update(remote, local, p));
        assert(plan.deletions.contains(p) <==> is_deletion(remote, local, p));
        assert(three[p] == two[p]);
        if plan.updates.contains(p) {
            assert(two[p] == remote[p]);
        } else {
            assert(two[p] == one[p]);
            if plan.additions.contains(p) {
                assert(one[p] == remote[p]);
            } else {
                assert(one[p] == local[p]);
            }
        }
    }
    assert forall|p: Seq<char>|
        three.contains_key(p) && !remote.contains_key(p) implies #[trigger] three[p]
        == local[p] by {
        assert(plan.additions.contains(p) <==> is_addition(remote, local, p));
        assert(plan.updates.contains(p) <==> is_update(remote, local, p));
        assert(plan.deletions.contains(p) <==> is_deletion(remote, local, p));
        assert(three[p] == two[p]);
        assert(two[p] == one[p]);
        assert(one[p] == local[p]);
    }
}

/// A finished run brings the local side to the remote one: every remote path
/// is held with the remote fingerprint, and whatever else is held bears the
/// name of a noise marker.
pub proof fn theorem_convergence(
    remote_paths: Seq<Seq<char>>,
    remote: Holdings,
    local_paths: Seq<Seq<char>>,
    local: Holdings,
)
    requires
        lists(remote_paths, remote),
        lists(local_paths, local),
    ensures
        ({
            let after = synced(remote_paths, remote, local_paths, local);
            &&& forall|p: Seq<char>| #[trigger]
                remote.contains_key(p) ==> after.contains_key(p) && after[p] == remote[p]
            &&& forall|p: Seq<char>| #[trigger]
                after.contains_key(p) && !remote.contains_key(p) ==> is_noise_marker(file_name(p))
        }),
{
    lemma_synced_holdings(remote_paths, remote, local_paths, local);
}

/// A plan is empty exactly when no path is an addition, an update or a
/// deletion.
pub proof fn lemma_empty_plan(
    remote_paths: Seq<Seq<char>>,
    remote: Holdings,
    local_paths: Seq<Seq<char>>,
    local: Holdings,
)
    requires
        lists(remote_paths, remote),
        lists(local_paths, local),
    ensures
        planned(remote_paths, remote, local_paths, local).is_empty() <==> (forall|p: Seq<char>|
            !is_addition(remote, local, p) && !is_update(remote, local, p) && !is_deletion(
                remote,
                local,
                p,
            )),
{
    let plan = planned(remote_paths, remote, local_paths, local);
    lemma_plan_members(remote_paths, remote, local_paths, local);
    if plan.is_empty() {
        assert forall|p: Seq<char>|
            !is_addition(remote, local, p) && !is_update(remote, local, p) && !is_deletion(
                remote,
                local,
                p,
            ) by {
            assert(!plan.additions.contains(p));
            assert(!plan.updates.contains(p));
            assert(!plan.deletions.contains(p));
        }
    }
    if forall|p: Seq<char>|
        !is_addition(remote, local, p) && !is_update(remote, local, p) && !is_deletion(
            remote,
            local,
            p,
        ) {
        if plan.additions.len() > 0 {
            assert(plan.additions.contains(plan.additions[0]));
        }
        if plan.updates.len() > 0 {
            assert(plan.updates.contains(plan.updates[0]));
        }
        if plan.deletions.len() > 0 {
            assert(plan.deletions.contains(plan.deletions[0]));
        }
    }
}

/// A second run against an unchanged remote side has nothing to do: its
/// plan is empty, so it makes no change to any file.
pub proof fn theorem_idempotence(
    remote_paths: Seq<Seq<char>>,
    remote: Holdings,
    local_paths: Seq<Seq<char>>,
    local: Holdings,
    after_paths: Seq<Seq<char>>,
)
    requires
        lists(remote_paths, remote),
        lists(local_paths, local),
        lists(after_paths, synced(remote_paths, remote, local_paths, local)),
    ensures
        ({
            let after = synced(remote_paths, remote, local_paths, local);
            let again = planned(remote_paths, remote, after_paths, after);
            &&& again.is_empty()
            &&& actions_of(again).len() == 0
            &&& carried_out(after, actions_of(again), remote) == after
        }),
{
    let after = synced(remote_paths, remote, local_paths, local);
    lemma_synced_holdings(remote_paths, remote, local_paths, local);
    assert forall|p: Seq<char>|
        !is_addition(remote, after, p) && !is_update(remote, after, p) && !is_deletion(
            remote,
            after,
            p,
        ) by {
        if remote.contains_key(p) {
            assert(after.contains_key(p));
            assert(after[p] == remote[p]);
        }
    }
    lemma_empty_plan(remote_paths, remote, after_paths, after);
}

/// Each path that either side holds is one of four things, and only one: an
/// addition, an update, a deletion, or left untouched. A path that neither
/// side holds is none of them.
pub proof fn theorem_partition(remote: Holdings, local: Holdings, path: Seq<char>)
    ensures
        ({
            let a: int = if is_addition(remote, local, path) { 1 } else { 0 };
            let u: int = if is_update(remote, local, path) { 1 } else { 0 };
            let d: int = if is_deletion(remote, local, path) { 1 } else { 0 };
            let n: int = if is_untouched(remote, local, path) { 1 } else { 0 };
            a + u + d + n == if remote.contains_key(path) || local.contains_key(path) {
                1int
            } else {
                0int
            }
        }),
{
}

/// A plan names each path at most once over its three lists together.
pub proof fn theorem_plan_lists_are_disjoint(
    remote_paths: Seq<Seq<char>>,
    remote: Holdings,
    local_paths: Seq<Seq<char>>,
    local: Holdings,
)
    requires
        lists(remote_paths, remote),
        lists(local_paths, local),
    ensures
        ({
            let plan = planned(remote_paths, remote, local_paths, local);
            &&& plan.additions.no_duplicates()
            &&& plan.updates.no_duplicates()
            &&& plan.deletions.no_duplicates()
            &&& forall|p: Seq<char>| !(plan.additions.contains(p) && plan.updates.contains(p))
            &&& forall|p: Seq<char>| !(plan.additions.contains(p) && plan.deletions.contains(p))
            &&& forall|p: Seq<char>| !(plan.updates.contains(p) && plan.deletions.contains(p))
        }),
{
    lemma_plan_members(remote_paths, remote, local_paths, local);
}

/// A local file that bears the name of a noise marker is never among the
/// deletions, whether or not the remote side has it.
pub proof fn theorem_noise_is_kept(
    remote_paths: Seq<Seq<char>>,
    remote: Holdings,
    local_paths: Seq<Seq<char>>,
    local: Holdings,
    path: Seq<char>,
)
    requires
        is_noise_marker(file_name(path)),
    ensures
        !planned(remote_paths, remote, local_paths, local).deletions.contains(path),
{
    lemma_filter_members(local_paths, deletion_test(remote, local));
    assert(!deletion_test(remote, local)(path));
}

/// A path that both sides hold with different fingerprints is among the
/// updates, and is neither an addition nor left untouched.
pub proof fn theorem_change_is_detected(
    remote_paths: Seq<Seq<char>>,
    remote: Holdings,
    local_paths: Seq<Seq<char>>,
    local: Holdings,
    path: Seq<char>,
)
    requires
        lists(remote_paths, remote),
        lists(local_paths, local),
        remote.contains_key(path),
        local.contains_key(path),
        remote[path] != local[path],
    ensures
        planned(remote_paths, remote, local_paths, local).updates.contains(path),
        !planned(remote_paths, remote, local_paths, local).additions.contains(path),
        !planned(remote_paths, remote, local_paths, local).deletions.contains(path),
        !is_untouched(remote, local, path),
{
    lemma_plan_members(remote_paths, remote, local_paths, local);
}

/// A run that is over says nothing more and stays as it is, whatever is
/// reported to it.
pub proof fn theorem_over_is_silent(run: RunView, outcomes: Seq<Result<(), SyncError>>)
    requires
        run.status != Status::Running,
    ensures
        events_of(run, outcomes) == Seq::<EventView>::empty(),
        state_after(run, outcomes) == run,
    decreases outcomes.len(),
{
    if outcomes.len() > 0 {
        theorem_over_is_silent(run, outcomes.drop_first());
    }
}

/// From any point of a run on, reports of success lead through the changes
/// that are left, in order, to the closing event, which is given once.
pub proof fn lemma_rest_of_run(run: RunView, outcomes: Seq<Result<(), SyncError>>)
    requires
        run.status == Status::Running,
        run.done <= run.actions.len(),
        all_ok(outcomes),
        outcomes.len() > run.actions.len() - run.done,
    ensures
        events_of(run, outcomes) == changes(run.actions).skip(run.done as int).push(
            EventView::Complete,
        ),
        state_after(run, outcomes) == (RunView {
            done: run.actions.len(),
            status: Status::Succeeded,
            ..run
        }),
    decreases outcomes.len(),
{
    let first = outcomes[0];
    assert(first is Ok);
    let (next, event) = step(run, first);
    let rest = outcomes.drop_first();
    assert(all_ok(rest)) by {
        assert forall|i: int| 0 <= i < rest.len() implies (#[trigger] rest[i]) is Ok by {
            assert(outcomes[i + 1] is Ok);
        }
    }
    if run.done < run.actions.len() {
        lemma_rest_of_run(next, rest);
        assert(seq![EventView::Changed(run.actions[run.done as int])] + changes(next.actions).skip(
            next.done as int,
        ).push(EventView::Complete) =~= changes(run.actions).skip(run.done as int).push(
            EventView::Complete,
        ));
    } else {
        theorem_over_is_silent(next, rest);
        assert(seq![EventView::Complete] + Seq::<EventView>::empty() =~= changes(run.actions).skip(
            run.done as int,
        ).push(EventView::Complete));
    }
}

/// A run in which every change succeeds tells of each change of the plan,
/// in order, then gives the closing event, and gives it once however long
/// the reports go on. It ends as succeeded with every change made.
pub proof fn theorem_success_is_told_once(
    actions: Seq<ActionView>,
    outcomes: Seq<Result<(), SyncError>>,
)
    requires
        all_ok(outcomes),
        outcomes.len() > actions.len(),
    ensures
        events_of(start(actions), outcomes) == changes(actions).push(EventView::Complete),
        state_after(start(actions), outcomes).status == Status::Succeeded,
        state_after(start(actions), outcomes).done == actions.len(),
{
    lemma_rest_of_run(start(actions), outcomes);
    assert(changes(actions).skip(0) =~= changes(actions));
}

/// A failure stops a run at once: the changes made before it are told of,
/// then the failure, and nothing after it. No further change is pending.
pub proof fn theorem_failure_stops(
    run: RunView,
    made: nat,
    failure: SyncError,
    later: Seq<Result<(), SyncError>>,
)
    requires
        run.status == Status::Running,
        run.done + made <= run.actions.len(),
    ensures
        ({
            let outcomes = Seq::new(made, |i: int| Ok::<(), SyncError>(())) + seq![
                Err::<(), SyncError>(failure),
            ] + later;
            &&& events_of(run, outcomes) == changes(run.actions).subrange(
                run.done as int,
                (run.done + made) as int,
            ).push(EventView::Failed(failure))
            &&& state_after(run, outcomes) == (RunView {
                done: run.done + made,
                status: Status::Failed(failure),
                ..run
            })
            &&& pending(state_after(run, outcomes)) is None
        }),
    decreases made,
{
    let oks = Seq::new(made, |i: int| Ok::<(), SyncError>(()));
    let outcomes = oks + seq![Err::<(), SyncError>(failure)] + later;
    let (next, event) = step(run, outcomes[0]);
    if made == 0 {
        assert(outcomes[0] == Err::<(), SyncError>(failure));
        assert(outcomes.drop_first() =~= later);
        theorem_over_is_silent(next, later);
        assert(seq![EventView::Failed(failure)] + Seq::<EventView>::empty() =~= changes(
            run.actions,
        ).subrange(run.done as int, run.done as int).push(EventView::Failed(failure)));
    } else {
        assert(outcomes[0] == Ok::<(), SyncError>(()));
        let fewer = Seq::new((made - 1) as nat, |i: int| Ok::<(), SyncError>(()));
        assert(outcomes.drop_first() =~= fewer + seq![Err::<(), SyncError>(failure)] + later);
        theorem_failure_stops(next, (made - 1) as nat, failure, later);
        assert(seq![EventView::Changed(run.actions[run.done as int])] + changes(
            next.actions,
        ).subrange(next.done as int, (next.done + made - 1) as int).push(EventView::Failed(failure))
            =~= changes(run.actions).subrange(run.done as int, (run.done + made) as int).push(
            EventView::Failed(failure),
        ));
    }
}

/// A name that stands for a path, made clean, is a relative path: it has
/// no backslash, is not hidden, and stays below the root.
pub proof fn lemma_clean_candidate_is_relative(name: Seq<char>)
    requires
        candidate(name) is Some,
        is_clean(candidate(name)->0),
    ensures
        is_relative(normalized(name)),
{
    let path = normalized(name);
    if path.contains('\\') {
        let i = choose|i: int| 0 <= i < path.len() && path[i] == '\\';
        assert(path[i] != '\\');
    }
}

/// The records give a fingerprint to the paths that occur among them, and
/// to no other.
pub proof fn lemma_holdings_keys(records: Seq<RecordView>, path: Seq<char>)
    ensures
        holdings_of(records).contains_key(path) <==> exists|i: int|
            0 <= i < records.len() && (#[trigger] records[i]).relative_path == path,
    decreases records.len(),
{
    if records.len() > 0 {
        let front = records.drop_last();
        lemma_holdings_keys(front, path);
        if holdings_of(records).contains_key(path) {
            if records.last().relative_path == path {
                assert(records[records.len() - 1].relative_path == path);
            } else {
                let i = choose|i: int|
                    0 <= i < front.len() && (#[trigger] front[i]).relative_path == path;
                assert(records[i].relative_path == path);
            }
        }
        if exists|i: int| 0 <= i < records.len() && (#[trigger] records[i]).relative_path == path {
            let i = choose|i: int|
                0 <= i < records.len() && (#[trigger] records[i]).relative_path == path;
            if i < front.len() {
                assert(front[i].relative_path == path);
            }
        }
    }
}

/// The paths of an archive's records omit the leading directory: each is
/// what stands behind it in the name of an entry that is no directory,
/// with `/` between its segments, and is neither empty nor hidden. An
/// entry whose name is the leading directory itself gives no record.
pub proof fn theorem_root_is_stripped(entries: Seq<EntryView>, root: Seq<char>)
    ensures
        forall|i: int|
            0 <= i < archive_files(entries, root).len() ==> {
                let record = #[trigger] archive_files(entries, root)[i];
                &&& record.relative_path.len() > 0
                &&& record.relative_path[0] != '.'
                &&& exists|j: int|
                    0 <= j < entries.len() && !entries[j].is_dir && root.is_prefix_of(
                        (#[trigger] entries[j]).name,
                    ) && record.relative_path == normalized(entries[j].name.skip(root.len() as int))
            },
        forall|j: int|
            0 <= j < entries.len() && #[trigger] entries[j].name == root ==> file_under(
                entries[j],
                root,
            ) is None,
{
    let kept = entries.filter(kept_under(root));
    lemma_filter_members(entries, kept_under(root));
    assert forall|i: int| 0 <= i < archive_files(entries, root).len() implies {
        let record = #[trigger] archive_files(entries, root)[i];
        &&& record.relative_path.len() > 0
        &&& record.relative_path[0] != '.'
        &&& exists|j: int|
            0 <= j < entries.len() && !entries[j].is_dir && root.is_prefix_of(
                (#[trigger] entries[j]).name,
            ) && record.relative_path == normalized(entries[j].name.skip(root.len() as int))
    } by {
        let entry = kept[i];
        assert(kept.contains(entry));
        assert(entries.contains(entry) && kept_under(root)(entry));
        let j = choose|j: int| 0 <= j < entries.len() && entries[j] == entry;
        let record = archive_files(entries, root)[i];
        assert(record == file_under(entry, root)->0);
        let rest = entry.name.skip(root.len() as int);
        assert(record.relative_path == normalized(rest));
        assert(record.relative_path[0] == if rest[0] == '\\' {
            '/'
        } else {
            rest[0]
        });
        assert(root.is_prefix_of(entries[j].name));
    }
    assert forall|j: int| 0 <= j < entries.len() && #[trigger] entries[j].name == root implies file_under(
        entries[j],
        root,
    ) is None by {
        assert(root.skip(root.len() as int) =~= Seq::<char>::empty());
    }
}

/// No file of an archive is left out in silence: where the listing
/// succeeds, every entry that is no directory and stands under the leading
/// directory with a rest that is neither empty nor begins with a dot has
/// its path, with `/` between its segments, in the remote inventory. The
/// inventory knows the path by the entry's bytes, unless another entry of
/// the same path has other bytes.
pub proof fn theorem_every_file_is_listed(entries: Seq<EntryView>, root: Seq<char>, j: int)
    requires
        root_of(entries) == Some(root),
        archive_listing(entries) is Ok,
        0 <= j < entries.len(),
        !entries[j].is_dir,
        root.is_prefix_of(entries[j].name),
        entries[j].name.len() > root.len(),
        entries[j].name[root.len() as int] != '.',
    ensures
        ({
            let path = normalized(entries[j].name.skip(root.len() as int));
            let remote = holdings_of(archive_listing(entries)->Ok_0);
            &&& remote.contains_key(path)
            &&& (forall|k: int|
                0 <= k < entries.len() && file_under(#[trigger] entries[k], root) is Some
                    && file_under(entries[k], root)->0.relative_path == path
                    ==> entries[k].content == entries[j].content) ==> remote[path]
                == FingerprintView::Content(entries[j].content)
        }),
{
    let entry = entries[j];
    let rest = entry.name.skip(root.len() as int);
    let path = normalized(rest);
    let files = archive_files(entries, root);
    let kept = entries.filter(kept_under(root));
    assert(rest[0] == entry.name[root.len() as int]);
    assert(candidate(rest) == Some(path));
    assert(kept_under(root)(entry));
    lemma_filter_members(entries, kept_under(root));
    assert(entries.contains(entry));
    assert(kept.contains(entry));
    let k = choose|k: int| 0 <= k < kept.len() && kept[k] == entry;
    assert(files[k].relative_path == path);
    lemma_holdings_keys(files, path);
    lemma_holdings_value(files, path);
    let i = choose|i: int|
        0 <= i < files.len() && (#[trigger] files[i]).relative_path == path && holdings_of(
            files,
        )[path] == files[i].fingerprint;
    assert(kept.contains(kept[i]));
    assert(entries.contains(kept[i]));
    let at = choose|at: int| 0 <= at < entries.len() && entries[at] == kept[i];
    assert(file_under(entries[at], root)->0 == files[i]);
}

/// The fingerprint held for a path is that of a record of the path.
pub proof fn lemma_holdings_value(records: Seq<RecordView>, path: Seq<char>)
    requires
        holdings_of(records).contains_key(path),
    ensures
        exists|i: int|
            0 <= i < records.len() && (#[trigger] records[i]).relative_path == path
                && holdings_of(records)[path] == records[i].fingerprint,
    decreases records.len(),
{
    if records.len() > 0 {
        let front = records.drop_last();
        if records.last().relative_path == path {
            let i = records.len() - 1;
            assert(records[i].relative_path == path && holdings_of(records)[path]
                == records[i].fingerprint);
        } else {
            lemma_holdings_value(front, path);
            let i = choose|i: int|
                0 <= i < front.len() && (#[trigger] front[i]).relative_path == path
                    && holdings_of(front)[path] == front[i].fingerprint;
            assert(records[i].relative_path == path && holdings_of(records)[path]
                == records[i].fingerprint);
        }
    }
}

/// No file of a tree is left out in silence: where the listing succeeds,
/// every entry of kind `blob` whose path is neither empty nor begins with
/// a dot has its path, with `/` between its segments, in the remote
/// inventory. The inventory knows the path by the entry's hash, unless
/// another entry of the same path has another hash.
pub proof fn theorem_every_blob_is_listed(items: Seq<TreeItemView>, j: int)
    requires
        tree_listing(items) is Ok,
        0 <= j < items.len(),
        items[j].item_type == "blob"@,
        items[j].path.len() > 0,
        items[j].path[0] != '.',
    ensures
        ({
            let path = normalized(items[j].path);
            let remote = holdings_of(tree_listing(items)->Ok_0);
            &&& remote.contains_key(path)
            &&& (forall|k: int|
                0 <= k < items.len() && takes_part(#[trigger] items[k]) && normalized(
                    items[k].path,
                ) == path ==> items[k].sha == items[j].sha) ==> remote[path]
                == FingerprintView::Hash(items[j].sha)
        }),
{
    let item = items[j];
    let path = normalized(item.path);
    let files = tree_files(items);
    let parts = items.filter(part_test());
    assert(part_test()(item));
    lemma_filter_members(items, part_test());
    assert(items.contains(item));
    assert(parts.contains(item));
    let k = choose|k: int| 0 <= k < parts.len() && parts[k] == item;
    assert(files[k].relative_path == path);
    lemma_holdings_keys(files, path);
    lemma_holdings_value(files, path);
    let i = choose|i: int|
        0 <= i < files.len() && (#[trigger] files[i]).relative_path == path && holdings_of(
            files,
        )[path] == files[i].fingerprint;
    assert(parts.contains(parts[i]));
    assert(part_test()(parts[i]));
    assert(items.contains(parts[i]));
    let at = choose|at: int| 0 <= at < items.len() && items[at] == parts[i];
    assert(takes_part(items[at]) && normalized(items[at].path) == path);
}

/// No found file is left out in silence: where the listing succeeds,
/// every found record whose path is neither empty nor begins with a dot
/// has its path, with `/` between its segments, in the local inventory.
pub proof fn theorem_every_found_file_is_listed(found: Seq<RecordView>, j: int)
    requires
        local_listing(found) is Ok,
        0 <= j < found.len(),
        found[j].relative_path.len() > 0,
        found[j].relative_path[0] != '.',
    ensures
        holdings_of(local_listing(found)->Ok_0).contains_key(normalized(found[j].relative_path)),
{
    let record = found[j];
    let files = local_files(found);
    let seen = found.filter(visible_record());
    assert(visible_record()(record));
    lemma_filter_members(found, visible_record());
    assert(found.contains(record));
    assert(seen.contains(record));
    let k = choose|k: int| 0 <= k < seen.len() && seen[k] == record;
    assert(files[k].relative_path == normalized(record.relative_path));
    lemma_holdings_keys(files, normalized(record.relative_path));
}

/// The file name of a path is its last segment: the end of the path that
/// holds no separator and stands right behind one, or is the whole path.
pub proof fn theorem_file_name_is_last_segment(path: Seq<char>)
    ensures
        file_name(path).len() <= path.len(),
        file_name(path) == path.skip(path.len() - file_name(path).len()),
        separator_free(file_name(path)),
        file_name(path).len() < path.len() ==> path[path.len() - file_name(path).len() - 1] == '/',
    decreases path.len(),
{
    if path.len() == 0 || path.last() == '/' {
        assert(file_name(path) =~= path.skip(path.len() as int));
    } else {
        let front = path.drop_last();
        theorem_file_name_is_last_segment(front);
        let inner = file_name(front);
        assert(file_name(path) =~= path.skip(path.len() - inner.len() - 1));
    }
}

/// The paths of records, listed in the order of their first occurrence,
/// name each path that the records give a fingerprint, once.
pub proof fn theorem_records_are_listed(records: Seq<RecordView>)
    ensures
        lists(listing_of(records), holdings_of(records)),
    decreases records.len(),
{
    if records.len() > 0 {
        let front = records.drop_last();
        let path = records.last().relative_path;
        theorem_records_are_listed(front);
        let before = listing_of(front);
        let after = listing_of(records);
        assert(after == listed(before, path));
        assert forall|p: Seq<char>| holdings_of(records).contains_key(p) <==> after.contains(
            p,
        ) by {
            if before.contains(path) {
            } else {
                if after.contains(p) {
                    let i = choose|i: int| 0 <= i < after.len() && after[i] == p;
                    if i < before.len() {
                        assert(before[i] == p);
                    }
                }
                if before.contains(p) {
                    let i = choose|i: int| 0 <= i < before.len() && before[i] == p;
                    assert(after[i] == p);
                }
                assert(after[before.len() as int] == path);
            }
        }
        if !before.contains(path) {
            assert forall|i: int, j: int|
                0 <= i < after.len() && 0 <= j < after.len() && i != j implies after[i]
                != after[j] by {
                if i < before.len() && j < before.len() {
                } else if i < before.len() {
                    assert(before.contains(before[i]));
                } else {
                    assert(before.contains(before[j]));
                }
            }
        }
    }
}

/// Whatever the two sides hold, a finished run leaves the local side with
/// every remote path under the remote fingerprint, and with nothing else
/// but files that bear the name of a noise marker.
pub proof fn theorem_run_converges(remote: Seq<RecordView>, local: Seq<RecordView>)
    ensures
        ({
            let after = synced(
                listing_of(remote),
                holdings_of(remote),
                listing_of(local),
                holdings_of(local),
            );
            &&& forall|p: Seq<char>| #[trigger]
                holdings_of(remote).contains_key(p) ==> after.contains_key(p) && after[p]
                    == holdings_of(remote)[p]
            &&& forall|p: Seq<char>| #[trigger]
                after.contains_key(p) && !holdings_of(remote).contains_key(p) ==> is_noise_marker(
                    file_name(p),
                )
        }),
{
    theorem_records_are_listed(remote);
    theorem_records_are_listed(local);
    lemma_synced_holdings(
        listing_of(remote),
        holdings_of(remote),
        listing_of(local),
        holdings_of(local),
    );
    let after = synced(listing_of(remote), holdings_of(remote), listing_of(local), holdings_of(local));
    assert forall|p: Seq<char>| holdings_of(remote).contains_key(p) implies after.contains_key(p)
        && after[p] == holdings_of(remote)[p] by {
        assert(after.contains_key(p));
        assert(after[p] == holdings_of(remote)[p]);
    }
    assert forall|p: Seq<char>|
        after.contains_key(p) && !holdings_of(remote).contains_key(p) implies is_noise_marker(
        file_name(p),
    ) by {
        assert(after.contains_key(p));
    }
}

/// After a finished run, a second run against the same remote side finds
/// nothing to do, however the local side is listed when it is scanned
/// again: its plan is empty and it makes no change.
pub proof fn theorem_second_run_is_empty(
    remote: Seq<RecordView>,
    local: Seq<RecordView>,
    rescanned: Seq<RecordView>,
)
    requires
        holdings_of(rescanned) == synced(
            listing_of(remote),
            holdings_of(remote),
            listing_of(local),
            holdings_of(local),
        ),
    ensures
        planned(
            listing_of(remote),
            holdings_of(remote),
            listing_of(rescanned),
            holdings_of(rescanned),
        ).is_empty(),
        actions_of(
            planned(
                listing_of(remote),
                holdings_of(remote),
                listing_of(rescanned),
                holdings_of(rescanned),
            ),
        ).len() == 0,
{
    theorem_records_are_listed(remote);
    theorem_records_are_listed(local);
    theorem_records_are_listed(rescanned);
    theorem_idempotence(
        listing_of(remote),
        holdings_of(remote),
        listing_of(local),
        holdings_of(local),
        listing_of(rescanned),
    );
}

/// Every record of a listing that succeeds has a relative path: one that
/// is not empty, not hidden, without a backslash, and below the root.
pub proof fn theorem_paths_stay_below_root(
    entries: Seq<EntryView>,
    items: Seq<TreeItemView>,
    found: Seq<RecordView>,
)
    ensures
        archive_listing(entries) matches Ok(records) ==> forall|i: int|
            0 <= i < records.len() ==> is_relative((#[trigger] records[i]).relative_path),
        tree_listing(items) matches Ok(records) ==> forall|i: int|
            0 <= i < records.len() ==> is_relative((#[trigger] records[i]).relative_path),
        local_listing(found) matches Ok(records) ==> forall|i: int|
            0 <= i < records.len() ==> is_relative((#[trigger] records[i]).relative_path),
{
    if archive_listing(entries) is Ok {
        let root = root_of(entries)->0;
        let records = archive_files(entries, root);
        let kept = entries.filter(kept_under(root));
        lemma_filter_members(entries, kept_under(root));
        assert forall|i: int| 0 <= i < records.len() implies is_relative(
            (#[trigger] records[i]).relative_path,
        ) by {
            assert(kept.contains(kept[i]));
            assert(kept_under(root)(kept[i]));
            lemma_clean_candidate_is_relative(kept[i].name.skip(root.len() as int));
        }
    }
    if tree_listing(items) is Ok {
        let records = tree_files(items);
        let parts = items.filter(part_test());
        lemma_filter_members(items, part_test());
        assert forall|i: int| 0 <= i < records.len() implies is_relative(
            (#[trigger] records[i]).relative_path,
        ) by {
            assert(parts.contains(parts[i]));
            assert(part_test()(parts[i]));
            lemma_clean_candidate_is_relative(parts[i].path);
        }
    }
    if local_listing(found) is Ok {
        let records = local_files(found);
        let seen = found.filter(visible_record());
        lemma_filter_members(found, visible_record());
        assert forall|i: int| 0 <= i < records.len() implies is_relative(
            (#[trigger] records[i]).relative_path,
        ) by {
            assert(seen.contains(seen[i]));
            assert(visible_record()(seen[i]));
            lemma_clean_candidate_is_relative(seen[i].relative_path);
        }
    }
}

} // verus!
