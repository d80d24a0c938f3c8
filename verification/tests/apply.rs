use std::collections::BTreeMap;

use cb_patcher::apply::{judge, Action, Applier, Attempt, Category, ProgressEvent, Status};
use cb_patcher::error::SyncError;
use cb_patcher::inventory::{Fingerprint, Inventory};
use cb_patcher::reconcile::{reconcile, SyncPlan};

fn plan(additions: &[&str], updates: &[&str], deletions: &[&str]) -> SyncPlan {
    SyncPlan {
        additions: additions.iter().map(|s| s.to_string()).collect(),
        updates: updates.iter().map(|s| s.to_string()).collect(),
        deletions: deletions.iter().map(|s| s.to_string()).collect(),
    }
}

fn side(files: &[(&str, &str)]) -> Inventory {
    let mut inventory = Inventory::new();
    for (path, content) in files {
        inventory.insert(path.to_string(), Fingerprint::Content(content.as_bytes().to_vec()));
    }
    inventory
}

// Carries a plan out on a map that stands for the disk, and collects the lines told.
fn run_on(
    remote: &Inventory,
    disk: &mut BTreeMap<String, Vec<u8>>,
    plan: &SyncPlan,
) -> (Vec<String>, Status) {
    let mut applier = Applier::new(plan);
    let mut lines = Vec::new();
    loop {
        let attempt = match applier.next_action() {
            Some(action) => {
                let outcome = match action.category {
                    Category::Deleted => {
                        if disk.remove(&action.path).is_some() {
                            Attempt::Made
                        } else {
                            Attempt::AlreadyGone
                        }
                    }
                    _ => match remote.get(&action.path) {
                        Some(Fingerprint::Content(bytes)) => {
                            disk.insert(action.path.clone(), bytes.clone());
                            Attempt::Made
                        }
                        _ => Attempt::Refused,
                    },
                };
                judge(action.category, outcome)
            }
            None => Ok(()),
        };
        match applier.settle(attempt) {
            Some(event) => lines.push(event.message()),
            None => break,
        }
    }
    (lines, applier.status())
}

#[test]
fn end_to_end_scenario_converges_and_tells_success_once() {
    let remote = side(&[("a.lua", "X")]);
    let local = side(&[("a.lua", "Y"), ("old.lua", "Z")]);
    let plan = reconcile(&remote, &local);
    let mut disk = BTreeMap::new();
    disk.insert("a.lua".to_string(), b"Y".to_vec());
    disk.insert("old.lua".to_string(), b"Z".to_vec());
    let (lines, status) = run_on(&remote, &mut disk, &plan);
    assert_eq!(status, Status::Succeeded);
    assert_eq!(lines, vec!["Updated: a.lua", "Deleted: old.lua", "Update complete!"]);
    assert_eq!(lines.iter().filter(|l| l.as_str() == "Update complete!").count(), 1);
    assert_eq!(disk.len(), 1);
    assert_eq!(disk.get("a.lua"), Some(&b"X".to_vec()));
    assert!(!disk.contains_key("old.lua"));
}

#[test]
fn second_run_on_unchanged_remote_has_empty_plan_and_writes_nothing() {
    let remote = side(&[("a.lua", "X"), ("b/c.lua", "C")]);
    let local = side(&[("a.lua", "Y"), ("old.lua", "Z"), (".DS_Store", "n")]);
    let mut disk = BTreeMap::new();
    disk.insert("a.lua".to_string(), b"Y".to_vec());
    disk.insert("old.lua".to_string(), b"Z".to_vec());
    disk.insert(".DS_Store".to_string(), b"n".to_vec());
    let first = reconcile(&remote, &local);
    let (_, status) = run_on(&remote, &mut disk, &first);
    assert_eq!(status, Status::Succeeded);

    let mut after = Inventory::new();
    for (path, bytes) in disk.iter() {
        after.insert(path.clone(), Fingerprint::Content(bytes.clone()));
    }
    let second = reconcile(&remote, &after);
    assert!(second.is_empty());
    let before = disk.clone();
    let (lines, status) = run_on(&remote, &mut disk, &second);
    assert_eq!(lines, vec!["Update complete!"]);
    assert_eq!(status, Status::Succeeded);
    assert_eq!(disk, before);
}

#[test]
fn after_a_run_local_equals_remote_but_for_noise() {
    let remote = side(&[("a", "1"), ("b", "2"), ("c/d", "3")]);
    let local = side(&[("b", "x"), ("gone", "y"), ("c/Thumbs.db", "t")]);
    let mut disk = BTreeMap::new();
    disk.insert("b".to_string(), b"x".to_vec());
    disk.insert("gone".to_string(), b"y".to_vec());
    disk.insert("c/Thumbs.db".to_string(), b"t".to_vec());
    let plan = reconcile(&remote, &local);
    let (lines, _) = run_on(&remote, &mut disk, &plan);
    assert_eq!(
        lines,
        vec!["New: a", "New: c/d", "Updated: b", "Deleted: gone", "Update complete!"]
    );
    assert_eq!(disk.get("a"), Some(&b"1".to_vec()));
    assert_eq!(disk.get("b"), Some(&b"2".to_vec()));
    assert_eq!(disk.get("c/d"), Some(&b"3".to_vec()));
    assert_eq!(disk.get("c/Thumbs.db"), Some(&b"t".to_vec()));
    assert_eq!(disk.len(), 4);
}

#[test]
fn actions_come_as_additions_updates_deletions() {
    let plan = plan(&["n1", "n2"], &["u1"], &["d1"]);
    let mut applier = Applier::new(&plan);
    assert_eq!(applier.total(), 4);
    assert_eq!(applier.done(), 0);
    assert_eq!(applier.status(), Status::Running);
    let mut seen = Vec::new();
    while let Some(action) = applier.next_action() {
        seen.push((action.category, action.path.clone()));
        let event = applier.settle(Ok(())).unwrap();
        assert!(!event.is_terminal());
    }
    assert_eq!(
        seen,
        vec![
            (Category::New, "n1".to_string()),
            (Category::New, "n2".to_string()),
            (Category::Updated, "u1".to_string()),
            (Category::Deleted, "d1".to_string()),
        ]
    );
    assert_eq!(applier.done(), 4);
    assert_eq!(applier.status(), Status::Running);
    let closing = applier.settle(Ok(())).unwrap();
    assert!(matches!(closing, ProgressEvent::Complete));
    assert!(closing.is_terminal());
    assert_eq!(applier.status(), Status::Succeeded);
    assert!(applier.settle(Ok(())).is_none());
    assert!(applier.settle(Err(SyncError::LocalIoError)).is_none());
    assert_eq!(applier.status(), Status::Succeeded);
    assert!(applier.next_action().is_none());
}

#[test]
fn failure_aborts_the_rest_of_the_plan() {
    let plan = plan(&["n1", "n2"], &[], &["d1"]);
    let mut applier = Applier::new(&plan);
    assert!(matches!(applier.settle(Ok(())), Some(ProgressEvent::Changed(_))));
    let failed = applier.settle(Err(SyncError::RemoteUnavailable)).unwrap();
    assert!(matches!(failed, ProgressEvent::Failed(SyncError::RemoteUnavailable)));
    assert_eq!(failed.message(), "Error: Could not reach GitHub.");
    assert_eq!(applier.status(), Status::Failed(SyncError::RemoteUnavailable));
    assert_eq!(applier.done(), 1);
    assert!(applier.next_action().is_none());
    assert!(applier.settle(Ok(())).is_none());
    assert_eq!(applier.status(), Status::Failed(SyncError::RemoteUnavailable));
}

#[test]
fn empty_plan_ends_with_the_closing_event_alone() {
    let mut applier = Applier::new(&plan(&[], &[], &[]));
    assert!(applier.next_action().is_none());
    assert!(matches!(applier.settle(Ok(())), Some(ProgressEvent::Complete)));
    assert!(applier.settle(Ok(())).is_none());
}

#[test]
fn messages_carry_category_and_path() {
    let event = |category, path: &str| {
        ProgressEvent::Changed(Action { category, path: path.to_string() }).message()
    };
    assert_eq!(event(Category::New, "a/b.lua"), "New: a/b.lua");
    assert_eq!(event(Category::Updated, "mod.xml"), "Updated: mod.xml");
    assert_eq!(event(Category::Deleted, "old.lua"), "Deleted: old.lua");
    assert_eq!(ProgressEvent::Complete.message(), "Update complete!");
    assert_eq!(
        ProgressEvent::Failed(SyncError::RateLimited).message(),
        "Error: GitHub API Rate Limit Exceeded. Please try again later."
    );
}

#[test]
fn a_file_already_gone_counts_as_removed() {
    assert_eq!(judge(Category::Deleted, Attempt::AlreadyGone), Ok(()));
    assert_eq!(judge(Category::Deleted, Attempt::Made), Ok(()));
    assert_eq!(judge(Category::Deleted, Attempt::Refused), Err(SyncError::LocalIoError));
    assert_eq!(judge(Category::New, Attempt::AlreadyGone), Err(SyncError::LocalIoError));
    assert_eq!(judge(Category::Updated, Attempt::Refused), Err(SyncError::LocalIoError));
    assert_eq!(judge(Category::New, Attempt::Made), Ok(()));
    assert_eq!(
        judge(Category::New, Attempt::FetchFailed(SyncError::RateLimited)),
        Err(SyncError::RateLimited)
    );
}

#[test]
fn each_error_has_its_message() {
    assert_eq!(SyncError::RemoteUnavailable.message(), "Could not reach GitHub.");
    assert_eq!(
        SyncError::RateLimited.message(),
        "GitHub API Rate Limit Exceeded. Please try again later."
    );
    assert_eq!(SyncError::RemoteProtocolError.message(), "GitHub sent an unexpected answer.");
    assert_eq!(
        SyncError::ArchiveFormatError.message(),
        "The downloaded archive has no top-level folder."
    );
    assert_eq!(
        SyncError::LocalIoError.message(),
        "A file in the mod folder could not be read or changed."
    );
}
