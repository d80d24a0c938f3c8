//! Carrying out a plan, one file at a time.
//!
//! The library never touches a file itself. It says which change comes
//! next; the caller makes that change on disk and reports how it went; the
//! library says what to tell the user and what comes after. A failure stops
//! the run at once. When every change has been made the run ends with one
//! closing event.
//!
//! Only files are created, overwritten and removed. A directory that a
//! removal leaves empty stays where it is.

use vstd::prelude::*;
use crate::error::SyncError;
use crate::reconcile::{PlanView, SyncPlan};
use crate::text::joined;

verus! {

/// The kind of change made to a file.
#[derive(Clone, Copy, Debug, PartialEq, Eq, Structural)]
pub enum Category {
    /// The file did not exist and is created.
    New,
    /// The file existed and is overwritten.
    Updated,
    /// The file is removed.
    Deleted,
}

/// One change to one file.
#[derive(Debug)]
pub struct Action {
    pub category: Category,
    pub path: String,
}

/// A change as a mathematical value.
pub struct ActionView {
    pub category: Category,
    pub path: Seq<char>,
}

impl View for Action {
    type V = ActionView;

    open spec fn view(&self) -> ActionView {
        ActionView { category: self.category, path: self.path@ }
    }
}

/// What a run tells its observer.
#[derive(Debug)]
pub enum ProgressEvent {
    /// A change has been made.
    Changed(Action),
    /// Every change has been made; the run is over.
    Complete,
    /// The run has stopped on a failure.
    Failed(SyncError),
}

/// An event as a mathematical value.
pub enum EventView {
    Changed(ActionView),
    Complete,
    Failed(SyncError),
}

impl View for ProgressEvent {
    type V = EventView;

    open spec fn view(&self) -> EventView {
        match self {
            ProgressEvent::Changed(a) => EventView::Changed(a@),
            ProgressEvent::Complete => EventView::Complete,
            ProgressEvent::Failed(e) => EventView::Failed(*e),
        }
    }
}

/// The word that a line of progress begins with.
pub open spec fn label(category: Category) -> Seq<char> {
    match category {
        Category::New => "New: "@,
        Category::Updated => "Updated: "@,
        Category::Deleted => "Deleted: "@,
    }
}

/// The line shown for an event.
pub open spec fn message_of(event: EventView) -> Seq<char> {
    match event {
        EventView::Changed(a) => label(a.category) + a.path,
        EventView::Complete => "Update complete!"@,
        EventView::Failed(e) => "Error: "@ + e.spec_message(),
    }
}

impl ProgressEvent {
    /// The line to show for this event.
    pub fn message(&self) -> (line: String)
        ensures
            line@ == message_of(self@),
    {
        match self {
            ProgressEvent::Changed(a) => {
                let word = match a.category {
                    Category::New => "New: ",
                    Category::Updated => "Updated: ",
                    Category::Deleted => "Deleted: ",
                };
                joined(word, a.path.as_str())
            },
            ProgressEvent::Complete => "Update complete!".to_owned(),
            ProgressEvent::Failed(e) => {
                let text = e.message();
                joined("Error: ", text.as_str())
            },
        }
    }

    /// Whether the run is over with this event.
    pub fn is_terminal(&self) -> (terminal: bool)
        ensures
            terminal == !(self@ is Changed),
    {
        match self {
            ProgressEvent::Changed(_) => false,
            _ => true,
        }
    }
}

/// How the attempt to make a change on disk ended.
#[derive(Clone, Copy, Debug, PartialEq, Eq, Structural)]
pub enum Attempt {
    /// The change was made.
    Made,
    /// The file to remove was not there.
    AlreadyGone,
    /// The content could not be fetched; the host's part failed so.
    FetchFailed(SyncError),
    /// The file system refused.
    Refused,
}

/// What an attempt counts as. A file that is gone before its removal is
/// as good as removed; a fetch that failed keeps its own kind of failure;
/// whatever else the file system refuses is a local failure.
pub open spec fn judged(category: Category, attempt: Attempt) -> Result<(), SyncError> {
    match attempt {
        Attempt::Made => Ok(()),
        Attempt::AlreadyGone => if category == Category::Deleted {
            Ok(())
        } else {
            Err(SyncError::LocalIoError)
        },
        Attempt::FetchFailed(e) => Err(e),
        Attempt::Refused => Err(SyncError::LocalIoError),
    }
}

/// Says what to report for an attempt at a change of the given kind.
pub fn judge(category: Category, attempt: Attempt) -> (outcome: Result<(), SyncError>)
    ensures
        outcome == judged(category, attempt),
{
    match attempt {
        Attempt::Made => Ok(()),
        Attempt::AlreadyGone => match category {
            Category::Deleted => Ok(()),
            _ => Err(SyncError::LocalIoError),
        },
        Attempt::FetchFailed(e) => Err(e),
        Attempt::Refused => Err(SyncError::LocalIoError),
    }
}

/// The paths, each as a change of the given kind.
pub open spec fn tagged(paths: Seq<Seq<char>>, category: Category) -> Seq<ActionView> {
    Seq::new(paths.len(), |i: int| ActionView { category, path: paths[i] })
}

/// The changes of a plan in the order in which they are made: the
/// additions, then the updates, then the deletions.
pub open spec fn actions_of(plan: PlanView) -> Seq<ActionView> {
    tagged(plan.additions, Category::New) + tagged(plan.updates, Category::Updated) + tagged(
        plan.deletions,
        Category::Deleted,
    )
}

/// Where a run stands.
#[derive(Clone, Copy, Debug, PartialEq, Eq, Structural)]
pub enum Status {
    /// Changes may still be made.
    Running,
    /// Every change was made and the closing event was given.
    Succeeded,
    /// The run stopped on this failure.
    Failed(SyncError),
}

/// The state of a run as a mathematical value: the changes to make, how
/// many of them have been made, and where the run stands.
pub struct RunView {
    pub actions: Seq<ActionView>,
    pub done: nat,
    pub status: Status,
}

/// The state in which a run of the given changes begins.
pub open spec fn start(actions: Seq<ActionView>) -> RunView {
    RunView { actions, done: 0, status: Status::Running }
}

/// The change that the caller has to make next, if there is one.
pub open spec fn pending(run: RunView) -> Option<ActionView> {
    if run.status == Status::Running && run.done < run.actions.len() {
        Some(run.actions[run.done as int])
    } else {
        None
    }
}

/// One step of a run: the state after the caller's report, and the event
/// to hand on.
///
/// A run that is over stays as it is and says nothing. A failure stops a
/// running one. A success moves it past the pending change; where no change
/// is pending, it ends the run.
pub open spec fn step(run: RunView, outcome: Result<(), SyncError>) -> (RunView, Option<EventView>) {
    if run.status != Status::Running {
        (run, None)
    } else {
        match outcome {
            Err(e) => (RunView { status: Status::Failed(e), ..run }, Some(EventView::Failed(e))),
            Ok(_) => if run.done < run.actions.len() {
                (
                    RunView { done: run.done + 1, ..run },
                    Some(EventView::Changed(run.actions[run.done as int])),
                )
            } else {
                (RunView { status: Status::Succeeded, ..run }, Some(EventView::Complete))
            },
        }
    }
}

/// The state after a series of reports.
pub open spec fn state_after(run: RunView, outcomes: Seq<Result<(), SyncError>>) -> RunView
    decreases outcomes.len(),
{
    if outcomes.len() == 0 {
        run
    } else {
        state_after(step(run, outcomes[0]).0, outcomes.drop_first())
    }
}

/// The events handed on over a series of reports, in order.
pub open spec fn events_of(run: RunView, outcomes: Seq<Result<(), SyncError>>) -> Seq<EventView>
    decreases outcomes.len(),
{
    if outcomes.len() == 0 {
        Seq::empty()
    } else {
        let (next, event) = step(run, outcomes[0]);
        let rest = events_of(next, outcomes.drop_first());
        match event {
            Some(e) => seq![e] + rest,
            None => rest,
        }
    }
}

/// Each of the changes as the event of its having been made.
pub open spec fn changes(actions: Seq<ActionView>) -> Seq<EventView> {
    Seq::new(actions.len(), |i: int| EventView::Changed(actions[i]))
}

/// Every report of the series is a success.
pub open spec fn all_ok(outcomes: Seq<Result<(), SyncError>>) -> bool {
    forall|i: int| 0 <= i < outcomes.len() ==> (#[trigger] outcomes[i]) is Ok
}

/// A run of a plan: which change comes next, and what to tell the observer.
pub struct Applier {
    actions: Vec<Action>,
    done: usize,
    status: Status,
}

impl View for Applier {
    type V = RunView;

    closed spec fn view(&self) -> RunView {
        RunView { actions: self.actions.deep_view(), done: self.done as nat, status: self.status }
    }
}

impl DeepView for Action {
    type V = ActionView;

    open spec fn deep_view(&self) -> ActionView {
        self@
    }
}

/// Appends the paths to `actions`, each as a change of the given kind.
fn push_tagged(actions: &mut Vec<Action>, paths: &Vec<String>, category: Category)
    ensures
        final(actions).deep_view() == old(actions).deep_view() + tagged(paths.deep_view(), category),
{
    let ghost before = actions.deep_view();
    let ghost all = paths.deep_view();
    let mut i: usize = 0;
    assert(actions.deep_view() =~= before + tagged(all.take(0), category));
    while i < paths.len()
        invariant
            i <= paths.len(),
            all == paths.deep_view(),
            actions.deep_view() == before + tagged(all.take(i as int), category),
        decreases paths.len() - i,
    {
        let ghost old_actions = actions.deep_view();
        actions.push(Action { category, path: paths[i].clone() });
        proof {
            let added = ActionView { category, path: all[i as int] };
            assert(actions.deep_view() =~= old_actions.push(added));
            assert(tagged(all.take(i + 1), category) =~= tagged(all.take(i as int), category).push(
                added,
            ));
            assert(actions.deep_view() =~= before + tagged(all.take(i + 1), category));
        }
        i += 1;
    }
    assert(all.take(i as int) =~= all);
}

impl Applier {
    #[verifier::type_invariant]
    spec fn well_formed(self) -> bool {
        &&& self.done <= self.actions.len()
        &&& self.status == Status::Succeeded ==> self.done == self.actions.len()
    }

    /// Begins the run of a plan.
    pub fn new(plan: &SyncPlan) -> (applier: Applier)
        ensures
            applier@ == start(actions_of(plan@)),
    {
        let ghost view = plan@;
        let mut actions: Vec<Action> = Vec::new();
        assert(actions.deep_view() =~= Seq::<ActionView>::empty());
        push_tagged(&mut actions, &plan.additions, Category::New);
        push_tagged(&mut actions, &plan.updates, Category::Updated);
        push_tagged(&mut actions, &plan.deletions, Category::Deleted);
        assert(actions.deep_view() =~= actions_of(view));
        Applier { actions, done: 0, status: Status::Running }
    }

    /// Where the run stands.
    pub fn status(&self) -> (status: Status)
        ensures
            status == self@.status,
            self@.done <= self@.actions.len(),
            status == Status::Succeeded ==> self@.done == self@.actions.len(),
    {
        proof {
            use_type_invariant(self);
        }
        self.status
    }

    /// How many changes have been made.
    pub fn done(&self) -> (done: usize)
        ensures
            done == self@.done,
    {
        self.done
    }

    /// How many changes the plan holds.
    pub fn total(&self) -> (total: usize)
        ensures
            total == self@.actions.len(),
    {
        self.actions.len()
    }

    /// The change that the caller has to make next. `None` when the run is
    /// over or every change has been made.
    pub fn next_action(&self) -> (next: Option<&Action>)
        ensures
            match next {
                Some(a) => pending(self@) == Some(a@),
                None => pending(self@) is None,
            },
    {
        match self.status {
            Status::Running => {
                if self.done < self.actions.len() {
                    Some(&self.actions[self.done])
                } else {
                    None
                }
            },
            _ => None,
        }
    }

    /// Takes the caller's report on the pending change and says what to
    /// tell the observer.
    ///
    /// After a success the run stands at the next change; where none was
    /// pending, the run ends and the closing event is given. A failure stops
    /// the run. A run that is over is left as it is, with nothing to tell.
    pub fn settle(&mut self, outcome: Result<(), SyncError>) -> (event: Option<ProgressEvent>)
        ensures
            final(self)@ == step(old(self)@, outcome).0,
            match event {
                Some(e) => step(old(self)@, outcome).1 == Some(e@),
                None => step(old(self)@, outcome).1 is None,
            },
    {
        proof {
            use_type_invariant(&*self);
        }
        match self.status {
            Status::Running => {},
            _ => {
                return None;
            },
        }
        match outcome {
            Err(e) => {
                self.status = Status::Failed(e);
                Some(ProgressEvent::Failed(e))
            },
            Ok(_) => {
                if self.done < self.actions.len() {
                    let made = &self.actions[self.done];
                    let event = ProgressEvent::Changed(
                        Action { category: made.category, path: made.path.clone() },
                    );
                    self.done = self.done + 1;
                    Some(event)
                } else {
                    self.status = Status::Succeeded;
                    Some(ProgressEvent::Complete)
                }
            },
        }
    }
}

} // verus!
