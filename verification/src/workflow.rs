//! The workflow state machine: one pull request per run, moving through
//! clean check, branch resolution, push, metadata fetch, the two
//! selections and submission, with every failed precondition aborting.
//! The surrounding program performs each stage's action and reports the
//! outcome back as an event.

use vstd::prelude::*;

verus! {

/// The stages of one run; `Submitted` and `Aborted` are terminal.
#[derive(PartialEq, Eq, Structural, Clone, Copy, Debug)]
pub enum WorkflowStage {
    Start,
    CleanChecked,
    BranchResolved,
    Pushed,
    MetadataFetched,
    LabelsSelected,
    ReviewersSelected,
    Submitted,
    Aborted,
}

/// What the surrounding program reports after performing an action.
#[derive(PartialEq, Eq, Structural, Clone, Copy, Debug)]
pub enum WorkflowEvent {
    CleanStatus { clean: bool },
    BranchResolution { found: bool },
    PushResult { ok: bool },
    MetadataReady,
    LabelsPicked,
    ReviewersPicked,
    SubmitResult { ok: bool },
}

/// What the surrounding program must do next in a given stage.
#[derive(PartialEq, Eq, Structural, Clone, Copy, Debug)]
pub enum WorkflowAction {
    CheckStatus,
    ResolveBranch,
    Push,
    FetchMetadata,
    PromptLabels,
    PromptReviewers,
    Submit,
    Stop,
}

/// Whether an action reaches the network: pushing, fetching metadata and
/// submitting do; the local queries and the prompts do not.
pub open spec fn is_network_action(a: WorkflowAction) -> bool {
    a is Push || a is FetchMetadata || a is Submit
}

/// The action owed in each stage.
pub open spec fn spec_action_of(stage: WorkflowStage) -> WorkflowAction {
    match stage {
        WorkflowStage::Start => WorkflowAction::CheckStatus,
        WorkflowStage::CleanChecked => WorkflowAction::ResolveBranch,
        WorkflowStage::BranchResolved => WorkflowAction::Push,
        WorkflowStage::Pushed => WorkflowAction::FetchMetadata,
        WorkflowStage::MetadataFetched => WorkflowAction::PromptLabels,
        WorkflowStage::LabelsSelected => WorkflowAction::PromptReviewers,
        WorkflowStage::ReviewersSelected => WorkflowAction::Submit,
        WorkflowStage::Submitted => WorkflowAction::Stop,
        WorkflowStage::Aborted => WorkflowAction::Stop,
    }
}

/// The next stage after an event: each arrow is one-way, a failed
/// precondition aborts, and an event out of protocol aborts as well.
pub open spec fn spec_step(stage: WorkflowStage, event: WorkflowEvent) -> WorkflowStage {
    match (stage, event) {
        (WorkflowStage::Start, WorkflowEvent::CleanStatus { clean }) => if clean {
            WorkflowStage::CleanChecked
        } else {
            WorkflowStage::Aborted
        },
        (WorkflowStage::CleanChecked, WorkflowEvent::BranchResolution { found }) => if found {
            WorkflowStage::BranchResolved
        } else {
            WorkflowStage::Aborted
        },
        (WorkflowStage::BranchResolved, WorkflowEvent::PushResult { ok }) => if ok {
            WorkflowStage::Pushed
        } else {
            WorkflowStage::Aborted
        },
        (WorkflowStage::Pushed, WorkflowEvent::MetadataReady) => WorkflowStage::MetadataFetched,
        (WorkflowStage::MetadataFetched, WorkflowEvent::LabelsPicked) => WorkflowStage::LabelsSelected,
        (WorkflowStage::LabelsSelected, WorkflowEvent::ReviewersPicked) => WorkflowStage::ReviewersSelected,
        (WorkflowStage::ReviewersSelected, WorkflowEvent::SubmitResult { ok }) => if ok {
            WorkflowStage::Submitted
        } else {
            WorkflowStage::Aborted
        },
        _ => WorkflowStage::Aborted,
    }
}

/// The action owed in `stage`.
pub fn action_of(stage: WorkflowStage) -> (r: WorkflowAction)
    ensures
        r == spec_action_of(stage),
{
    match stage {
        WorkflowStage::Start => WorkflowAction::CheckStatus,
        WorkflowStage::CleanChecked => WorkflowAction::ResolveBranch,
        WorkflowStage::BranchResolved => WorkflowAction::Push,
        WorkflowStage::Pushed => WorkflowAction::FetchMetadata,
        WorkflowStage::MetadataFetched => WorkflowAction::PromptLabels,
        WorkflowStage::LabelsSelected => WorkflowAction::PromptReviewers,
        WorkflowStage::ReviewersSelected => WorkflowAction::Submit,
        WorkflowStage::Submitted => WorkflowAction::Stop,
        WorkflowStage::Aborted => WorkflowAction::Stop,
    }
}

/// Advances the workflow by one reported event.
pub fn step(stage: WorkflowStage, event: WorkflowEvent) -> (r: WorkflowStage)
    ensures
        r == spec_step(stage, event),
{
    match (stage, event) {
        (WorkflowStage::Start, WorkflowEvent::CleanStatus { clean }) => if clean {
            WorkflowStage::CleanChecked
        } else {
            WorkflowStage::Aborted
        },
        (WorkflowStage::CleanChecked, WorkflowEvent::BranchResolution { found }) => if found {
            WorkflowStage::BranchResolved
        } else {
            WorkflowStage::Aborted
        },
        (WorkflowStage::BranchResolved, WorkflowEvent::PushResult { ok }) => if ok {
            WorkflowStage::Pushed
        } else {
            WorkflowStage::Aborted
        },
        (WorkflowStage::Pushed, WorkflowEvent::MetadataReady) => WorkflowStage::MetadataFetched,
        (WorkflowStage::MetadataFetched, WorkflowEvent::LabelsPicked) => WorkflowStage::LabelsSelected,
        (WorkflowStage::LabelsSelected, WorkflowEvent::ReviewersPicked) => WorkflowStage::ReviewersSelected,
        (WorkflowStage::ReviewersSelected, WorkflowEvent::SubmitResult { ok }) => if ok {
            WorkflowStage::Submitted
        } else {
            WorkflowStage::Aborted
        },
        _ => WorkflowStage::Aborted,
    }
}

/// The stage reached from `Start` after a sequence of events.
pub open spec fn run_stage(events: Seq<WorkflowEvent>) -> WorkflowStage
    decreases events.len(),
{
    if events.len() == 0 {
        WorkflowStage::Start
    } else {
        spec_step(run_stage(events.drop_last()), events.last())
    }
}

/// An aborted run stays aborted, whatever else is reported.
pub proof fn lemma_aborted_is_terminal(event: WorkflowEvent)
    ensures
        spec_step(WorkflowStage::Aborted, event) == WorkflowStage::Aborted,
{
}

proof fn lemma_abort_prefix(events: Seq<WorkflowEvent>, i: int)
    requires
        1 <= i <= events.len(),
        events[0] == (WorkflowEvent::CleanStatus { clean: false }),
    ensures
        run_stage(events.take(i)) == WorkflowStage::Aborted,
    decreases i,
{
    if i == 1 {
        assert(events.take(1).drop_last() =~= Seq::<WorkflowEvent>::empty());
        assert(events.take(1).last() == events[0]);
    } else {
        lemma_abort_prefix(events, i - 1);
        assert(events.take(i).drop_last() =~= events.take(i - 1));
    }
}

/// A dirty working tree aborts the run before any network contact: when
/// the first report says the tree is dirty, every stage the run reaches
/// afterwards is `Aborted`, and no stage of the whole run owes a network
/// action — no push, no fetch and no submission is ever requested.
pub proof fn lemma_dirty_tree_stops_before_network(events: Seq<WorkflowEvent>)
    requires
        events.len() >= 1,
        events[0] == (WorkflowEvent::CleanStatus { clean: false }),
    ensures
        forall|i: int| 1 <= i <= events.len() ==> run_stage(events.take(i)) == WorkflowStage::Aborted,
        forall|i: int|
            0 <= i <= events.len() ==> !is_network_action(spec_action_of(run_stage(events.take(i)))),
{
    assert forall|i: int| 1 <= i <= events.len() implies run_stage(events.take(i))
        == WorkflowStage::Aborted by {
        lemma_abort_prefix(events, i);
    }
    assert(events.take(0) =~= Seq::<WorkflowEvent>::empty());
}

} // verus!
