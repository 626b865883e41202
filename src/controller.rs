//! The invocation controller: a state machine that decides, from each event
//! of a benchmark invocation, what the runner does next.
//!
//! The runner performs the actions (dashboard calls, loading and executing
//! workloads) and feeds back what happened. Workloads run strictly in list
//! order, the first failure stops the sequence and is reported once, and an
//! interrupt is reported as a cancellation before the sequence is stopped;
//! one that comes while a failure is being reported is reported as a
//! cancellation once that report was attempted.
use vstd::prelude::*;

verus! {

/// Message sent to the dashboard when a workload faults; the fault's own
/// payload is never sent.
pub const FAULT_MESSAGE: &'static str = "Panicked";

/// Final status of an invocation.
#[derive(Clone, Copy, Debug, PartialEq, Eq, Structural)]
pub enum Outcome {
    /// Every workload ran; nothing is sent to the dashboard.
    Success,
    /// A workload failed to load or to run; it was reported as failed.
    Failure,
    /// A workload faulted; it was reported as failed with a fixed message.
    Panic,
    /// The run was interrupted; it was reported as cancelled.
    Cancelled,
    /// No invocation could be created, so there is nothing to report to.
    Fatal,
}

impl Outcome {
    /// Whether the process ends with exit code 0.
    pub fn exits_cleanly(&self) -> (r: bool)
        ensures
            r == (*self == Outcome::Success || *self == Outcome::Cancelled),
    {
        match self {
            Outcome::Success | Outcome::Cancelled => true,
            _ => false,
        }
    }
}

/// Where an invocation stands.
#[derive(Clone, Copy, Debug, PartialEq, Eq, Structural)]
pub enum Stage {
    /// Build provenance not yet checked.
    Starting,
    /// The dashboard is creating the invocation.
    Creating,
    /// Workload `index` is being read and parsed.
    Loading { index: usize },
    /// Workload `index` is running.
    Executing { index: usize },
    /// A failure is being reported; `fault` when a workload faulted,
    /// `interrupted` when an interrupt came in meanwhile.
    ReportingFailure { fault: bool, interrupted: bool },
    /// After a failure report, an interrupt is being reported as a
    /// cancellation.
    CancellingAfterFailure { fault: bool },
    /// The cancellation is being reported; no workload starts any more.
    Cancelling,
    /// The invocation is over.
    Done { outcome: Outcome },
}

/// What happened since the last action.
#[derive(Clone, Debug, PartialEq, Eq)]
pub enum Event {
    /// Environment and build provenance were collected.
    Started { has_commit_message: bool },
    /// The dashboard created the invocation.
    Created,
    /// The dashboard could not create the invocation.
    CreationFailed,
    /// The current workload file was read and parsed.
    Loaded,
    /// The current workload file could not be read or parsed.
    LoadFailed { message: String },
    /// The current workload ran to completion.
    Executed,
    /// The current workload returned an error.
    ExecutionFailed { message: String },
    /// The current workload faulted instead of returning.
    Faulted,
    /// The operator interrupted the run.
    Interrupted,
    /// The pending dashboard report was attempted, whether or not it got
    /// through.
    Reported,
}

/// What the runner does next.
#[derive(Clone, Debug, PartialEq, Eq)]
pub enum Action {
    /// Create the invocation on the dashboard.
    CreateInvocation { max_workloads: usize },
    /// Read and parse workload `index`.
    LoadWorkload { index: usize },
    /// Run workload `index`.
    ExecuteWorkload { index: usize },
    /// Report the invocation as failed.
    MarkFailed { message: String },
    /// Report the invocation as cancelled, then stop the running workload.
    CancelInvocation,
    /// End the process with this outcome.
    Finish { outcome: Outcome },
    /// Nothing to do for this event.
    Wait,
}

/// An event with its messages as character sequences.
pub enum EventView {
    Started { has_commit_message: bool },
    Created,
    CreationFailed,
    Loaded,
    LoadFailed { message: Seq<char> },
    Executed,
    ExecutionFailed { message: Seq<char> },
    Faulted,
    Interrupted,
    Reported,
}

/// An action with its message as a character sequence.
pub enum ActionView {
    CreateInvocation { max_workloads: usize },
    LoadWorkload { index: usize },
    ExecuteWorkload { index: usize },
    MarkFailed { message: Seq<char> },
    CancelInvocation,
    Finish { outcome: Outcome },
    Wait,
}

impl View for Event {
    type V = EventView;

    open spec fn view(&self) -> EventView {
        match self {
            Event::Started { has_commit_message } => EventView::Started {
                has_commit_message: *has_commit_message,
            },
            Event::Created => EventView::Created,
            Event::CreationFailed => EventView::CreationFailed,
            Event::Loaded => EventView::Loaded,
            Event::LoadFailed { message } => EventView::LoadFailed { message: message@ },
            Event::Executed => EventView::Executed,
            Event::ExecutionFailed { message } => EventView::ExecutionFailed {
                message: message@,
            },
            Event::Faulted => EventView::Faulted,
            Event::Interrupted => EventView::Interrupted,
            Event::Reported => EventView::Reported,
        }
    }
}

impl View for Action {
    type V = ActionView;

    open spec fn view(&self) -> ActionView {
        match self {
            Action::CreateInvocation { max_workloads } => ActionView::CreateInvocation {
                max_workloads: *max_workloads,
            },
            Action::LoadWorkload { index } => ActionView::LoadWorkload { index: *index },
            Action::ExecuteWorkload { index } => ActionView::ExecuteWorkload { index: *index },
            Action::MarkFailed { message } => ActionView::MarkFailed { message: message@ },
            Action::CancelInvocation => ActionView::CancelInvocation,
            Action::Finish { outcome } => ActionView::Finish { outcome: *outcome },
            Action::Wait => ActionView::Wait,
        }
    }
}

/// The controller of one invocation over `workload_count` workloads.
#[derive(Clone, Copy, Debug, PartialEq, Eq, Structural)]
pub struct Controller {
    pub workload_count: usize,
    pub stage: Stage,
}

/// The outcome of a failure report: `Panic` after a fault, else `Failure`.
pub open spec fn failure_outcome(fault: bool) -> Outcome {
    if fault {
        Outcome::Panic
    } else {
        Outcome::Failure
    }
}

/// The stage that follows workload `index` once it ran, and the action taken.
pub open spec fn after_workload(n: usize, index: usize) -> (Stage, ActionView) {
    if index + 1 < n {
        (
            Stage::Loading { index: (index + 1) as usize },
            ActionView::LoadWorkload { index: (index + 1) as usize },
        )
    } else {
        (Stage::Done { outcome: Outcome::Success }, ActionView::Finish { outcome: Outcome::Success })
    }
}

/// One transition: the next stage, and the action for the runner. Events
/// that a stage does not expect leave it unchanged and ask for nothing.
pub open spec fn transition(n: usize, stage: Stage, e: EventView) -> (Stage, ActionView) {
    let ignore = (stage, ActionView::Wait);
    match stage {
        Stage::Starting => match e {
            EventView::Started { has_commit_message } => if has_commit_message {
                (Stage::Creating, ActionView::CreateInvocation { max_workloads: n })
            } else {
                (Stage::Done { outcome: Outcome::Fatal }, ActionView::Finish { outcome: Outcome::Fatal })
            },
            EventView::Interrupted => (
                Stage::Done { outcome: Outcome::Cancelled },
                ActionView::Finish { outcome: Outcome::Cancelled },
            ),
            _ => ignore,
        },
        Stage::Creating => match e {
            EventView::Created => if n == 0 {
                (Stage::Done { outcome: Outcome::Success }, ActionView::Finish { outcome: Outcome::Success })
            } else {
                (Stage::Loading { index: 0 }, ActionView::LoadWorkload { index: 0 })
            },
            EventView::CreationFailed => (
                Stage::Done { outcome: Outcome::Fatal },
                ActionView::Finish { outcome: Outcome::Fatal },
            ),
            EventView::Interrupted => (
                Stage::Done { outcome: Outcome::Cancelled },
                ActionView::Finish { outcome: Outcome::Cancelled },
            ),
            _ => ignore,
        },
        Stage::Loading { index } => match e {
            EventView::Loaded => (
                Stage::Executing { index },
                ActionView::ExecuteWorkload { index },
            ),
            EventView::LoadFailed { message } => (
                Stage::ReportingFailure { fault: false, interrupted: false },
                ActionView::MarkFailed { message },
            ),
            EventView::Faulted => (
                Stage::ReportingFailure { fault: true, interrupted: false },
                ActionView::MarkFailed { message: FAULT_MESSAGE@ },
            ),
            EventView::Interrupted => (Stage::Cancelling, ActionView::CancelInvocation),
            _ => ignore,
        },
        Stage::Executing { index } => match e {
            EventView::Executed => after_workload(n, index),
            EventView::ExecutionFailed { message } => (
                Stage::ReportingFailure { fault: false, interrupted: false },
                ActionView::MarkFailed { message },
            ),
            EventView::Faulted => (
                Stage::ReportingFailure { fault: true, interrupted: false },
                ActionView::MarkFailed { message: FAULT_MESSAGE@ },
            ),
            EventView::Interrupted => (Stage::Cancelling, ActionView::CancelInvocation),
            _ => ignore,
        },
        Stage::ReportingFailure { fault, interrupted } => match e {
            EventView::Reported => if interrupted {
                (Stage::CancellingAfterFailure { fault }, ActionView::CancelInvocation)
            } else {
                (
                    Stage::Done { outcome: failure_outcome(fault) },
                    ActionView::Finish { outcome: failure_outcome(fault) },
                )
            },
            EventView::Interrupted => (
                Stage::ReportingFailure { fault, interrupted: true },
                ActionView::Wait,
            ),
            _ => ignore,
        },
        Stage::CancellingAfterFailure { fault } => match e {
            EventView::Reported => (
                Stage::Done { outcome: failure_outcome(fault) },
                ActionView::Finish { outcome: failure_outcome(fault) },
            ),
            _ => ignore,
        },
        Stage::Cancelling => match e {
            EventView::Reported => (
                Stage::Done { outcome: Outcome::Cancelled },
                ActionView::Finish { outcome: Outcome::Cancelled },
            ),
            _ => ignore,
        },
        Stage::Done { .. } => ignore,
    }
}

/// The controller after an event, and the action it asks for.
pub open spec fn step_spec(c: Controller, e: EventView) -> (Controller, ActionView) {
    let t = transition(c.workload_count, c.stage, e);
    (Controller { workload_count: c.workload_count, stage: t.0 }, t.1)
}

impl Controller {
    /// The controller before anything happened.
    pub open spec fn initial(n: usize) -> Controller {
        Controller { workload_count: n, stage: Stage::Starting }
    }

    /// A workload being loaded or run is one of the list.
    pub open spec fn wf(self) -> bool {
        match self.stage {
            Stage::Loading { index } => index < self.workload_count,
            Stage::Executing { index } => index < self.workload_count,
            _ => true,
        }
    }

    /// A controller for an invocation over `workload_count` workloads.
    pub fn new(workload_count: usize) -> (r: Controller)
        ensures
            r == Controller::initial(workload_count),
            r.wf(),
    {
        Controller { workload_count, stage: Stage::Starting }
    }

    /// Whether the invocation is over, and how it ended.
    pub fn outcome(&self) -> (r: Option<Outcome>)
        ensures
            r == (match self.stage {
                Stage::Done { outcome } => Some(outcome),
                _ => None,
            }),
    {
        match self.stage {
            Stage::Done { outcome } => Some(outcome),
            _ => None,
        }
    }

    /// Takes in one event and returns the action that follows from it.
    pub fn step(&mut self, event: Event) -> (a: Action)
        requires
            old(self).wf(),
        ensures
            final(self).wf(),
            (*final(self), a@) == step_spec(*old(self), event@),
    {
        let n = self.workload_count;
        let (next, action) = match self.stage {
            Stage::Starting => match event {
                Event::Started { has_commit_message } => if has_commit_message {
                    (Stage::Creating, Action::CreateInvocation { max_workloads: n })
                } else {
                    (Stage::Done { outcome: Outcome::Fatal }, Action::Finish { outcome: Outcome::Fatal })
                },
                Event::Interrupted => (
                    Stage::Done { outcome: Outcome::Cancelled },
                    Action::Finish { outcome: Outcome::Cancelled },
                ),
                _ => (self.stage, Action::Wait),
            },
            Stage::Creating => match event {
                Event::Created => if n == 0 {
                    (Stage::Done { outcome: Outcome::Success }, Action::Finish { outcome: Outcome::Success })
                } else {
                    (Stage::Loading { index: 0 }, Action::LoadWorkload { index: 0 })
                },
                Event::CreationFailed => (
                    Stage::Done { outcome: Outcome::Fatal },
                    Action::Finish { outcome: Outcome::Fatal },
                ),
                Event::Interrupted => (
                    Stage::Done { outcome: Outcome::Cancelled },
                    Action::Finish { outcome: Outcome::Cancelled },
                ),
                _ => (self.stage, Action::Wait),
            },
            Stage::Loading { index } => match event {
                Event::Loaded => (Stage::Executing { index }, Action::ExecuteWorkload { index }),
                Event::LoadFailed { message } => (
                    Stage::ReportingFailure { fault: false, interrupted: false },
                    Action::MarkFailed { message },
                ),
                Event::Faulted => (
                    Stage::ReportingFailure { fault: true, interrupted: false },
                    Action::MarkFailed { message: String::from_str(FAULT_MESSAGE) },
                ),
                Event::Interrupted => (Stage::Cancelling, Action::CancelInvocation),
                _ => (self.stage, Action::Wait),
            },
            Stage::Executing { index } => match event {
                Event::Executed => if index + 1 < n {
                    (Stage::Loading { index: index + 1 }, Action::LoadWorkload { index: index + 1 })
                } else {
                    (Stage::Done { outcome: Outcome::Success }, Action::Finish { outcome: Outcome::Success })
                },
                Event::ExecutionFailed { message } => (
                    Stage::ReportingFailure { fault: false, interrupted: false },
                    Action::MarkFailed { message },
                ),
                Event::Faulted => (
                    Stage::ReportingFailure { fault: true, interrupted: false },
                    Action::MarkFailed { message: String::from_str(FAULT_MESSAGE) },
                ),
                Event::Interrupted => (Stage::Cancelling, Action::CancelInvocation),
                _ => (self.stage, Action::Wait),
            },
            Stage::ReportingFailure { fault, interrupted } => match event {
                Event::Reported => if interrupted {
                    (Stage::CancellingAfterFailure { fault }, Action::CancelInvocation)
                } else {
                    let outcome = if fault {
                        Outcome::Panic
                    } else {
                        Outcome::Failure
                    };
                    (Stage::Done { outcome }, Action::Finish { outcome })
                },
                Event::Interrupted => (
                    Stage::ReportingFailure { fault, interrupted: true },
                    Action::Wait,
                ),
                _ => (self.stage, Action::Wait),
            },
            Stage::CancellingAfterFailure { fault } => match event {
                Event::Reported => {
                    let outcome = if fault {
                        Outcome::Panic
                    } else {
                        Outcome::Failure
                    };
                    (Stage::Done { outcome }, Action::Finish { outcome })
                },
                _ => (self.stage, Action::Wait),
            },
            Stage::Cancelling => match event {
                Event::Reported => (
                    Stage::Done { outcome: Outcome::Cancelled },
                    Action::Finish { outcome: Outcome::Cancelled },
                ),
                _ => (self.stage, Action::Wait),
            },
            Stage::Done { .. } => (self.stage, Action::Wait),
        };
        self.stage = next;
        action
    }
}

} // verus!
