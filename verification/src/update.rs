//! Model-update progress requests and the decisions taken while an update task reports.

use vstd::prelude::*;

use crate::error::CoreMLError;

verus! {

/// Progress events that may be requested from an update task.
#[derive(Debug, Clone, Copy, PartialEq, Eq, Structural)]
pub enum UpdateEvent {
    /// Beginning of training.
    TrainingBegin,
    /// End of one epoch.
    EpochEnd,
    /// End of one mini-batch.
    MiniBatchEnd,
}

/// `MLTaskState` snapshot.
#[derive(Debug, Clone, Copy, PartialEq, Eq, Structural)]
pub enum UpdateTaskState {
    /// Task is suspended.
    Suspended,
    /// Task is running.
    Running,
    /// Task is cancelling.
    Cancelling,
    /// Task completed successfully.
    Completed,
    /// Task failed.
    Failed,
    /// Unknown state string from the bridge.
    Unknown,
}

impl Default for UpdateTaskState {
    fn default() -> (s: Self)
        ensures
            s == UpdateTaskState::Suspended,
    {
        UpdateTaskState::Suspended
    }
}

/// The name of a task state as it appears in messages.
pub open spec fn task_state_text(s: UpdateTaskState) -> Seq<char> {
    match s {
        UpdateTaskState::Suspended => "Suspended"@,
        UpdateTaskState::Running => "Running"@,
        UpdateTaskState::Cancelling => "Cancelling"@,
        UpdateTaskState::Completed => "Completed"@,
        UpdateTaskState::Failed => "Failed"@,
        UpdateTaskState::Unknown => "Unknown"@,
    }
}

impl UpdateTaskState {
    /// The name of this state as it appears in messages.
    pub fn debug_text(&self) -> (s: String)
        ensures
            s@ == task_state_text(*self),
    {
        match self {
            UpdateTaskState::Suspended => String::from_str("Suspended"),
            UpdateTaskState::Running => String::from_str("Running"),
            UpdateTaskState::Cancelling => String::from_str("Cancelling"),
            UpdateTaskState::Completed => String::from_str("Completed"),
            UpdateTaskState::Failed => String::from_str("Failed"),
            UpdateTaskState::Unknown => String::from_str("Unknown"),
        }
    }
}

/// Whether no event occurs twice in a list.
pub open spec fn no_duplicates(events: Seq<UpdateEvent>) -> bool {
    forall|i: int, j: int|
        0 <= i < events.len() && 0 <= j < events.len() && i != j ==> #[trigger] events[i]
            != #[trigger] events[j]
}

/// An event list with `event` requested too: appended when it is new, unchanged otherwise.
pub open spec fn add_event(events: Seq<UpdateEvent>, event: UpdateEvent) -> Seq<UpdateEvent> {
    if events.contains(event) {
        events
    } else {
        events.push(event)
    }
}

/// The three public update events, in the order `all` requests them.
pub open spec fn every_event() -> Seq<UpdateEvent> {
    seq![UpdateEvent::TrainingBegin, UpdateEvent::EpochEnd, UpdateEvent::MiniBatchEnd]
}

/// Progress-handler configuration: the events to report, in the order they were first
/// requested, and the handler to call on each report.
pub struct UpdateProgressHandlers<H> {
    interested_events: Vec<UpdateEvent>,
    on_progress: Option<H>,
}

impl<H> UpdateProgressHandlers<H> {
    /// The requested events, in the order they were first requested.
    pub closed spec fn events(&self) -> Seq<UpdateEvent> {
        self.interested_events@
    }

    /// The progress handler, if one was set.
    pub closed spec fn handler(&self) -> Option<H> {
        self.on_progress
    }

    #[verifier::type_invariant]
    closed spec fn events_distinct(&self) -> bool {
        no_duplicates(self.interested_events@)
    }

    /// A configuration that requests no events and has no handler.
    pub fn new() -> (h: Self)
        ensures
            h.events() == Seq::<UpdateEvent>::empty(),
            h.handler() is None,
    {
        UpdateProgressHandlers { interested_events: Vec::new(), on_progress: None }
    }

    /// Request one more event; an event already requested keeps its place.
    pub fn with_event(self, event: UpdateEvent) -> (h: Self)
        ensures
            h.events() == add_event(self.events(), event),
            h.handler() == self.handler(),
    {
        proof {
            use_type_invariant(&self);
        }
        let UpdateProgressHandlers { mut interested_events, on_progress } = self;
        let mut found = false;
        let mut i: usize = 0;
        while i < interested_events.len()
            invariant
                i <= interested_events.len(),
                found <==> interested_events@.take(i as int).contains(event),
            decreases interested_events.len() - i,
        {
            let ghost prev = interested_events@.take(i as int);
            let ghost next = interested_events@.take(i + 1);
            assert(next =~= prev.push(interested_events@[i as int]));
            if interested_events[i] == event {
                found = true;
                assert(next[i as int] == event);
            } else {
                assert(next.contains(event) <==> prev.contains(event)) by {
                    if next.contains(event) {
                        let j = choose|j: int| 0 <= j < next.len() && next[j] == event;
                        assert(prev[j] == event);
                    }
                    if prev.contains(event) {
                        let j = choose|j: int| 0 <= j < prev.len() && prev[j] == event;
                        assert(next[j] == event);
                    }
                }
            }
            i = i + 1;
        }
        assert(interested_events@.take(interested_events.len() as int) =~= interested_events@);
        if !found {
            interested_events.push(event);
        }
        UpdateProgressHandlers { interested_events, on_progress }
    }

    /// Request all three public update events.
    pub fn all() -> (h: Self)
        ensures
            h.events() == every_event(),
            h.handler() is None,
    {
        let h = Self::new().with_event(UpdateEvent::TrainingBegin);
        assert(!Seq::<UpdateEvent>::empty().contains(UpdateEvent::TrainingBegin));
        let h = h.with_event(UpdateEvent::EpochEnd);
        assert(!seq![UpdateEvent::TrainingBegin].contains(UpdateEvent::EpochEnd)) by {
            assert(seq![UpdateEvent::TrainingBegin][0] != UpdateEvent::EpochEnd);
        }
        let h = h.with_event(UpdateEvent::MiniBatchEnd);
        assert(!seq![UpdateEvent::TrainingBegin, UpdateEvent::EpochEnd].contains(
            UpdateEvent::MiniBatchEnd,
        )) by {
            let s = seq![UpdateEvent::TrainingBegin, UpdateEvent::EpochEnd];
            assert(s[0] != UpdateEvent::MiniBatchEnd && s[1] != UpdateEvent::MiniBatchEnd);
        }
        assert(h.events() =~= every_event());
        h
    }

    /// The requested events, in the order they were first requested.
    pub fn interested_events(&self) -> (events: &[UpdateEvent])
        ensures
            events@ == self.events(),
            no_duplicates(events@),
    {
        proof {
            use_type_invariant(self);
        }
        self.interested_events.as_slice()
    }

    /// Set the handler called on each progress report.
    pub fn on_progress(self, handler: H) -> (h: Self)
        ensures
            h.events() == self.events(),
            h.handler() == Some(handler),
    {
        proof {
            use_type_invariant(&self);
        }
        let UpdateProgressHandlers { interested_events, on_progress: _ } = self;
        UpdateProgressHandlers { interested_events, on_progress: Some(handler) }
    }

    /// Take the configuration apart into its requested events and its handler.
    pub fn into_parts(self) -> (parts: (Vec<UpdateEvent>, Option<H>))
        ensures
            parts.0@ == self.events(),
            parts.1 == self.handler(),
            no_duplicates(parts.0@),
    {
        proof {
            use_type_invariant(&self);
        }
        let UpdateProgressHandlers { interested_events, on_progress } = self;
        (interested_events, on_progress)
    }
}

/// Requesting an event twice is the same as requesting it once, and a requested event list
/// never holds an event twice.
pub proof fn lemma_add_event_idempotent(events: Seq<UpdateEvent>, event: UpdateEvent)
    requires
        no_duplicates(events),
    ensures
        add_event(add_event(events, event), event) == add_event(events, event),
        add_event(events, event).contains(event),
        no_duplicates(add_event(events, event)),
{
    let added = add_event(events, event);
    if !events.contains(event) {
        assert(added[added.len() - 1] == event);
        assert forall|i: int, j: int|
            0 <= i < added.len() && 0 <= j < added.len() && i != j implies #[trigger] added[i]
            != #[trigger] added[j] by {
            if i == added.len() - 1 && j < events.len() {
                assert(added[j] == events[j]);
            } else if j == added.len() - 1 && i < events.len() {
                assert(added[i] == events[i]);
            }
        }
    }
}

/// Requesting an event keeps every earlier request in its place.
pub proof fn lemma_add_event_keeps_order(events: Seq<UpdateEvent>, event: UpdateEvent)
    ensures
        add_event(events, event).len() >= events.len(),
        forall|i: int| 0 <= i < events.len() ==> #[trigger] add_event(events, event)[i] == events[i],
{
}

/// What an update task's progress channel produced while the task was awaited.
pub enum UpdateSignal {
    /// A progress report, already decoded and recorded.
    Progress,
    /// The completion report: the task's final state, whether an updated model came with it,
    /// and the failure text the task reported, if any.
    Completion { state: UpdateTaskState, has_model: bool, failure: Option<String> },
    /// The timeout elapsed before the next report.
    TimedOut,
    /// The task stopped reporting without completing.
    Disconnected,
}

/// What an update run does next.
pub enum UpdateStep {
    /// Wait for the next report.
    Continue,
    /// Return the updated model and the recorded reports.
    Finish,
    /// Return this error.
    Fail(CoreMLError),
}

/// Message of the error reported when an update task stops reporting.
pub open spec fn disconnected_message() -> Seq<char> {
    "CoreML update task stopped reporting progress"@
}

/// The error reported when an update task stops reporting progress before completing.
pub fn update_disconnected() -> (e: CoreMLError)
    ensures
        e matches CoreMLError::UpdateFailed(m) && m@ == disconnected_message(),
{
    CoreMLError::UpdateFailed(String::from_str("CoreML update task stopped reporting progress"))
}

/// The error reported when an update report cannot be decoded.
pub fn update_decode_failure(detail: &str) -> (e: CoreMLError)
    ensures
        e matches CoreMLError::UpdateFailed(m) && m@ == "failed to decode update context JSON: "@
            + detail@,
{
    let mut m = String::from_str("failed to decode update context JSON: ");
    m.append(detail);
    CoreMLError::UpdateFailed(m)
}

/// Decide what an update run does after a signal from the task.
///
/// A progress report keeps the run waiting. A completion finishes the run successfully only
/// when the task completed and produced a model; a failed task fails with the failure it
/// reported (or a generic message), and any other final state fails naming the state. A
/// timeout or a silent task fails the run.
pub fn update_step(signal: UpdateSignal) -> (step: UpdateStep)
    ensures
        step is Continue <==> signal is Progress,
        step is Finish <==> (signal matches UpdateSignal::Completion { state, has_model, .. }
            && state == UpdateTaskState::Completed && has_model),
        signal is TimedOut ==> (step matches UpdateStep::Fail(CoreMLError::TimedOut(m)) && m@
            == "CoreML update task did not finish before the timeout and was cancelled"@),
        signal is Disconnected ==> (step matches UpdateStep::Fail(CoreMLError::UpdateFailed(m))
            && m@ == disconnected_message()),
        signal matches UpdateSignal::Completion { state, has_model, failure } ==> {
            &&& state == UpdateTaskState::Failed ==> (step matches UpdateStep::Fail(
                CoreMLError::UpdateFailed(m),
            ) && m@ == match failure {
                Some(f) => f@,
                None => "CoreML update task failed"@,
            })
            &&& state != UpdateTaskState::Failed && !(state == UpdateTaskState::Completed
                && has_model) ==> (step matches UpdateStep::Fail(CoreMLError::UpdateFailed(m))
                && m@ == "CoreML update task finished in state "@ + task_state_text(state)
                + " without an updated model"@)
        },
{
    match signal {
        UpdateSignal::Progress => UpdateStep::Continue,
        UpdateSignal::TimedOut => UpdateStep::Fail(
            CoreMLError::TimedOut(
                String::from_str(
                    "CoreML update task did not finish before the timeout and was cancelled",
                ),
            ),
        ),
        UpdateSignal::Disconnected => UpdateStep::Fail(update_disconnected()),
        UpdateSignal::Completion { state, has_model, failure } => {
            if state == UpdateTaskState::Completed && has_model {
                UpdateStep::Finish
            } else if state == UpdateTaskState::Failed {
                let message = match failure {
                    Some(f) => f,
                    None => String::from_str("CoreML update task failed"),
                };
                UpdateStep::Fail(CoreMLError::UpdateFailed(message))
            } else {
                let mut m = String::from_str("CoreML update task finished in state ");
                let name = state.debug_text();
                m.append(name.as_str());
                m.append(" without an updated model");
                UpdateStep::Fail(CoreMLError::UpdateFailed(m))
            }
        },
    }
}

/// A report from an update task, with the decoded context of each progress or completion
/// report.
pub enum UpdateReport<C> {
    /// A progress report.
    Progress(C),
    /// The completion report: its context, the task's final state, whether an updated model
    /// came with it, and the failure text the task reported, if any.
    Completion { context: C, state: UpdateTaskState, has_model: bool, failure: Option<String> },
    /// The timeout elapsed before the next report.
    TimedOut,
    /// The task stopped reporting without completing.
    Disconnected,
}

/// What an update run does after recording a report.
pub enum UpdateAction {
    /// Call the progress handler, if there is one, on the context just recorded, then wait for
    /// the next report.
    NotifyProgress,
    /// Return the updated model with the recorded contexts; the task ended in this state.
    Finish(UpdateTaskState),
    /// Return this error.
    Fail(CoreMLError),
}

/// Record a report of an update task and decide what the run does next.
///
/// A progress or completion report appends its context to the recorded ones; a progress
/// report then asks for the handler call and the next report. A completion finishes the run
/// only when the task completed with a model; otherwise, and on a timeout or a silent task,
/// the run fails as `update_step` decides. A timeout or a silent task records nothing.
pub fn update_record<C>(contexts: &mut Vec<C>, report: UpdateReport<C>) -> (action: UpdateAction)
    ensures
        report matches UpdateReport::Progress(c) ==> final(contexts)@ == old(contexts)@.push(c)
            && action is NotifyProgress,
        report matches UpdateReport::Completion { context, state, has_model, failure } ==> {
            &&& final(contexts)@ == old(contexts)@.push(context)
            &&& state == UpdateTaskState::Completed && has_model ==> action
                == UpdateAction::Finish(state)
            &&& state == UpdateTaskState::Failed ==> (action matches UpdateAction::Fail(
                CoreMLError::UpdateFailed(m),
            ) && m@ == match failure {
                Some(f) => f@,
                None => "CoreML update task failed"@,
            })
            &&& state != UpdateTaskState::Failed && !(state == UpdateTaskState::Completed
                && has_model) ==> (action matches UpdateAction::Fail(CoreMLError::UpdateFailed(m))
                && m@ == "CoreML update task finished in state "@ + task_state_text(state)
                + " without an updated model"@)
        },
        report is TimedOut ==> final(contexts)@ == old(contexts)@ && (action matches UpdateAction::Fail(
            CoreMLError::TimedOut(m),
        ) && m@ == "CoreML update task did not finish before the timeout and was cancelled"@),
        report is Disconnected ==> final(contexts)@ == old(contexts)@ && (action matches UpdateAction::Fail(
            CoreMLError::UpdateFailed(m),
        ) && m@ == disconnected_message()),
{
    let signal = match report {
        UpdateReport::Progress(context) => {
            contexts.push(context);
            UpdateSignal::Progress
        },
        UpdateReport::Completion { context, state, has_model, failure } => {
            contexts.push(context);
            UpdateSignal::Completion { state, has_model, failure }
        },
        UpdateReport::TimedOut => UpdateSignal::TimedOut,
        UpdateReport::Disconnected => UpdateSignal::Disconnected,
    };
    match update_step(signal) {
        UpdateStep::Continue => UpdateAction::NotifyProgress,
        UpdateStep::Finish => UpdateAction::Finish(UpdateTaskState::Completed),
        UpdateStep::Fail(e) => UpdateAction::Fail(e),
    }
}

/// Synchronous helpers for CoreML model update APIs.
#[derive(Debug, Default, Clone, Copy)]
pub struct Update;

} // verus!
