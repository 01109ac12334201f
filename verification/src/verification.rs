//! The interactive device-verification handshake's decisions.
//!
//! For every flow that reaches the key-exchange stage the application spawns
//! one task that races the flow's next state-change notification against a
//! fixed timeout and hands each outcome to `VerificationFlowTask::step`. The
//! task auto-confirms once a human-comparable short code is available, at
//! most once per flow, and actively cancels a flow whose timeout fires while
//! it is not already done or cancelled.

use vstd::prelude::*;

verus! {

/// The categories of inbound verification protocol events.
pub enum VerificationEventKind {
    Request,
    Start,
    Key,
    Mac,
    Cancel,
    Done,
}

/// What the coordinator does with one inbound event: accept the request with
/// the peer's methods, accept the started verification, spawn the per-flow
/// confirmation task, or only record the event.
pub enum CoordinatorAction {
    AcceptRequest,
    AcceptVerification,
    SpawnConfirmTask,
    RecordOnly,
}

/// The coordinator's response to each event category.
pub open spec fn spec_coordinator_response(kind: VerificationEventKind) -> CoordinatorAction {
    match kind {
        VerificationEventKind::Request => CoordinatorAction::AcceptRequest,
        VerificationEventKind::Start => CoordinatorAction::AcceptVerification,
        VerificationEventKind::Key => CoordinatorAction::SpawnConfirmTask,
        VerificationEventKind::Mac => CoordinatorAction::RecordOnly,
        VerificationEventKind::Cancel => CoordinatorAction::RecordOnly,
        VerificationEventKind::Done => CoordinatorAction::RecordOnly,
    }
}

/// Decides how the coordinator reacts to one inbound verification event:
/// requests and starts are accepted, a key exchange spawns the flow's
/// confirmation task, and mac/cancel/done are recorded only.
pub fn coordinator_response(kind: &VerificationEventKind) -> (action: CoordinatorAction)
    ensures
        action == spec_coordinator_response(*kind),
{
    match kind {
        VerificationEventKind::Request => CoordinatorAction::AcceptRequest,
        VerificationEventKind::Start => CoordinatorAction::AcceptVerification,
        VerificationEventKind::Key => CoordinatorAction::SpawnConfirmTask,
        VerificationEventKind::Mac => CoordinatorAction::RecordOnly,
        VerificationEventKind::Cancel => CoordinatorAction::RecordOnly,
        VerificationEventKind::Done => CoordinatorAction::RecordOnly,
    }
}

/// One outcome of the per-flow race between the flow's next state change and
/// the stage timeout.
pub enum FlowEvent {
    StateChanged { cancelled: bool, done: bool, code_available: bool },
    TimedOut,
    StreamEnded,
}

/// What the task does after one outcome: nothing, send the one confirmation,
/// or actively cancel the flow.
pub enum FlowAction {
    DoNothing,
    SendConfirm,
    SendCancel,
}

/// Where the task stands: still waiting for a comparable code, having sent
/// its one confirmation, or finished.
pub enum FlowPhase {
    WaitingForCode,
    Confirmed,
    Ended,
}

/// How one outcome transforms the task: a terminal state change or the
/// stream's end finishes the task silently; a code seen while waiting is
/// confirmed exactly once; a timeout before the flow is done or cancelled
/// cancels the flow.
pub open spec fn spec_flow_step(phase: FlowPhase, event: FlowEvent) -> (FlowPhase, FlowAction) {
    match phase {
        FlowPhase::Ended => (FlowPhase::Ended, FlowAction::DoNothing),
        FlowPhase::WaitingForCode => match event {
            FlowEvent::StateChanged { cancelled, done, code_available } => {
                if cancelled || done {
                    (FlowPhase::Ended, FlowAction::DoNothing)
                } else if code_available {
                    (FlowPhase::Confirmed, FlowAction::SendConfirm)
                } else {
                    (FlowPhase::WaitingForCode, FlowAction::DoNothing)
                }
            },
            FlowEvent::TimedOut => (FlowPhase::Ended, FlowAction::SendCancel),
            FlowEvent::StreamEnded => (FlowPhase::Ended, FlowAction::DoNothing),
        },
        FlowPhase::Confirmed => match event {
            FlowEvent::StateChanged { cancelled, done, .. } => {
                if cancelled || done {
                    (FlowPhase::Ended, FlowAction::DoNothing)
                } else {
                    (FlowPhase::Confirmed, FlowAction::DoNothing)
                }
            },
            FlowEvent::TimedOut => (FlowPhase::Ended, FlowAction::SendCancel),
            FlowEvent::StreamEnded => (FlowPhase::Ended, FlowAction::DoNothing),
        },
    }
}

/// The confirmation task for one verification flow. Each flow id has exactly
/// one task, the sole owner of that flow's comparison data.
pub struct VerificationFlowTask {
    pub phase: FlowPhase,
}

impl VerificationFlowTask {
    /// A task freshly spawned for a flow that reached the key-exchange stage.
    pub fn new() -> (task: VerificationFlowTask)
        ensures
            task.phase == FlowPhase::WaitingForCode,
    {
        VerificationFlowTask { phase: FlowPhase::WaitingForCode }
    }

    /// Reacts to one outcome of the race, exactly as the step function says.
    pub fn step(&mut self, event: &FlowEvent) -> (action: FlowAction)
        ensures
            (final(self).phase, action) == spec_flow_step(old(self).phase, *event),
    {
        match self.phase {
            FlowPhase::Ended => FlowAction::DoNothing,
            FlowPhase::WaitingForCode => match event {
                FlowEvent::StateChanged { cancelled, done, code_available } => {
                    if *cancelled || *done {
                        self.phase = FlowPhase::Ended;
                        FlowAction::DoNothing
                    } else if *code_available {
                        self.phase = FlowPhase::Confirmed;
                        FlowAction::SendConfirm
                    } else {
                        FlowAction::DoNothing
                    }
                },
                FlowEvent::TimedOut => {
                    self.phase = FlowPhase::Ended;
                    FlowAction::SendCancel
                },
                FlowEvent::StreamEnded => {
                    self.phase = FlowPhase::Ended;
                    FlowAction::DoNothing
                },
            },
            FlowPhase::Confirmed => match event {
                FlowEvent::StateChanged { cancelled, done, .. } => {
                    if *cancelled || *done {
                        self.phase = FlowPhase::Ended;
                        FlowAction::DoNothing
                    } else {
                        FlowAction::DoNothing
                    }
                },
                FlowEvent::TimedOut => {
                    self.phase = FlowPhase::Ended;
                    FlowAction::SendCancel
                },
                FlowEvent::StreamEnded => {
                    self.phase = FlowPhase::Ended;
                    FlowAction::DoNothing
                },
            },
        }
    }

    /// Whether the task has finished and should exit.
    pub fn is_finished(&self) -> (r: bool)
        ensures
            r == (self.phase == FlowPhase::Ended),
    {
        match self.phase {
            FlowPhase::Ended => true,
            _ => false,
        }
    }
}

/// The actions a task emits over a whole sequence of race outcomes.
pub open spec fn run_flow_actions(phase: FlowPhase, events: Seq<FlowEvent>) -> Seq<FlowAction>
    decreases events.len(),
{
    if events.len() == 0 {
        Seq::empty()
    } else {
        let (next, action) = spec_flow_step(phase, events[0]);
        seq![action] + run_flow_actions(next, events.drop_first())
    }
}

/// How often an action occurs in a run.
pub open spec fn count_action(actions: Seq<FlowAction>, a: FlowAction) -> nat
    decreases actions.len(),
{
    if actions.len() == 0 {
        0
    } else {
        (if actions[0] == a {
            1nat
        } else {
            0nat
        }) + count_action(actions.drop_first(), a)
    }
}

/// A state change in which the flow is neither cancelled nor done and no
/// comparable code is available yet: the task keeps waiting.
pub open spec fn quiet_wait(e: FlowEvent) -> bool {
    e == (FlowEvent::StateChanged { cancelled: false, done: false, code_available: false })
}

/// A state change in which the flow is neither cancelled nor done.
pub open spec fn nonterminal_change(e: FlowEvent) -> bool {
    e matches FlowEvent::StateChanged { cancelled: false, done: false, .. }
}

/// A state change in which the flow is cancelled or done.
pub open spec fn terminal_change(e: FlowEvent) -> bool {
    e matches FlowEvent::StateChanged { cancelled, done, .. } && (cancelled || done)
}

/// A finished task acts on nothing further.
proof fn lemma_ended_emits_nothing(events: Seq<FlowEvent>)
    ensures
        count_action(run_flow_actions(FlowPhase::Ended, events), FlowAction::SendConfirm) == 0,
        count_action(run_flow_actions(FlowPhase::Ended, events), FlowAction::SendCancel) == 0,
    decreases events.len(),
{
    if events.len() > 0 {
        lemma_ended_emits_nothing(events.drop_first());
        assert(run_flow_actions(FlowPhase::Ended, events).drop_first()
            =~= run_flow_actions(FlowPhase::Ended, events.drop_first()));
    }
}

/// After its one confirmation, a task that sees only non-terminal state
/// changes until a terminal one arrives sends nothing further.
proof fn lemma_confirmed_emits_nothing(events: Seq<FlowEvent>, d: int)
    requires
        0 <= d < events.len(),
        forall|i: int| 0 <= i < d ==> nonterminal_change(#[trigger] events[i]),
        terminal_change(events[d]),
    ensures
        count_action(run_flow_actions(FlowPhase::Confirmed, events), FlowAction::SendConfirm) == 0,
        count_action(run_flow_actions(FlowPhase::Confirmed, events), FlowAction::SendCancel) == 0,
    decreases d,
{
    let rest = events.drop_first();
    if d == 0 {
        assert(spec_flow_step(FlowPhase::Confirmed, events[0])
            == (FlowPhase::Ended, FlowAction::DoNothing));
        lemma_ended_emits_nothing(rest);
        assert(run_flow_actions(FlowPhase::Confirmed, events).drop_first()
            =~= run_flow_actions(FlowPhase::Ended, rest));
    } else {
        assert(nonterminal_change(events[0]));
        assert(spec_flow_step(FlowPhase::Confirmed, events[0])
            == (FlowPhase::Confirmed, FlowAction::DoNothing));
        assert(terminal_change(rest[d - 1]));
        lemma_confirmed_emits_nothing(rest, d - 1);
        assert(run_flow_actions(FlowPhase::Confirmed, events).drop_first()
            =~= run_flow_actions(FlowPhase::Confirmed, rest));
    }
}

/// When a flow at the key-exchange stage sees a comparable code become
/// available within the timeout and later completes, its task issues exactly
/// one confirm call and no cancel call.
pub proof fn lemma_code_available_confirms_once(events: Seq<FlowEvent>, c: int, d: int)
    requires
        0 <= c < d < events.len(),
        forall|i: int| 0 <= i < c ==> quiet_wait(#[trigger] events[i]),
        events[c] == (FlowEvent::StateChanged {
            cancelled: false,
            done: false,
            code_available: true,
        }),
        forall|i: int| c < i < d ==> nonterminal_change(#[trigger] events[i]),
        terminal_change(events[d]),
    ensures
        count_action(
            run_flow_actions(FlowPhase::WaitingForCode, events),
            FlowAction::SendConfirm,
        ) == 1,
        count_action(
            run_flow_actions(FlowPhase::WaitingForCode, events),
            FlowAction::SendCancel,
        ) == 0,
    decreases c,
{
    let rest = events.drop_first();
    if c == 0 {
        assert(spec_flow_step(FlowPhase::WaitingForCode, events[0])
            == (FlowPhase::Confirmed, FlowAction::SendConfirm));
        assert(terminal_change(rest[d - 1]));
        lemma_confirmed_emits_nothing(rest, d - 1);
        assert(run_flow_actions(FlowPhase::WaitingForCode, events).drop_first()
            =~= run_flow_actions(FlowPhase::Confirmed, rest));
    } else {
        assert(quiet_wait(events[0]));
        assert(spec_flow_step(FlowPhase::WaitingForCode, events[0])
            == (FlowPhase::WaitingForCode, FlowAction::DoNothing));
        assert(rest[c - 1] == events[c]);
        assert(terminal_change(rest[d - 1]));
        lemma_code_available_confirms_once(rest, c - 1, d - 1);
        assert(run_flow_actions(FlowPhase::WaitingForCode, events).drop_first()
            =~= run_flow_actions(FlowPhase::WaitingForCode, rest));
    }
}

/// When no comparable code appears before the timeout fires and the flow is
/// not already done or cancelled, the task issues exactly one cancel call and
/// no confirm call.
pub proof fn lemma_timeout_cancels_once(events: Seq<FlowEvent>, t: int)
    requires
        0 <= t < events.len(),
        forall|i: int| 0 <= i < t ==> quiet_wait(#[trigger] events[i]),
        events[t] == FlowEvent::TimedOut,
    ensures
        count_action(
            run_flow_actions(FlowPhase::WaitingForCode, events),
            FlowAction::SendCancel,
        ) == 1,
        count_action(
            run_flow_actions(FlowPhase::WaitingForCode, events),
            FlowAction::SendConfirm,
        ) == 0,
    decreases t,
{
    let rest = events.drop_first();
    if t == 0 {
        assert(spec_flow_step(FlowPhase::WaitingForCode, events[0])
            == (FlowPhase::Ended, FlowAction::SendCancel));
        lemma_ended_emits_nothing(rest);
        assert(run_flow_actions(FlowPhase::WaitingForCode, events).drop_first()
            =~= run_flow_actions(FlowPhase::Ended, rest));
    } else {
        assert(quiet_wait(events[0]));
        assert(spec_flow_step(FlowPhase::WaitingForCode, events[0])
            == (FlowPhase::WaitingForCode, FlowAction::DoNothing));
        assert(rest[t - 1] == events[t]);
        lemma_timeout_cancels_once(rest, t - 1);
        assert(run_flow_actions(FlowPhase::WaitingForCode, events).drop_first()
            =~= run_flow_actions(FlowPhase::WaitingForCode, rest));
    }
}

} // verus!
