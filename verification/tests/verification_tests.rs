use asmith_bot::verification::{
    coordinator_response, CoordinatorAction, FlowAction, FlowEvent, VerificationEventKind,
    VerificationFlowTask,
};

fn change(cancelled: bool, done: bool, code_available: bool) -> FlowEvent {
    FlowEvent::StateChanged { cancelled, done, code_available }
}

#[test]
fn code_within_timeout_confirms_exactly_once() {
    let mut task = VerificationFlowTask::new();
    let events = [
        change(false, false, false),
        change(false, false, true),
        change(false, false, true),
        change(false, true, false),
    ];
    let mut confirms = 0;
    let mut cancels = 0;
    for event in &events {
        match task.step(event) {
            FlowAction::SendConfirm => confirms += 1,
            FlowAction::SendCancel => cancels += 1,
            FlowAction::DoNothing => {}
        }
    }
    assert_eq!(confirms, 1);
    assert_eq!(cancels, 0);
    assert!(task.is_finished());
}

#[test]
fn timeout_without_code_cancels_exactly_once() {
    let mut task = VerificationFlowTask::new();
    let events = [
        change(false, false, false),
        change(false, false, false),
        FlowEvent::TimedOut,
    ];
    let mut confirms = 0;
    let mut cancels = 0;
    for event in &events {
        match task.step(event) {
            FlowAction::SendConfirm => confirms += 1,
            FlowAction::SendCancel => cancels += 1,
            FlowAction::DoNothing => {}
        }
    }
    assert_eq!(cancels, 1);
    assert_eq!(confirms, 0);
    assert!(task.is_finished());
}

#[test]
fn cancelled_flow_ends_silently() {
    let mut task = VerificationFlowTask::new();
    assert!(matches!(task.step(&change(true, false, false)), FlowAction::DoNothing));
    assert!(task.is_finished());
    // Nothing further is ever sent, even on a late timeout.
    assert!(matches!(task.step(&FlowEvent::TimedOut), FlowAction::DoNothing));
}

#[test]
fn stream_end_finishes_the_task_without_actions() {
    let mut task = VerificationFlowTask::new();
    assert!(matches!(task.step(&FlowEvent::StreamEnded), FlowAction::DoNothing));
    assert!(task.is_finished());
}

#[test]
fn timeout_after_confirmation_still_cancels_an_unfinished_flow() {
    let mut task = VerificationFlowTask::new();
    assert!(matches!(task.step(&change(false, false, true)), FlowAction::SendConfirm));
    assert!(!task.is_finished());
    assert!(matches!(task.step(&FlowEvent::TimedOut), FlowAction::SendCancel));
    assert!(task.is_finished());
}

#[test]
fn coordinator_dispatch_table() {
    assert!(matches!(
        coordinator_response(&VerificationEventKind::Request),
        CoordinatorAction::AcceptRequest
    ));
    assert!(matches!(
        coordinator_response(&VerificationEventKind::Start),
        CoordinatorAction::AcceptVerification
    ));
    assert!(matches!(
        coordinator_response(&VerificationEventKind::Key),
        CoordinatorAction::SpawnConfirmTask
    ));
    assert!(matches!(
        coordinator_response(&VerificationEventKind::Mac),
        CoordinatorAction::RecordOnly
    ));
    assert!(matches!(
        coordinator_response(&VerificationEventKind::Cancel),
        CoordinatorAction::RecordOnly
    ));
    assert!(matches!(
        coordinator_response(&VerificationEventKind::Done),
        CoordinatorAction::RecordOnly
    ));
}

#[test]
fn waiting_continues_while_no_code_is_available() {
    let mut task = VerificationFlowTask::new();
    for _ in 0..5 {
        assert!(matches!(task.step(&change(false, false, false)), FlowAction::DoNothing));
        assert!(!task.is_finished());
    }
}
