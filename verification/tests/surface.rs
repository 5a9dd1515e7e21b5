use takusu_agent::session::{ApprovalRequest, TurnEvent, TurnResult};
use takusu_agent::surface::{
    AudioCallback, StateScope, SurfaceCommand, SurfaceSnapshot, SurfaceState, SurfaceStateMachine,
};

fn approval_result() -> TurnResult {
    TurnResult {
        text: String::new(),
        changes: Vec::new(),
        schedule_dirty: false,
        approval_request: Some(ApprovalRequest {
            id: "approval-1".into(),
            why: "test".into(),
            changes: Vec::new(),
            inferred_fields: Vec::new(),
            warnings: Vec::new(),
            expires_at: 1_700_000_000,
        }),
        presentation: None,
    }
}

fn done_result() -> TurnResult {
    TurnResult {
        text: "done".into(),
        changes: Vec::new(),
        schedule_dirty: false,
        approval_request: None,
        presentation: None,
    }
}

fn correct_asr_call() -> TurnEvent {
    TurnEvent::ToolCall {
        name: "correct_asr".into(),
        call_id: "call-1".into(),
        arguments: "{}".into(),
    }
}

fn machine_in(state: SurfaceState) -> SurfaceStateMachine {
    let mut machine = SurfaceStateMachine::new();
    match state {
        SurfaceState::Idle => {
            machine.begin_operation(None);
        }
        SurfaceState::Listening => {
            machine.apply_audio_callback(AudioCallback::Listening);
        }
        SurfaceState::Transcribing => {
            machine.apply_audio_callback(AudioCallback::Transcribing);
        }
        SurfaceState::Thinking => {
            machine.apply_turn_event(&TurnEvent::Thinking("thinking".into()));
        }
        SurfaceState::WaitingForUser => {
            machine.apply_turn_event(&correct_asr_call());
        }
        SurfaceState::WaitingForApproval => {
            machine.apply_turn_event(&TurnEvent::Done(approval_result()));
        }
        SurfaceState::Speaking => {
            machine.apply_audio_callback(AudioCallback::Speaking);
        }
        SurfaceState::Error => {
            machine.apply_turn_event(&TurnEvent::Error("failed".into()));
        }
    }
    assert_eq!(machine.snapshot().state, state);
    machine
}

#[test]
fn initial_snapshot_is_device_scoped_and_idle() {
    let snapshot = SurfaceStateMachine::new().snapshot();
    assert_eq!(snapshot, SurfaceSnapshot::default());
    assert_eq!(snapshot.scope, StateScope::Device);
    assert_eq!(snapshot.state, SurfaceState::Idle);
    assert_eq!(snapshot.revision, 0);
    assert_eq!(snapshot.operation_id, None);
}

#[test]
fn turn_and_audio_events_follow_the_scripted_state_sequence() {
    let mut machine = SurfaceStateMachine::new();
    machine.apply_turn_event(&TurnEvent::Thinking("working".into()));
    machine.apply_audio_callback(AudioCallback::Speaking);
    machine.apply_audio_callback(AudioCallback::PlaybackFinished);

    let states: Vec<_> = machine.take_events().into_iter().map(|s| s.state).collect();
    assert_eq!(
        states,
        vec![SurfaceState::Thinking, SurfaceState::Speaking, SurfaceState::Idle]
    );
    assert!(machine.take_events().is_empty());
}

#[test]
fn turn_events_enter_user_and_approval_waiting_states() {
    let mut machine = SurfaceStateMachine::new();
    let operation_id = machine.begin_operation(Some("session-1".into()));
    machine.apply_turn_event_for(operation_id, &correct_asr_call());
    assert_eq!(machine.snapshot().state, SurfaceState::WaitingForUser);

    machine.apply_turn_event_for(
        operation_id,
        &TurnEvent::ToolResult {
            name: "correct_asr".into(),
            call_id: "call-1".into(),
            content: "[]".into(),
            is_error: false,
        },
    );
    assert_eq!(machine.snapshot().state, SurfaceState::Thinking);

    machine.apply_turn_event_for(operation_id, &TurnEvent::Done(approval_result()));
    assert_eq!(machine.snapshot().state, SurfaceState::WaitingForApproval);
}

#[test]
fn each_surface_command_is_only_accepted_in_its_contract_state() {
    let states = [
        SurfaceState::Idle,
        SurfaceState::Listening,
        SurfaceState::Transcribing,
        SurfaceState::Thinking,
        SurfaceState::WaitingForUser,
        SurfaceState::WaitingForApproval,
        SurfaceState::Speaking,
        SurfaceState::Error,
    ];
    let commands = [
        (SurfaceCommand::ConfirmRecording, SurfaceState::Listening),
        (SurfaceCommand::OpenPanel, SurfaceState::Thinking),
        (SurfaceCommand::StopTts, SurfaceState::Speaking),
        (SurfaceCommand::OpenApproval, SurfaceState::WaitingForApproval),
        (SurfaceCommand::ShowRecovery, SurfaceState::Error),
    ];

    for state in states {
        for (command, expected_state) in commands {
            let mut machine = machine_in(state);
            let operation_id = machine.snapshot().operation_id;
            let response = machine.command_for(operation_id, command);
            assert_eq!(response.accepted, state == expected_state);
            assert_eq!(response.command, command);
            assert_eq!(
                response.snapshot.state,
                if state == expected_state {
                    match command {
                        SurfaceCommand::ConfirmRecording => SurfaceState::Transcribing,
                        SurfaceCommand::StopTts => SurfaceState::Idle,
                        _ => state,
                    }
                } else {
                    state
                }
            );
        }
    }
}

#[test]
fn stale_operation_events_and_commands_are_ignored() {
    let mut machine = SurfaceStateMachine::new();
    let first = machine.begin_operation(Some("first".into()));
    machine.apply_turn_event_for(first, &TurnEvent::Thinking("first".into()));
    let second = machine.begin_operation(Some("second".into()));
    machine.apply_turn_event_for(second, &TurnEvent::Thinking("second".into()));

    machine.apply_turn_event_for(first, &TurnEvent::Error("stale".into()));
    let command = machine.command_for(Some(first), SurfaceCommand::OpenPanel);
    assert!(!command.accepted);
    assert_eq!(machine.snapshot().operation_id, Some(second));
    assert_eq!(machine.snapshot().state, SurfaceState::Thinking);
}

#[test]
fn playback_finish_does_not_clear_a_pending_approval() {
    let mut machine = machine_in(SurfaceState::WaitingForApproval);
    let operation_id = machine.snapshot().operation_id.unwrap();
    machine.apply_audio_callback_for(operation_id, AudioCallback::PlaybackFinished);
    assert_eq!(machine.snapshot().state, SurfaceState::WaitingForApproval);
}

#[test]
fn done_and_playback_finish_converge_in_either_order() {
    let mut first = SurfaceStateMachine::new();
    let first_operation = first.begin_operation(Some("first".into()));
    first.apply_audio_callback_for(first_operation, AudioCallback::Speaking);
    first.apply_audio_callback_for(first_operation, AudioCallback::PlaybackFinished);
    first.apply_turn_event_for(first_operation, &TurnEvent::Done(done_result()));
    assert_eq!(first.snapshot().state, SurfaceState::Idle);

    let mut second = SurfaceStateMachine::new();
    let second_operation = second.begin_operation(Some("second".into()));
    second.apply_audio_callback_for(second_operation, AudioCallback::Speaking);
    second.apply_turn_event_for(second_operation, &TurnEvent::Done(done_result()));
    assert_eq!(second.snapshot().state, SurfaceState::Speaking);
    second.apply_audio_callback_for(second_operation, AudioCallback::PlaybackFinished);
    assert_eq!(second.snapshot().state, SurfaceState::Idle);
}

#[test]
fn stop_tts_keeps_a_turn_operation_alive_until_done() {
    let mut machine = SurfaceStateMachine::new();
    let operation_id = machine.begin_operation(Some("turn".into()));
    machine.apply_audio_callback_for(operation_id, AudioCallback::Speaking);
    let response = machine.command_for(Some(operation_id), SurfaceCommand::StopTts);
    assert!(response.accepted);
    machine.apply_turn_event_for(operation_id, &TurnEvent::Done(done_result()));
    assert_eq!(machine.snapshot().state, SurfaceState::Idle);
}

#[test]
fn committed_changes_bump_revisions_one_by_one() {
    let mut machine = SurfaceStateMachine::new();
    machine.apply_audio_callback(AudioCallback::Listening);
    machine.apply_audio_callback(AudioCallback::Transcribing);
    let revisions: Vec<u64> = machine.take_events().into_iter().map(|s| s.revision).collect();
    assert_eq!(revisions, vec![1, 2]);
}

#[test]
fn failed_turn_records_the_error_message() {
    let mut machine = SurfaceStateMachine::new();
    let snapshot = machine.apply_turn_event(&TurnEvent::Error("boom".into()));
    assert_eq!(snapshot.state, SurfaceState::Error);
    assert_eq!(snapshot.error.as_deref(), Some("boom"));
}
