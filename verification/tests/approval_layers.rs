use takusu_agent::approval_layers::{classify, classify_set, ApprovalLayer};
use takusu_agent::capability::InputPath;
use takusu_agent::labels::{ChangeOperation, TargetKind};
use takusu_agent::tool::{ProposedChange, Target};

fn change(op: ChangeOperation) -> ProposedChange {
    ProposedChange {
        operation: op,
        target: Target::new(TargetKind::Task, "1"),
        description: "test".into(),
        ..Default::default()
    }
}

fn snooze_change(minutes: i64) -> ProposedChange {
    ProposedChange {
        operation: ChangeOperation::Snooze,
        target: Target::new(TargetKind::Task, "1"),
        description: format!("{minutes}分後に再開"),
        arguments: Some(format!("{{\"snooze_minutes\":{minutes}}}")),
        ..Default::default()
    }
}

#[test]
fn start_from_screen_capability_is_immediate() {
    assert_eq!(classify(&change(ChangeOperation::Start), InputPath::ScreenCapability), ApprovalLayer::Immediate);
}

#[test]
fn start_from_plain_text_is_screen_required() {
    assert_eq!(classify(&change(ChangeOperation::Start), InputPath::PlainText), ApprovalLayer::ScreenRequired);
}

#[test]
fn short_snooze_from_capability_is_immediate() {
    assert_eq!(classify(&snooze_change(10), InputPath::ScreenCapability), ApprovalLayer::Immediate);
}

#[test]
fn long_snooze_from_capability_is_screen_required() {
    assert_eq!(classify(&snooze_change(120), InputPath::ScreenCapability), ApprovalLayer::ScreenRequired);
}

#[test]
fn progress_from_explicit_voice_session_is_voice_confirmed() {
    assert_eq!(
        classify(&change(ChangeOperation::Progress), InputPath::ExplicitVoiceSession),
        ApprovalLayer::VoiceConfirmed
    );
}

#[test]
fn progress_from_screen_capability_is_screen_required() {
    assert_eq!(
        classify(&change(ChangeOperation::Progress), InputPath::ScreenCapability),
        ApprovalLayer::ScreenRequired
    );
}

#[test]
fn wake_word_start_is_ambient_immediate() {
    assert_eq!(classify(&change(ChangeOperation::Start), InputPath::AmbientWakeWord), ApprovalLayer::AmbientImmediate);
}

#[test]
fn delete_is_always_screen_required() {
    for path in [
        InputPath::PlainText,
        InputPath::ScreenCapability,
        InputPath::ExplicitVoiceSession,
        InputPath::AmbientWakeWord,
    ] {
        assert_eq!(
            classify(&change(ChangeOperation::Delete), path),
            ApprovalLayer::ScreenRequired,
            "delete from {path:?} should be screen-required"
        );
    }
}

#[test]
fn compound_task_set_stays_voice_confirmed() {
    let changes = vec![change(ChangeOperation::Move), change(ChangeOperation::Update)];
    assert_eq!(classify_set(&changes, InputPath::ExplicitVoiceSession), ApprovalLayer::VoiceConfirmed);
}

#[test]
fn undo_from_capability_is_immediate() {
    assert_eq!(classify(&change(ChangeOperation::Undo), InputPath::ScreenCapability), ApprovalLayer::Immediate);
}

#[test]
fn undo_from_plain_text_is_screen_required() {
    assert_eq!(classify(&change(ChangeOperation::Undo), InputPath::PlainText), ApprovalLayer::ScreenRequired);
}

#[test]
fn undo_from_explicit_voice_is_immediate() {
    assert_eq!(classify(&change(ChangeOperation::Undo), InputPath::ExplicitVoiceSession), ApprovalLayer::Immediate);
}

#[test]
fn compound_with_delete_promotes_to_screen_required() {
    let changes = vec![change(ChangeOperation::Update), change(ChangeOperation::Delete)];
    assert_eq!(classify_set(&changes, InputPath::ExplicitVoiceSession), ApprovalLayer::ScreenRequired);
}

#[test]
fn screen_required_needs_no_voice_but_voice_confirmed_does() {
    assert!(ApprovalLayer::VoiceConfirmed.requires_voice_confirmation());
    assert!(!ApprovalLayer::ScreenRequired.requires_voice_confirmation());
    assert!(ApprovalLayer::Immediate.is_immediate());
    assert!(ApprovalLayer::AmbientImmediate.is_ambient_immediate());
}

#[test]
fn compound_task_set_needs_the_screen_outside_a_voice_session() {
    let changes = vec![change(ChangeOperation::Move), change(ChangeOperation::Update)];
    for path in [InputPath::PlainText, InputPath::ScreenCapability, InputPath::AmbientWakeWord] {
        assert_eq!(classify_set(&changes, path), ApprovalLayer::ScreenRequired, "{path:?}");
    }
}
