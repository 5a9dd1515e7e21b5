use takusu_agent::approval_layers::ApprovalLayer;
use takusu_agent::audio::{
    tts_api_key, TtsBackend,
    AmbientFailure,
    ambient_error, ambient_speaker_accepted, apply_voice_resolution, approve_by_voice, barge_in_mode, utterance_text,
    cancel_by_voice, closed_vocabulary_answer, defer_to_screen, defer_unverified, feeds_recognizer,
    frame_samples, listening_over, on_vad_event, reference_delay_samples, settled_answer,
    transcribes_barge_in, turn_audio_plan, voice_approval_route, voice_confirm_step, AudioError,
    ConfirmStep, PlaybackTail, ReferenceAligner, TailStep, TurnTaskOutcome, VadEvent,
    VoiceApprovalRoute, MAX_VOICE_CONFIRM_ATTEMPTS,
};
use takusu_agent::labels::{ChangeOperation, TargetKind};
use takusu_agent::presentation::Presentation;
use takusu_agent::session::{ApprovalRequest, ApprovalResult, TurnResult};
use takusu_agent::tool::{ChangeReceipt, ProposedChange, ReceiptTarget, Target};

fn request() -> ApprovalRequest {
    ApprovalRequest {
        id: "s1-approval-1".into(),
        why: "理由".into(),
        changes: vec![ProposedChange {
            operation: ChangeOperation::Create,
            target: Target::new(TargetKind::Task, "#1"),
            description: "作成".into(),
            ..Default::default()
        }],
        inferred_fields: Vec::new(),
        warnings: vec!["w".into()],
        expires_at: 300,
    }
}

fn turn_with_request() -> TurnResult {
    TurnResult {
        text: "作りますか".into(),
        changes: Vec::new(),
        schedule_dirty: false,
        approval_request: Some(request()),
        presentation: None,
    }
}

fn receipt() -> ChangeReceipt {
    ChangeReceipt {
        operation: ChangeOperation::Create,
        target: ReceiptTarget { target_type: TargetKind::Task, target_id: "t1".into() },
        before: None,
        after: None,
        target_revision: None,
        inferred_fields: None,
    }
}

#[test]
fn audio_error_recoverability_and_text() {
    assert!(AudioError::Timeout.is_recoverable());
    assert!(AudioError::Record("x".into()).is_recoverable());
    assert!(AudioError::Transcribe("x".into()).is_recoverable());
    assert!(AudioError::Tts("x".into()).is_recoverable());
    assert!(AudioError::Play("x".into()).is_recoverable());
    assert!(AudioError::Other("x".into()).is_recoverable());
    assert!(!AudioError::UserCancelled.is_recoverable());
    assert!(!AudioError::Lock("x".into()).is_recoverable());
    assert!(!AudioError::Speaker("x".into()).is_recoverable());
    assert!(!AudioError::UnsupportedBackend("android".into()).is_recoverable());

    assert_eq!(AudioError::Record("mic".into()).to_string(), "recording failed: mic");
    assert_eq!(AudioError::UnsupportedBackend("android".into()).to_string(), "audio backend android is not supported");
    assert_eq!(AudioError::Timeout.to_string(), "audio operation timed out");
    assert_eq!(AudioError::UserCancelled.to_string(), "audio session stopped");
    assert_eq!(AudioError::Speaker("no model".into()).to_string(), "speaker verification failed: no model");
    assert_eq!(AudioError::Other("plain".into()).to_string(), "plain");
}

#[test]
fn turn_speaks_and_listens_only_when_allowed() {
    let plan = turn_audio_plan(true, false, true);
    assert!(plan.speak && plan.barge_in);
    let muted = turn_audio_plan(true, true, true);
    assert!(!muted.speak && !muted.barge_in);
    let quiet = turn_audio_plan(false, false, true);
    assert!(!quiet.speak && !quiet.barge_in);
    let no_barge = turn_audio_plan(true, false, false);
    assert!(no_barge.speak && !no_barge.barge_in);
}

#[test]
fn turn_tail_waits_for_both_speech_tasks_and_listening() {
    let tail = PlaybackTail::new(true);
    let tail = match tail.on_task(TurnTaskOutcome::TtsDone) {
        TailStep::Wait(t) => t,
        _ => panic!("one speech task is still running"),
    };
    let tail = match tail.on_task(TurnTaskOutcome::TtsDone) {
        TailStep::Wait(t) => t,
        _ => panic!("still listening for barge-in"),
    };
    assert!(matches!(
        tail.on_task(TurnTaskOutcome::BargeIn(None)),
        TailStep::Finish { barge_in: None, error: None }
    ));

    let quiet = PlaybackTail::new(false);
    let quiet = match quiet.on_task(TurnTaskOutcome::TtsDone) {
        TailStep::Wait(t) => t,
        _ => panic!("one speech task is still running"),
    };
    assert!(matches!(quiet.on_task(TurnTaskOutcome::TtsDone), TailStep::Finish { barge_in: None, error: None }));

    let interrupted = PlaybackTail::new(true).on_task(TurnTaskOutcome::BargeIn(Some("待って".into())));
    assert!(matches!(interrupted, TailStep::Finish { barge_in: Some(t), error: None } if t == "待って"));

    let failed = PlaybackTail::new(true).on_task(TurnTaskOutcome::Failed(AudioError::Play("x".into())));
    assert!(matches!(failed, TailStep::Finish { barge_in: None, error: Some(AudioError::Play(_)) }));
}

#[test]
fn reference_is_aligned_with_the_microphone() {
    let frame = frame_samples(16_000);
    assert_eq!(frame, 160);
    let delay = reference_delay_samples(50, 16_000);
    assert_eq!(delay, 800);

    let mut aligner = ReferenceAligner::new(frame, delay);
    // 2000 reference samples queued before the microphone opened: the
    // first frame starts level with the latest reference, less the delay.
    assert_eq!(aligner.next_window(2000), (320, 160));
    assert_eq!(aligner.consumed, 8);
    assert_eq!(aligner.next_window(2000), (480, 160));
    // Past the end of the reference there is nothing to cancel.
    let mut late = ReferenceAligner { frame, delay, consumed: 20, initialized: true };
    assert_eq!(late.next_window(2000), (2400, 0));
    let mut partial = ReferenceAligner { frame, delay, consumed: 17, initialized: true };
    assert_eq!(partial.next_window(2000), (1920, 80));

    assert!(!listening_over(&aligner, true, 2000, false));
    let drained = ReferenceAligner { frame, delay, consumed: 18, initialized: true };
    assert!(drained.reference_drained(2000));
    assert!(listening_over(&drained, true, 2000, false));
    assert!(!listening_over(&drained, false, 2000, false));
    assert!(!listening_over(&drained, true, 2000, true));
}

#[test]
fn barge_in_reacts_to_speech() {
    let start = on_vad_event(false, VadEvent::SpeechStart, false);
    assert!(start.capturing && start.stop_playback && !start.stop_listening);
    let tap = on_vad_event(false, VadEvent::SpeechStart, true);
    assert!(tap.capturing && tap.stop_playback && tap.stop_listening);
    let end = on_vad_event(true, VadEvent::SpeechEnd, false);
    assert!(end.capturing && !end.stop_playback && end.stop_listening);
    let stray = on_vad_event(false, VadEvent::SpeechEnd, false);
    assert!(!stray.capturing && !stray.stop_playback && !stray.stop_listening);

    let aec = barge_in_mode(true, true);
    assert!(aec.use_aec && !aec.tap_to_stop);
    let tap_mode = barge_in_mode(false, true);
    assert!(tap_mode.tap_to_stop);
    assert!(feeds_recognizer(true, aec));
    assert!(!feeds_recognizer(true, tap_mode));
    assert!(!feeds_recognizer(false, aec));
    assert!(transcribes_barge_in(aec, 10));
    assert!(!transcribes_barge_in(aec, 0));
    assert!(!transcribes_barge_in(tap_mode, 10));

    assert_eq!(utterance_text("  ".into()), None);
    assert_eq!(utterance_text(" 止めて ".into()), Some(" 止めて ".to_string()));
}

#[test]
fn spoken_answers_in_the_closed_vocabulary() {
    for yes in ["はい", "うん", "yes", "ok", "おう"] {
        assert_eq!(closed_vocabulary_answer(yes), Some(true));
    }
    for no in ["いいえ", "いや", "no", "やだ", "キャンセル"] {
        assert_eq!(closed_vocabulary_answer(no), Some(false));
    }
    assert_eq!(closed_vocabulary_answer("はい、お願いします"), None);
    assert_eq!(settled_answer(None, Some(true)), Some(true));
    assert_eq!(settled_answer(Some(false), Some(true)), Some(false));
}

#[test]
fn voice_confirmation_needs_a_verified_answer() {
    assert_eq!(MAX_VOICE_CONFIRM_ATTEMPTS, 3);
    assert_eq!(voice_confirm_step(0, true, Some(true), Some(true)), ConfirmStep::Answered(true));
    assert_eq!(voice_confirm_step(2, true, Some(false), Some(true)), ConfirmStep::Answered(false));
    assert_eq!(voice_confirm_step(0, true, Some(true), Some(false)), ConfirmStep::Again { reprompt: true });
    assert_eq!(voice_confirm_step(0, true, None, Some(true)), ConfirmStep::Again { reprompt: true });
    assert_eq!(voice_confirm_step(1, false, None, None), ConfirmStep::Again { reprompt: false });
    assert_eq!(voice_confirm_step(2, true, Some(true), None), ConfirmStep::GiveUp);
    assert_eq!(voice_confirm_step(2, false, None, None), ConfirmStep::GiveUp);
}

#[test]
fn voice_approval_routes_by_layer() {
    assert_eq!(voice_approval_route(ApprovalLayer::VoiceConfirmed), VoiceApprovalRoute::Confirm);
    assert_eq!(voice_approval_route(ApprovalLayer::AmbientImmediate), VoiceApprovalRoute::Ambient);
    assert_eq!(voice_approval_route(ApprovalLayer::ScreenRequired), VoiceApprovalRoute::Surface);
    assert_eq!(voice_approval_route(ApprovalLayer::Immediate), VoiceApprovalRoute::Surface);
    assert!(ambient_speaker_accepted(false, None));
    assert!(ambient_speaker_accepted(true, Some(true)));
    assert!(!ambient_speaker_accepted(true, Some(false)));
    assert!(!ambient_speaker_accepted(true, None));
}

#[test]
fn voice_approval_outcomes() {
    let mut approved = turn_with_request();
    approve_by_voice(
        &mut approved,
        ApprovalResult {
            id: "s1-approval-1".into(),
            approved: true,
            changes: vec![receipt()],
            schedule_dirty: true,
            presentation: None,
        },
    );
    assert_eq!(approved.text, "承認しました。承認しました。");
    assert_eq!(approved.changes.len(), 1);
    assert!(approved.schedule_dirty);
    assert!(approved.approval_request.is_none());
    assert!(matches!(&approved.presentation, Some(Presentation::Text { text }) if text == "承認しました。"));

    let mut declined = turn_with_request();
    apply_voice_resolution(
        &mut declined,
        ApprovalResult {
            id: "s1-approval-1".into(),
            approved: false,
            changes: Vec::new(),
            schedule_dirty: false,
            presentation: None,
        },
    );
    assert_eq!(declined.text, "キャンセルしました。");
    assert!(declined.approval_request.is_none());

    let mut cancelled = turn_with_request();
    cancelled.changes.push(receipt());
    cancel_by_voice(
        &mut cancelled,
        ApprovalResult { id: "x".into(), approved: false, changes: Vec::new(), schedule_dirty: true, presentation: None },
    );
    assert!(cancelled.changes.is_empty());
    assert!(cancelled.schedule_dirty);

    let mut unverified = turn_with_request();
    defer_unverified(&mut unverified);
    assert_eq!(unverified.text, "話者確認が取れなかったため、画面で承認をお待ちします。");
    assert!(unverified.approval_request.is_some());
    assert!(matches!(&unverified.presentation, Some(Presentation::ChangeProposal(r)) if r.id == "s1-approval-1" && r.warnings == vec!["w".to_string()]));

    let mut deferred = turn_with_request();
    defer_to_screen(&mut deferred, "タスクを作成します");
    assert_eq!(deferred.text, "タスクを作成します。画面で承認をお待ちします。");
    assert!(matches!(&deferred.presentation, Some(Presentation::ChangeProposal(r)) if r.changes.len() == 1));
}

#[test]
fn wake_word_failures_map_to_audio_errors() {
    assert!(matches!(ambient_error(AmbientFailure::Cancelled), AudioError::UserCancelled));
    assert!(matches!(ambient_error(AmbientFailure::Record("r".into())), AudioError::Record(t) if t == "r"));
    assert!(matches!(ambient_error(AmbientFailure::Asr("a".into())), AudioError::Transcribe(t) if t == "a"));
    assert!(matches!(ambient_error(AmbientFailure::Stt("s".into())), AudioError::Transcribe(t) if t == "s"));
    assert!(matches!(
        ambient_error(AmbientFailure::Wake("w".into())),
        AudioError::Other(t) if t == "ambient pipeline failed: w"
    ));
}

#[test]
fn build_tts_rejects_android_backend() {
    match tts_api_key(TtsBackend::Android, "", None, false) {
        Err(e) => assert!(e.to_string().contains("android")),
        Ok(_) => panic!("expected android backend to be rejected"),
    }
}

#[test]
fn build_tts_allows_missing_api_key_when_muted() {
    // `NONEXISTENT_API_KEY` is not set in the environment.
    assert!(tts_api_key(TtsBackend::Cartesia, "", None, true).is_ok());
}

#[test]
fn build_tts_rejects_missing_api_key_when_not_muted() {
    assert!(tts_api_key(TtsBackend::Cartesia, "", None, false).is_err());
}

#[test]
fn tts_api_key_prefers_the_configured_key() {
    assert_eq!(tts_api_key(TtsBackend::Fish, "k1", Some("k2".into()), false).unwrap(), "k1");
    assert_eq!(tts_api_key(TtsBackend::Fish, "", Some("k2".into()), false).unwrap(), "k2");
    assert_eq!(
        tts_api_key(TtsBackend::Fish, "", None, false).unwrap_err().to_string(),
        "tts failed: missing Fish Audio API key"
    );
}
