use takusu_agent::contact_policy::{
    delivery_mode_for, filter_events, postpone_reason_check_in, should_ask_postpone_reason, CommittedContactSummary,
    ContactPolicyState, DeliveryMode, SpeechPolicy, SuppressionReason, DAILY_CHECK_IN_CAP, IGNORED_DECAY_THRESHOLD,
};
use takusu_agent::events::{PlannerEvent, PlannerEventKind, Urgency};
use takusu_agent::presentation::{Action, ActionGroup, ActionKind, CheckInCard, Presentation};

fn check_in_card(question: &str) -> CheckInCard {
    let act = ActionGroup::new(
        "行動",
        vec![Action { id: "act".into(), label: "行動する".into(), kind: ActionKind::Immediate, capability: None }],
    )
    .unwrap();
    let shift = ActionGroup::new(
        "ズラす",
        vec![Action { id: "shift".into(), label: "ずらす".into(), kind: ActionKind::Panel, capability: None }],
    )
    .unwrap();
    CheckInCard::new(question, act, shift).unwrap()
}

fn event(kind: PlannerEventKind, urgency: Urgency, id: &str) -> PlannerEvent {
    PlannerEvent {
        id: id.into(),
        kind,
        task_ref: None,
        band: None,
        presentation: Presentation::CheckIn(check_in_card("テスト")),
        urgency,
        schedule_revision: 1,
        distribution_revision: None,
        due_at: 0,
    }
}

fn speech_policy_all_true() -> SpeechPolicy {
    SpeechPolicy { can_speak_proactively: true, quiet_hours: false, private_output: true, ongoing_voice_conversation: false }
}

#[test]
fn scheduled_notifications_are_excluded_from_cap() {
    let mut state = ContactPolicyState { proactive_check_in_count_today: DAILY_CHECK_IN_CAP, ..Default::default() };
    let events = vec![event(PlannerEventKind::TaskStartTimeReached, Urgency::Normal, "start-1")];
    let result = filter_events(events, &mut state, 0);
    assert_eq!(result.committed.len(), 1);
    assert!(result.suppressed_ids.is_empty());
}

#[test]
fn proactive_check_in_cap_suppresses_additional_events() {
    let mut state = ContactPolicyState { proactive_check_in_count_today: DAILY_CHECK_IN_CAP, ..Default::default() };
    let events = vec![event(PlannerEventKind::UnclassifiedGapContinued, Urgency::Normal, "gap-1")];
    let result = filter_events(events, &mut state, 0);
    assert!(result.committed.is_empty());
    assert_eq!(result.suppressed_ids, vec!["gap-1".to_string()]);
    assert_eq!(result.reason_for("gap-1"), Some(SuppressionReason::DailyCap));
}

#[test]
fn ignored_decay_suppresses_non_urgent_check_ins() {
    let mut state = ContactPolicyState { ignored_check_in_count_today: IGNORED_DECAY_THRESHOLD, ..Default::default() };
    let events = vec![
        event(PlannerEventKind::DistributionOverrun, Urgency::Normal, "overrun-1"),
        event(PlannerEventKind::DistributionOverrun, Urgency::High, "overrun-2"),
    ];
    let result = filter_events(events, &mut state, 0);
    assert_eq!(result.committed.len(), 1);
    assert_eq!(result.committed[0].id, "overrun-2");
    assert_eq!(result.suppressed_ids, vec!["overrun-1".to_string()]);
}

#[test]
fn suppression_window_drops_events() {
    let mut state = ContactPolicyState::default();
    state.suppress_for(0, 60);
    let events = vec![event(PlannerEventKind::TaskNonStartContinued, Urgency::Normal, "non-start-1")];
    let result = filter_events(events, &mut state, 30 * 60);
    assert!(result.committed.is_empty());
}

#[test]
fn emergency_events_bypass_suppression_and_cap() {
    let mut state = ContactPolicyState {
        proactive_check_in_count_today: DAILY_CHECK_IN_CAP,
        ignored_check_in_count_today: IGNORED_DECAY_THRESHOLD,
        ..Default::default()
    };
    state.suppress_for(0, 60);
    let events = vec![event(PlannerEventKind::UnclassifiedGapContinued, Urgency::Emergency, "emergency-1")];
    let result = filter_events(events, &mut state, 30 * 60);
    assert_eq!(result.committed.len(), 1);
}

#[test]
fn desktop_speaks_by_default() {
    let event = event(PlannerEventKind::DistributionOverrun, Urgency::Normal, "e1");
    let policy = SpeechPolicy { can_speak_proactively: true, quiet_hours: false, private_output: true, ongoing_voice_conversation: false };
    let state = ContactPolicyState::default();
    assert_eq!(delivery_mode_for(&event, &policy, &state, 0), DeliveryMode::Speak);
}

#[test]
fn android_requires_private_output_to_speak() {
    let event = event(PlannerEventKind::DistributionOverrun, Urgency::Normal, "e1");
    let mut policy = speech_policy_all_true();
    policy.private_output = false;
    policy.ongoing_voice_conversation = false;
    let state = ContactPolicyState::default();
    assert_eq!(delivery_mode_for(&event, &policy, &state, 0), DeliveryMode::Notify);

    policy.ongoing_voice_conversation = true;
    assert_eq!(delivery_mode_for(&event, &policy, &state, 0), DeliveryMode::Speak);
}

#[test]
fn quiet_hours_defer_everything() {
    let event = event(PlannerEventKind::DistributionOverrun, Urgency::High, "e1");
    let policy = SpeechPolicy { can_speak_proactively: true, quiet_hours: true, private_output: true, ongoing_voice_conversation: false };
    let state = ContactPolicyState::default();
    assert_eq!(delivery_mode_for(&event, &policy, &state, 0), DeliveryMode::DeferQuietHours);
}

#[test]
fn scheduled_start_time_is_not_spoken_proactively_without_private_channel() {
    let event = event(PlannerEventKind::TaskStartTimeReached, Urgency::Normal, "start-1");
    let mut policy = speech_policy_all_true();
    policy.private_output = false;
    let state = ContactPolicyState::default();
    assert_eq!(delivery_mode_for(&event, &policy, &state, 0), DeliveryMode::Notify);
}

#[test]
fn short_snooze_skips_postpone_reason() {
    assert!(!should_ask_postpone_reason(10));
    assert!(should_ask_postpone_reason(60));
}

#[test]
fn postpone_reason_template_includes_title() {
    let text = postpone_reason_check_in("レポート");
    assert!(text.contains("レポート"));
    assert!(text.contains("なにか詰まってる"));
}

#[test]
fn thirty_minute_snooze_is_still_short() {
    assert!(!should_ask_postpone_reason(30));
    assert!(should_ask_postpone_reason(31));
}

#[test]
fn ledger_counts_only_todays_proactive_check_ins() {
    let rows = vec![
        CommittedContactSummary { event_id: "a".into(), kind: Some(PlannerEventKind::UnclassifiedGapContinued), created_at: 100, ignored: true },
        CommittedContactSummary { event_id: "b".into(), kind: Some(PlannerEventKind::TaskStartTimeReached), created_at: 100, ignored: true },
        CommittedContactSummary { event_id: "c".into(), kind: Some(PlannerEventKind::DistributionOverrun), created_at: 10, ignored: false },
        CommittedContactSummary { event_id: "d".into(), kind: None, created_at: 100, ignored: false },
    ];
    let state = ContactPolicyState::from_ledger(&rows, 500, 50, 1000, Some(400));
    assert_eq!(state.proactive_check_in_count_today, 1);
    assert_eq!(state.ignored_check_in_count_today, 1);
    assert_eq!(state.suppress_until, None);
    let kept = ContactPolicyState::from_ledger(&rows, 300, 50, 1000, Some(400));
    assert_eq!(kept.suppress_until, Some(400));
}

#[test]
fn suppression_keeps_the_later_end_and_mark_ignored_counts() {
    let mut state = ContactPolicyState::default();
    state.suppress_for(0, 60);
    assert_eq!(state.suppress_until, Some(3600));
    state.suppress_for(0, 10);
    assert_eq!(state.suppress_until, Some(3600));
    assert!(state.is_suppressed(3599));
    assert!(!state.is_suppressed(3600));
    state.mark_ignored(0);
    assert_eq!(state.ignored_check_in_count_today, 1);
}

#[test]
fn committing_check_ins_counts_up_to_the_cap() {
    let mut state = ContactPolicyState { proactive_check_in_count_today: DAILY_CHECK_IN_CAP - 1, ..Default::default() };
    let events = vec![
        event(PlannerEventKind::UnclassifiedGapContinued, Urgency::Normal, "g1"),
        event(PlannerEventKind::UnclassifiedGapContinued, Urgency::Normal, "g2"),
    ];
    let result = filter_events(events, &mut state, 0);
    assert_eq!(result.committed.len(), 1);
    assert_eq!(result.committed[0].id, "g1");
    assert_eq!(state.proactive_check_in_count_today, DAILY_CHECK_IN_CAP);
    assert_eq!(result.reason_for("g2"), Some(SuppressionReason::DailyCap));
}
