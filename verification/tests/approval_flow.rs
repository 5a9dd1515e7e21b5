use takusu_agent::approval_flow::{
    all_changes_allowed, approval_id, approval_sequence_of, batch_failure_message, batch_schedule_dirty,
    commits_schedule, execution_order, fill_proposal_ids, is_auto_approved, make_approval_request,
    postpone_minutes, postpone_reason_requests, update_intake_state_from_batch,
};
use takusu_agent::intake::IntakeState;
use takusu_agent::labels::{ChangeOperation, TargetKind};
use takusu_agent::permissions::Permissions;
use takusu_agent::session::DEFAULT_APPROVAL_WHY;
use takusu_agent::tool::{ChangeReceipt, ProposedChange, ReceiptTarget, Target};

fn change(kind: TargetKind, operation: ChangeOperation, description: &str) -> ProposedChange {
    ProposedChange {
        operation,
        target: Target::new(kind, "#1"),
        description: description.into(),
        ..Default::default()
    }
}

fn receipt(kind: TargetKind, after: Option<&str>) -> ChangeReceipt {
    ChangeReceipt {
        operation: ChangeOperation::Create,
        target: ReceiptTarget { target_type: kind, target_id: "id".into() },
        before: None,
        after: after.map(|a| a.to_string()),
        target_revision: None,
        inferred_fields: None,
    }
}

#[test]
fn session_permissions_override_provider_permissions_when_configured() {
    let mut session = Permissions::default();
    let mut provider = Permissions::default();
    provider.set(Some(TargetKind::Task), None, true);
    assert!(is_auto_approved(&session, &provider, TargetKind::Task, ChangeOperation::Create));
    assert!(!is_auto_approved(&session, &provider, TargetKind::Habit, ChangeOperation::Create));
    session.set(Some(TargetKind::Task), Some(ChangeOperation::Delete), false);
    assert!(!is_auto_approved(&session, &provider, TargetKind::Task, ChangeOperation::Delete));
    assert!(is_auto_approved(&session, &provider, TargetKind::Task, ChangeOperation::Update));

    let changes = vec![
        change(TargetKind::Task, ChangeOperation::Create, "a"),
        change(TargetKind::Task, ChangeOperation::Update, "b"),
    ];
    assert!(all_changes_allowed(&session, &provider, &changes));
    let with_delete = vec![change(TargetKind::Task, ChangeOperation::Delete, "c")];
    assert!(!all_changes_allowed(&session, &provider, &with_delete));
    assert!(all_changes_allowed(&session, &provider, &[]));
}

#[test]
fn missing_proposal_ids_are_backfilled_with_the_session_prefix() {
    let mut changes = vec![
        change(TargetKind::Task, ChangeOperation::Create, "a"),
        ProposedChange { proposal_id: Some("kept".into()), ..change(TargetKind::Task, ChangeOperation::Create, "b") },
    ];
    fill_proposal_ids("s1", &mut changes);
    let filled = changes[0].proposal_id.as_deref().unwrap();
    assert!(filled.starts_with("s1-proposal-"));
    assert!(filled.len() > "s1-proposal-".len());
    assert_eq!(changes[1].proposal_id.as_deref(), Some("kept"));
    assert_eq!(changes[0].description, "a");
}

#[test]
fn approval_requests_count_up_and_expire_after_five_minutes() {
    let mut sequence = 0u64;
    assert!(make_approval_request("s1", &mut sequence, Vec::new(), Vec::new(), None, Vec::new(), 1_000).is_none());
    assert_eq!(sequence, 0);
    let first = make_approval_request(
        "s1",
        &mut sequence,
        vec![change(TargetKind::Task, ChangeOperation::Create, "a")],
        Vec::new(),
        None,
        vec!["w".into()],
        1_000,
    )
    .unwrap();
    assert_eq!(first.id, "s1-approval-1");
    assert_eq!(first.why, DEFAULT_APPROVAL_WHY);
    assert_eq!(first.expires_at, 1_300);
    assert_eq!(first.warnings, vec!["w".to_string()]);
    assert!(first.changes[0].proposal_id.as_deref().unwrap().starts_with("s1-proposal-"));
    let second = make_approval_request(
        "s1",
        &mut sequence,
        vec![change(TargetKind::Task, ChangeOperation::Create, "a")],
        Vec::new(),
        Some("理由".into()),
        Vec::new(),
        1_000,
    )
    .unwrap();
    assert_eq!(second.id, "s1-approval-2");
    assert_eq!(second.why, "理由");
    assert_eq!(sequence, 2);
}

#[test]
fn approval_ids_read_back_as_their_sequence() {
    assert_eq!(approval_id("s1", 42), "s1-approval-42");
    assert_eq!(approval_sequence_of("s1", &approval_id("s1", 42)).unwrap(), 42);
    assert_eq!(approval_sequence_of("s1", "s1-approval-+7").unwrap(), 7);
    assert_eq!(approval_sequence_of("s1", &approval_id("s1", u64::MAX)).unwrap(), u64::MAX);
    let other = approval_sequence_of("s2", "s1-approval-1").unwrap_err();
    assert_eq!(other.reason(), "approval id must belong to this session");
    assert_eq!(other.field(), Some("id"));
    for bad in ["s1-approval-", "s1-approval-x1", "s1-approval-18446744073709551616", "s1-approval-+"] {
        let err = approval_sequence_of("s1", bad).unwrap_err();
        assert_eq!(err.reason(), "approval id must end with a numeric sequence");
    }
}

#[test]
fn coverage_confirmations_run_last_and_schedule_commits_clear_dirtiness() {
    let batch = vec![
        change(TargetKind::Coverage, ChangeOperation::Confirm, "confirm"),
        change(TargetKind::Schedule, ChangeOperation::Generate, "generate"),
        change(TargetKind::Task, ChangeOperation::Create, "task"),
    ];
    let ordered = execution_order(batch.clone());
    let descriptions: Vec<&str> = ordered.iter().map(|c| c.description.as_str()).collect();
    assert_eq!(descriptions, vec!["generate", "task", "confirm"]);
    assert!(commits_schedule(&ordered));
    assert!(!batch_schedule_dirty(true, &ordered, true));
    assert!(batch_schedule_dirty(false, &ordered[1..2], false));
    assert!(!batch_schedule_dirty(false, &ordered[2..], false));
    assert!(batch_schedule_dirty(true, &[], false));
    assert!(!commits_schedule(&[change(TargetKind::Schedule, ChangeOperation::Update, "u")]));
}

#[test]
fn failure_messages_name_the_error_and_the_change() {
    assert_eq!(
        batch_failure_message(true, "boom", "タスクを作成"),
        "自動承認された変更の適用中にエラーが発生しました: boom\n- タスクを作成"
    );
    assert_eq!(
        batch_failure_message(false, "boom", "タスクを作成"),
        "ユーザーは以下の提案を承認しましたが、変更の適用中にエラーが発生しました: boom\n- タスクを作成"
    );
}

#[test]
fn intake_collects_created_ids_and_settles_coverage() {
    let mut state = IntakeState { proposal_id: Some("p".into()), coverage_pending: true, ..Default::default() };
    let mine = |kind| ProposedChange { proposal_id: Some("p".into()), ..change(kind, ChangeOperation::Create, "x") };
    let changes = vec![
        mine(TargetKind::Task),
        mine(TargetKind::Habit),
        ProposedChange { proposal_id: Some("other".into()), ..change(TargetKind::Task, ChangeOperation::Create, "y") },
        mine(TargetKind::Task),
        change(TargetKind::Coverage, ChangeOperation::Confirm, "c"),
    ];
    let receipts = vec![
        receipt(TargetKind::Task, Some(r#"{"display_id":7,"title":"a"}"#)),
        receipt(TargetKind::Habit, Some(r#"{"display_id":3}"#)),
        receipt(TargetKind::Task, Some(r#"{"display_id":9}"#)),
        receipt(TargetKind::Task, Some(r#"{"display_id":7}"#)),
        receipt(TargetKind::Coverage, None),
    ];
    update_intake_state_from_batch(&mut state, &changes, &receipts);
    assert_eq!(state.collected_ids, vec!["#7".to_string(), "h3".to_string()]);
    assert!(!state.coverage_pending);
    assert_eq!(state.proposal_id.as_deref(), Some("p"));
}

#[test]
fn long_moves_and_snoozes_ask_for_a_reason() {
    assert_eq!(postpone_minutes(r#"{"snooze_minutes":45}"#, 0), Some(45));
    assert_eq!(postpone_minutes(r#"{"snooze_target":"1970-01-01T01:00:00Z"}"#, 0), Some(60));
    assert_eq!(postpone_minutes(r#"{"snooze_target":"bad","start_at":"1970-01-01T00:10:59Z"}"#, 0), Some(10));
    assert_eq!(postpone_minutes(r#"{"start_at":"1969-12-31T23:00:00Z"}"#, 0), Some(0));
    assert_eq!(postpone_minutes(r#"{"title":"x"}"#, 0), None);

    let long = ProposedChange {
        arguments: Some(r#"{"snooze_minutes":90}"#.into()),
        target: Target::new(TargetKind::Task, "#5"),
        ..change(TargetKind::Task, ChangeOperation::Snooze, "s")
    };
    let short = ProposedChange {
        arguments: Some(r#"{"snooze_minutes":30}"#.into()),
        ..change(TargetKind::Task, ChangeOperation::Move, "m")
    };
    let not_task = ProposedChange {
        arguments: Some(r#"{"snooze_minutes":90}"#.into()),
        ..change(TargetKind::Habit, ChangeOperation::Move, "h")
    };
    let requests = postpone_reason_requests(&[long, short, not_task], 0);
    assert_eq!(requests, vec![("#5".to_string(), 90)]);
}
