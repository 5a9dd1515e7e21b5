use takusu_agent::change_plan::{
    batch_operation_id, check_freshness, clears_skills_index, dispatch, executor_for, fetches_target,
    rollback_steps, BatchRun, ChangeExecutor, RollbackStep,
};
use takusu_agent::error::AgentError;
use takusu_agent::labels::{ChangeOperation, TargetKind};
use takusu_agent::tool::{ChangeReceipt, InvalidArgsError, ProposedChange, ReceiptTarget, Target, ToolError};

fn change(kind: TargetKind, operation: ChangeOperation) -> ProposedChange {
    ProposedChange { operation, target: Target::new(kind, "#1"), ..Default::default() }
}

fn receipt(id: &str) -> ChangeReceipt {
    ChangeReceipt {
        operation: ChangeOperation::Create,
        target: ReceiptTarget { target_type: TargetKind::Task, target_id: id.into() },
        before: None,
        after: None,
        target_revision: None,
        inferred_fields: None,
    }
}

#[test]
fn every_supported_pair_has_its_executor() {
    assert_eq!(dispatch(TargetKind::Task, ChangeOperation::Move), Some(ChangeExecutor::TaskMove));
    assert_eq!(dispatch(TargetKind::Task, ChangeOperation::Split), Some(ChangeExecutor::TaskSplit));
    assert_eq!(
        dispatch(TargetKind::Habit, ChangeOperation::CreateScheduledSpan),
        Some(ChangeExecutor::HabitCreateScheduledSpan)
    );
    assert_eq!(dispatch(TargetKind::Memory, ChangeOperation::Delete), Some(ChangeExecutor::MemoryDelete));
    assert_eq!(dispatch(TargetKind::Schedule, ChangeOperation::Generate), Some(ChangeExecutor::ScheduleGenerate));
    assert_eq!(dispatch(TargetKind::Schedule, ChangeOperation::Reschedule), Some(ChangeExecutor::ScheduleGenerate));
    assert_eq!(dispatch(TargetKind::Skill, ChangeOperation::Delete), None);
    assert_eq!(dispatch(TargetKind::Task, ChangeOperation::Snooze), None);

    assert!(matches!(executor_for(&change(TargetKind::Habit, ChangeOperation::Update)), Ok(ChangeExecutor::HabitUpdate)));
    match executor_for(&change(TargetKind::Schedule, ChangeOperation::Settle)) {
        Err(ToolError::InvalidArgs(InvalidArgsError::NoField { reason })) => assert_eq!(reason, "unsupported proposal"),
        other => panic!("unexpected {other:?}"),
    }
}

#[test]
fn creates_and_schedule_changes_fetch_no_target() {
    assert!(!fetches_target(TargetKind::Task, ChangeOperation::Create));
    assert!(!fetches_target(TargetKind::Schedule, ChangeOperation::Generate));
    assert!(fetches_target(TargetKind::Task, ChangeOperation::Update));
    assert!(fetches_target(TargetKind::Memory, ChangeOperation::Delete));
}

#[test]
fn stale_targets_are_refused() {
    let observed = Some("2024-01-01T00:00:00Z".to_string());
    assert!(check_freshness(&observed, &Some("2024-01-01T00:00:00Z".into())).is_ok());
    match check_freshness(&observed, &Some("2024-01-02T00:00:00Z".into())) {
        Err(ToolError::Conflict(m)) => assert_eq!(m, "target changed after proposal"),
        other => panic!("unexpected {other:?}"),
    }
    assert!(matches!(check_freshness(&observed, &None), Err(ToolError::Conflict(_))));
    assert!(check_freshness(&None, &Some("anything".into())).is_ok());
}

#[test]
fn batch_operations_are_numbered_within_the_request() {
    assert_eq!(batch_operation_id("s1-approval-3", 0), "s1-approval-3:0");
    assert_eq!(batch_operation_id("s1-approval-3", 12), "s1-approval-3:12");
    assert!(clears_skills_index(TargetKind::Skill));
    assert!(!clears_skills_index(TargetKind::Task));
}

#[test]
fn failed_batch_deletes_what_it_created() {
    let changes = vec![
        change(TargetKind::Task, ChangeOperation::Create),
        change(TargetKind::Task, ChangeOperation::Update),
        change(TargetKind::Habit, ChangeOperation::Create),
        change(TargetKind::Task, ChangeOperation::Create),
    ];
    // The fourth change failed: only three receipts.
    let receipts = vec![receipt("t1"), receipt("t2"), receipt("h1")];
    let steps = rollback_steps(&changes, &receipts);
    assert_eq!(steps.len(), 2);
    assert!(matches!(&steps[0], RollbackStep::DeleteTask(id) if id == "t1"));
    assert!(matches!(&steps[1], RollbackStep::DeleteHabit(id) if id == "h1"));
    assert!(rollback_steps(&changes, &[]).is_empty());
}

#[test]
fn a_batch_stops_at_its_first_failure() {
    let mut run = BatchRun::new(false);
    assert!(run.continues());
    let memory = change(TargetKind::Memory, ChangeOperation::Create);
    assert!(run.on_change_result(&memory, Ok(receipt("m1"))).is_none());
    assert!(!run.schedule_dirty);
    let task = change(TargetKind::Task, ChangeOperation::Create);
    assert!(run.on_change_result(&task, Ok(receipt("t1"))).is_none());
    assert!(run.schedule_dirty);
    let failed = run.on_change_result(&task, Err(AgentError::Client("boom".into())));
    assert!(matches!(failed, Some(AgentError::Client(m)) if m == "boom"));
    assert!(!run.continues());
    assert_eq!(run.receipts.len(), 2);
}
