use takusu_agent::coverage::{CoverageState, UnsettledIntervalRow};
use takusu_agent::events::{
    evaluate_events, event_id, EvaluationGap, EvaluationSnapshot, EvaluationTask, EvaluationWork, GapKind,
    InterventionBand, PlannerEventKind, SleepImpact, TaskStatus, Urgency,
};
use takusu_agent::presentation::{Presentation, TaskAuthority, WorkState};

fn task(id: &str, scheduled: i64, status: TaskStatus) -> EvaluationTask {
    EvaluationTask {
        id: id.into(),
        display_id: 1,
        title: id.into(),
        scheduled_at: Some(scheduled),
        deadline_at: scheduled + 3_600,
        status,
        fixed: false,
        quantity_total: None,
        quantity_done: 0,
    }
}

fn snapshot() -> EvaluationSnapshot {
    EvaluationSnapshot { schedule_revision: 3, now: 10_000, ..Default::default() }
}

#[test]
fn start_event_is_deterministic_and_has_typed_presentation() {
    let mut snapshot = snapshot();
    snapshot.now = 9_200;
    snapshot.tasks.push(task("task-1", 9_000, TaskStatus::Scheduled));
    let result = evaluate_events(&snapshot);
    assert_eq!(result.due_events.len(), 2);
    assert!(result.due_events.iter().any(|event| {
        event.kind == PlannerEventKind::TaskStartTimeReached && matches!(event.presentation, Presentation::CheckIn(_))
    }));
    assert!(result.due_events.iter().any(|event| {
        event.kind == PlannerEventKind::CurrentTask && matches!(event.presentation, Presentation::CurrentTask(_))
    }));
    let repeated = evaluate_events(&snapshot);
    assert_eq!(
        result.due_events.iter().map(|event| &event.id).collect::<Vec<_>>(),
        repeated.due_events.iter().map(|event| &event.id).collect::<Vec<_>>(),
    );
}

#[test]
fn non_start_waits_for_grace_and_fixed_tasks_are_excluded() {
    let mut snapshot = snapshot();
    snapshot.now = 9_899;
    snapshot.tasks.push(task("task-1", 9_000, TaskStatus::Scheduled));
    assert!(evaluate_events(&snapshot)
        .due_events
        .iter()
        .all(|event| event.kind != PlannerEventKind::TaskNonStartContinued));

    snapshot.now = 10_000;
    let mut fixed = task("fixed", 9_000, TaskStatus::Scheduled);
    fixed.fixed = true;
    snapshot.tasks.push(fixed);
    assert_eq!(
        evaluate_events(&snapshot)
            .due_events
            .iter()
            .filter(|event| event.kind == PlannerEventKind::TaskNonStartContinued)
            .count(),
        1
    );
}

#[test]
fn committed_event_does_not_fire_again() {
    let mut snapshot = snapshot();
    snapshot.tasks.push(task("task-1", 9_000, TaskStatus::Scheduled));
    let first = evaluate_events(&snapshot);
    snapshot.ledger.committed_event_ids.extend(first.due_events.iter().map(|event| event.id.clone()));
    assert!(evaluate_events(&snapshot).due_events.is_empty());
}

#[test]
fn distribution_band_and_crossing_are_evaluated_from_active_time() {
    let mut snapshot = snapshot();
    let mut task = task("task-1", 9_000, TaskStatus::InProgress);
    task.deadline_at = 20_000;
    snapshot.tasks.push(task);
    snapshot.work.push(EvaluationWork {
        task_id: "task-1".into(),
        distribution_revision: 4,
        progress_band: None,
        distribution_band: InterventionBand::Replan,
        crossing_in_seconds: None,
        remaining_seconds: 0,
    });
    let result = evaluate_events(&snapshot);
    assert!(result.due_events.iter().any(|event| event.kind == PlannerEventKind::DistributionOverrun));
    assert!(result.next_eval_at.is_none() || result.next_eval_at.unwrap() > snapshot.now);
}

#[test]
fn only_unclassified_gaps_fire() {
    let mut snapshot = snapshot();
    snapshot.now = 12_000;
    snapshot.gaps = vec![
        EvaluationGap { start_at: 9_000, end_at: 20_000, kind: GapKind::FreeTime, identity: None },
        EvaluationGap { start_at: 9_000, end_at: 20_000, kind: GapKind::Unclassified, identity: Some("gap-1".into()) },
    ];
    let result = evaluate_events(&snapshot);
    assert_eq!(
        result.due_events.iter().filter(|event| event.kind == PlannerEventKind::UnclassifiedGapContinued).count(),
        1
    );
}

#[test]
fn revision_and_observation_are_part_of_event_id() {
    let a = event_id(PlannerEventKind::DistributionOverrun, Some("task"), 1, Some(2), 3, "censored");
    let b = event_id(PlannerEventKind::DistributionOverrun, Some("task"), 1, Some(3), 3, "censored");
    assert_ne!(a, b);
}

#[test]
fn event_id_is_length_delimited() {
    let id = event_id(PlannerEventKind::TaskStartTimeReached, Some("タスク"), 7, None, 0, "start-time");
    assert_eq!(id, "planner:v1:task_start_time_reached:9:タスク:s7:d-:b20:1970-01-01T00:00:00Z:o10:start-time");
    assert_eq!(PlannerEventKind::SleepImpact.as_str(), "sleep_impact");
}

#[test]
fn colons_inside_parts_cannot_imitate_another_key() {
    let a = event_id(PlannerEventKind::DeadlineViolation, Some("a:s1"), 2, None, 0, "deadline");
    let b = event_id(PlannerEventKind::DeadlineViolation, Some("a"), 1, None, 0, "deadline");
    assert_ne!(a, b);
    let c = event_id(PlannerEventKind::SleepImpact, None, 0, None, 0, "x:o1:y");
    let d = event_id(PlannerEventKind::SleepImpact, None, 0, None, 0, "x");
    assert_ne!(c, d);
    assert_eq!(a, event_id(PlannerEventKind::DeadlineViolation, Some("a:s1"), 2, None, 0, "deadline"));
}

#[test]
fn events_are_ordered_by_id_and_current_task_comes_last() {
    let mut snapshot = snapshot();
    snapshot.now = 200_000;
    snapshot.tasks.push(task("b-task", 100_000, TaskStatus::Scheduled));
    snapshot.tasks.push(task("a-task", 100_000, TaskStatus::Scheduled));
    snapshot.unplaced_task_ids.push("x".into());
    snapshot.sleep_impact = Some(SleepImpact { detected: true });
    let result = evaluate_events(&snapshot);
    let n = result.due_events.len();
    assert!(n >= 2);
    for pair in result.due_events[..n - 1].windows(2) {
        assert!(pair[0].id <= pair[1].id);
    }
    let last = &result.due_events[n - 1];
    assert_eq!(last.kind, PlannerEventKind::CurrentTask);
    assert!(result.due_events.iter().any(|e| e.kind == PlannerEventKind::ScheduleGenerationFailure && e.urgency == Urgency::High));
    assert!(result.due_events.iter().any(|e| e.kind == PlannerEventKind::SleepImpact));
    assert_eq!(
        result.due_events.iter().filter(|e| e.kind == PlannerEventKind::CarriedOverIncomplete).count(),
        2
    );
}

#[test]
fn current_task_card_carries_authority_and_settlement() {
    let mut snapshot = snapshot();
    snapshot.tasks.push(task("task-1", 9_000, TaskStatus::InProgress));
    snapshot.coverage.state = CoverageState::Stale;
    snapshot.coverage.unsettled_intervals.push(UnsettledIntervalRow {
        id: "u".into(),
        start_at: 0,
        end_at: 60,
        classification: "unclassified".into(),
        source: "capture".into(),
        created_at: 0,
        settled_at: None,
        operation_id: None,
    });
    let result = evaluate_events(&snapshot);
    let current = result.due_events.iter().find(|e| e.kind == PlannerEventKind::CurrentTask).unwrap();
    match &current.presentation {
        Presentation::CurrentTask(card) => {
            assert_eq!(card.title, "task-1");
            assert_eq!(card.reference, "#1");
            assert_eq!(card.work_state, WorkState::InProgress);
            assert_eq!(card.authority, TaskAuthority::Candidate);
            let settlement = card.settlement.as_ref().unwrap();
            assert_eq!(settlement.question, "1970-01-01T00:00:00Z〜1970-01-01T00:01:00Z の未確定時間を整理してください");
        }
        _ => panic!("expected a current-task card"),
    }
}

#[test]
fn future_start_sets_the_next_evaluation_time() {
    let mut snapshot = snapshot();
    snapshot.tasks.push(task("later", 12_000, TaskStatus::Scheduled));
    snapshot.tasks.push(task("sooner", 11_000, TaskStatus::Scheduled));
    let result = evaluate_events(&snapshot);
    assert_eq!(result.next_eval_at, Some(11_000));
}
