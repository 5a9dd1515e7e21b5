use takusu_agent::habit_steps::detect_step_dependency_cycle;
use takusu_agent::habit_steps::{
    build_habit_step_inputs, existing_position_map, phase2_inputs_for_response, validate_habit_steps,
    validate_step_position, HabitStepRow, PendingHabitStep,
};
use takusu_agent::tool::ToolError;

#[test]
fn detect_step_dependency_cycle_finds_simple_cycle() {
    let positions = vec![1, 2, 3];
    let edges = vec![(1, 2), (2, 3), (3, 1)];
    let cycle = detect_step_dependency_cycle(&positions, &edges);
    assert!(cycle.is_some());
    let cycle = cycle.unwrap();
    assert!(cycle.contains(&1));
    assert!(cycle.contains(&2));
    assert!(cycle.contains(&3));
}

#[test]
fn detect_step_dependency_cycle_accepts_dag() {
    let positions = vec![1, 2, 3];
    let edges = vec![(1, 2), (1, 3)];
    assert!(detect_step_dependency_cycle(&positions, &edges).is_none());
}

#[test]
fn self_dependency_is_a_cycle() {
    let positions = vec![1];
    let edges = vec![(1, 1)];
    assert!(detect_step_dependency_cycle(&positions, &edges).is_some());
}


fn step(position: i64, title: &str, start: &str, end: &str, deps: Vec<i64>) -> PendingHabitStep {
    PendingHabitStep {
        position,
        title: title.into(),
        description: None,
        start_time: start.into(),
        end_time: end.into(),
        avg_minutes: 15,
        sigma_minutes: None,
        parallelizable: None,
        allows_parallel: None,
        abandonability: None,
        fixed: None,
        depends_on_positions: deps,
    }
}

fn habit_step_row(id: &str, position: i64) -> HabitStepRow {
    HabitStepRow { id: id.into(), position }
}

#[test]
fn build_habit_step_inputs_resolves_ids_and_depends_on_from_position_map() {
    let mut run = step(2, "run", "08:15", "08:45", vec![1]);
    run.avg_minutes = 30;
    let steps = vec![run, step(1, "warmup", "08:00", "08:15", vec![])];

    let phase1_map = vec![(1, "existing-1".to_string())];
    let phase1 = build_habit_step_inputs(&steps, &phase1_map);
    assert_eq!(phase1[0].id, None);
    assert_eq!(phase1[0].depends_on, vec!["existing-1".to_string()]);
    assert_eq!(phase1[1].id, Some("existing-1".into()));

    let phase2_map = vec![(1, "real-1".to_string()), (2, "real-2".to_string())];
    let phase2 = build_habit_step_inputs(&steps, &phase2_map);
    assert_eq!(phase2[0].id, Some("real-2".into()));
    assert_eq!(phase2[0].depends_on, vec!["real-1".to_string()]);
    assert_eq!(phase2[1].id, Some("real-1".into()));
    assert_eq!(phase2[0].position, 1);
    assert_eq!(phase2[0].avg_minutes, 30);
    assert_eq!(phase2[0].start_time, "08:15");
}

#[test]
fn build_habit_step_inputs_omits_unknown_dependency_positions() {
    let steps = vec![step(1, "a", "08:00", "08:15", vec![99])];
    let inputs = build_habit_step_inputs(&steps, &[]);
    assert!(inputs[0].depends_on.is_empty());
}

#[test]
fn phase2_inputs_for_response_returns_none_when_all_deps_are_existing() {
    let steps = vec![step(1, "a", "08:00", "08:15", vec![])];
    let phase1_map = vec![(1, "existing-1".to_string())];
    let response = vec![habit_step_row("real-1", 0)];
    assert!(phase2_inputs_for_response(&steps, &phase1_map, &response).is_none());
}

#[test]
fn phase2_inputs_for_response_resolves_new_step_ids_and_deps_in_any_order() {
    let steps = vec![step(2, "b", "08:15", "08:30", vec![1]), step(1, "a", "08:00", "08:15", vec![])];
    let response = vec![habit_step_row("real-1", 0), habit_step_row("real-2", 1)];
    let phase2 = phase2_inputs_for_response(&steps, &[], &response).unwrap().unwrap();
    assert_eq!(phase2[0].id, Some("real-2".into()));
    assert_eq!(phase2[0].depends_on, vec!["real-1".to_string()]);
    assert_eq!(phase2[1].id, Some("real-1".into()));
}

#[test]
fn phase2_inputs_for_response_errors_when_a_position_is_missing() {
    let steps = vec![step(1, "a", "08:00", "08:15", vec![2]), step(2, "b", "08:15", "08:30", vec![])];
    let response = vec![habit_step_row("real-1", 0)];
    let result = phase2_inputs_for_response(&steps, &[], &response);
    assert!(matches!(result, Some(Err(ToolError::Other(ref t))) if t == "server did not return all submitted steps"));
}

#[test]
fn existing_rows_map_display_positions_to_ids() {
    let map = existing_position_map(&[habit_step_row("x", 0), habit_step_row("y", 4)]);
    assert_eq!(map, vec![(1, "x".to_string()), (5, "y".to_string())]);
}

#[test]
fn submitted_step_lists_are_validated_in_order() {
    assert!(validate_habit_steps(&[step(1, "a", "08:00", "08:15", vec![2]), step(2, "b", "08:15", "08:30", vec![])]).is_ok());
    let dup = validate_habit_steps(&[step(1, "a", "", "", vec![]), step(3, "b", "", "", vec![]), step(1, "c", "", "", vec![9])])
        .unwrap_err();
    assert_eq!(dup.reason(), "duplicate position 1");
    let missing = validate_habit_steps(&[step(1, "a", "", "", vec![7]), step(2, "b", "", "", vec![8])]).unwrap_err();
    assert_eq!(missing.reason(), "depends_on position 7 not found in submitted steps");
    let cycle = validate_habit_steps(&[
        step(1, "a", "", "", vec![2]),
        step(2, "b", "", "", vec![3]),
        step(3, "c", "", "", vec![1]),
    ])
    .unwrap_err();
    assert!(cycle.reason().starts_with("dependency cycle detected among positions ["));
    assert_eq!(cycle.field(), Some("steps"));
    assert_eq!(validate_step_position(step(0, "z", "", "", vec![])).unwrap_err().reason(), "position must be >= 1");
    assert!(validate_step_position(step(1, "z", "", "", vec![])).is_ok());
}
