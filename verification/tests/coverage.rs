use takusu_agent::coverage::{
    bootstrap_evaluation, compute_coverage, task_authority, CoverageConfirmationRow, CoverageEvaluation, CoverageState,
    UnsettledIntervalRow,
};
use takusu_agent::presentation::TaskAuthority;

fn ts(s: &str) -> i64 {
    s.parse::<jiff::Timestamp>().unwrap().as_second()
}

fn confirmation(start: &str, end: &str, source: &str, calendar_health: &str, created: &str) -> CoverageConfirmationRow {
    CoverageConfirmationRow {
        id: "c1".into(),
        start_at: ts(start),
        end_at: ts(end),
        timezone: "Asia/Tokyo".into(),
        source: source.into(),
        schedule_revision: 1,
        calendar_health: calendar_health.into(),
        created_at: ts(created),
        settled_at: None,
        operation_id: None,
    }
}

fn interval(start: &str, end: &str, created: &str) -> UnsettledIntervalRow {
    UnsettledIntervalRow {
        id: "u1".into(),
        start_at: ts(start),
        end_at: ts(end),
        classification: "unclassified".into(),
        source: "capture".into(),
        created_at: ts(created),
        settled_at: None,
        operation_id: None,
    }
}

fn evaluate(eval: &CoverageEvaluation) -> CoverageState {
    compute_coverage(eval, ts("2025-01-02T10:00:00Z"), ts("2025-01-02T00:00:00Z"), ts("2025-01-02T23:59:59Z"))
}

fn today(source: &str, health: &str) -> CoverageConfirmationRow {
    confirmation("2025-01-02T00:00:00Z", "2025-01-02T23:59:59Z", source, health, "2025-01-02T08:00:00Z")
}

#[test]
fn no_confirmation_is_bootstrap() {
    let eval = CoverageEvaluation::default();
    let state = evaluate(&eval);
    assert_eq!(state, CoverageState::Bootstrap);
    assert_eq!(task_authority(state), TaskAuthority::Candidate);
}

#[test]
fn target_period_confirmation_is_trusted() {
    let eval = CoverageEvaluation { confirmations: vec![today("target_period", "ok")], ..CoverageEvaluation::default() };
    let state = evaluate(&eval);
    assert_eq!(state, CoverageState::Trusted);
    assert_eq!(task_authority(state), TaskAuthority::TodayCovered);
}

#[test]
fn today_covered_without_target_source() {
    let eval = CoverageEvaluation { confirmations: vec![today("manual", "ok")], ..CoverageEvaluation::default() };
    assert_eq!(evaluate(&eval), CoverageState::TodayCovered);
}

#[test]
fn unresolved_interval_makes_stale() {
    let eval = CoverageEvaluation {
        confirmations: vec![today("target_period", "ok")],
        unsettled_intervals: vec![interval("2025-01-02T09:00:00Z", "2025-01-02T09:30:00Z", "2025-01-02T09:35:00Z")],
        ..CoverageEvaluation::default()
    };
    let state = evaluate(&eval);
    assert_eq!(state, CoverageState::Stale);
    assert_eq!(task_authority(state), TaskAuthority::Candidate);
}

#[test]
fn in_progress_unresolved_interval_makes_stale() {
    let eval = CoverageEvaluation {
        confirmations: vec![today("target_period", "ok")],
        unsettled_intervals: vec![interval("2025-01-02T09:00:00Z", "2025-01-02T11:00:00Z", "2025-01-02T09:05:00Z")],
        ..CoverageEvaluation::default()
    };
    assert_eq!(evaluate(&eval), CoverageState::Stale);
}

#[test]
fn future_unresolved_interval_does_not_make_stale() {
    let eval = CoverageEvaluation {
        confirmations: vec![today("target_period", "ok")],
        unsettled_intervals: vec![interval("2025-01-02T14:00:00Z", "2025-01-02T15:00:00Z", "2025-01-02T09:05:00Z")],
        ..CoverageEvaluation::default()
    };
    assert_eq!(evaluate(&eval), CoverageState::Trusted);
}

#[test]
fn stale_calendar_sync_makes_stale() {
    let eval = CoverageEvaluation { confirmations: vec![today("target_period", "stale")], ..CoverageEvaluation::default() };
    assert_eq!(evaluate(&eval), CoverageState::Stale);
}

#[test]
fn expired_confirmation_makes_stale() {
    let eval = CoverageEvaluation {
        confirmations: vec![confirmation(
            "2025-01-01T00:00:00Z",
            "2025-01-01T23:59:59Z",
            "target_period",
            "ok",
            "2025-01-01T08:00:00Z",
        )],
        ..CoverageEvaluation::default()
    };
    assert_eq!(evaluate(&eval), CoverageState::Stale);
}

#[test]
fn latest_confirmation_decides_and_ties_go_to_the_later_one() {
    let older_trusted = today("target_period", "ok");
    let mut newer_error = today("target_period", "error");
    newer_error.created_at = ts("2025-01-02T09:00:00Z");
    let eval = CoverageEvaluation { confirmations: vec![older_trusted.clone(), newer_error], ..CoverageEvaluation::default() };
    assert_eq!(evaluate(&eval), CoverageState::Stale);

    let tie_manual = today("manual", "ok");
    let eval = CoverageEvaluation { confirmations: vec![older_trusted, tie_manual], ..CoverageEvaluation::default() };
    assert_eq!(evaluate(&eval), CoverageState::TodayCovered);
}

#[test]
fn future_and_partial_confirmations() {
    let future = confirmation("2025-01-03T00:00:00Z", "2025-01-03T23:59:59Z", "target_period", "ok", "2025-01-02T08:00:00Z");
    let eval = CoverageEvaluation { confirmations: vec![future], ..CoverageEvaluation::default() };
    assert_eq!(evaluate(&eval), CoverageState::Bootstrap);

    let partial = confirmation("2025-01-02T12:00:00Z", "2025-01-02T18:00:00Z", "target_period", "ok", "2025-01-02T08:00:00Z");
    let eval = CoverageEvaluation { confirmations: vec![partial], ..CoverageEvaluation::default() };
    assert_eq!(evaluate(&eval), CoverageState::TodayCovered);
}

#[test]
fn bootstrap_evaluation_keeps_the_revision() {
    let eval = bootstrap_evaluation(7);
    assert_eq!(eval.state, CoverageState::Bootstrap);
    assert_eq!(eval.schedule_revision, 7);
    assert!(eval.confirmations.is_empty());
    assert!(eval.unsettled_intervals.is_empty());
}
