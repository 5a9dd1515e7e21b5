use takusu_agent::intake::{IntakeStage, IntakeState};

#[test]
fn default_intake_state_is_not_started() {
    let state = IntakeState::default();
    assert_eq!(state.stage, IntakeStage::NotStarted);
    assert!(state.proposal_id.is_none());
    assert!(!state.coverage_pending);
    assert!(state.collected_ids.is_empty());
}

#[test]
fn advance_moves_through_stages() {
    let mut state = IntakeState::default();
    state.advance();
    assert_eq!(state.stage, IntakeStage::Deadlines);
    state.advance();
    assert_eq!(state.stage, IntakeStage::Recurring);
    state.advance();
    assert_eq!(state.stage, IntakeStage::CalendarImport);
    state.advance();
    assert_eq!(state.stage, IntakeStage::Complete);
    state.advance();
    assert_eq!(state.stage, IntakeStage::Complete);
}
