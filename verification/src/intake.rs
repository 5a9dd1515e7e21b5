//! Resumable intake interview state.
//!
//! The agent uses this to remember where the intake interview stopped so a
//! later session can continue from the same point.

use vstd::prelude::*;

verus! {

/// Where the user is in the fixed-order intake interview.
#[derive(Debug, Clone, Copy, PartialEq, Eq, Structural)]
pub enum IntakeStage {
    /// Interview has not started.
    NotStarted,
    /// Collecting deadlines and imminent tasks.
    Deadlines,
    /// Collecting recurring commitments.
    Recurring,
    /// Confirming calendar import.
    CalendarImport,
    /// The user paused or finished the interview.
    Complete,
}

impl Default for IntakeStage {
    fn default() -> (s: Self)
        ensures
            s == IntakeStage::NotStarted,
    {
        IntakeStage::NotStarted
    }
}

/// The stage that follows `stage` in the fixed interview order; `Complete`
/// is absorbing.
pub open spec fn next_stage(stage: IntakeStage) -> IntakeStage {
    match stage {
        IntakeStage::NotStarted => IntakeStage::Deadlines,
        IntakeStage::Deadlines => IntakeStage::Recurring,
        IntakeStage::Recurring => IntakeStage::CalendarImport,
        IntakeStage::CalendarImport => IntakeStage::Complete,
        IntakeStage::Complete => IntakeStage::Complete,
    }
}

/// Position of a stage in the interview order.
pub open spec fn stage_rank(stage: IntakeStage) -> nat {
    match stage {
        IntakeStage::NotStarted => 0,
        IntakeStage::Deadlines => 1,
        IntakeStage::Recurring => 2,
        IntakeStage::CalendarImport => 3,
        IntakeStage::Complete => 4,
    }
}

/// Saved state for an interruptible intake interview.
#[derive(Debug, Clone)]
pub struct IntakeState {
    pub stage: IntakeStage,
    /// `proposal_id` used to batch the current set of intake proposals so they
    /// can be approved together.
    pub proposal_id: Option<String>,
    /// Whether a coverage confirmation is waiting for the current batch to be
    /// committed before it can be recorded.
    pub coverage_pending: bool,
    /// Display ids of tasks/habits created so far in this intake.
    pub collected_ids: Vec<String>,
}

impl Default for IntakeState {
    fn default() -> (s: Self)
        ensures
            s.stage == IntakeStage::NotStarted,
            s.proposal_id.is_none(),
            !s.coverage_pending,
            s.collected_ids@.len() == 0,
    {
        IntakeState {
            stage: IntakeStage::NotStarted,
            proposal_id: None,
            coverage_pending: false,
            collected_ids: Vec::new(),
        }
    }
}

impl IntakeState {
    /// Move to the next stage in the fixed order.
    pub fn advance(&mut self)
        ensures
            final(self).stage == next_stage(old(self).stage),
            final(self).proposal_id == old(self).proposal_id,
            final(self).coverage_pending == old(self).coverage_pending,
            final(self).collected_ids@ == old(self).collected_ids@,
    {
        self.stage = match self.stage {
            IntakeStage::NotStarted => IntakeStage::Deadlines,
            IntakeStage::Deadlines => IntakeStage::Recurring,
            IntakeStage::Recurring => IntakeStage::CalendarImport,
            IntakeStage::CalendarImport => IntakeStage::Complete,
            IntakeStage::Complete => IntakeStage::Complete,
        };
    }
}

/// Advancing never moves the interview backwards, strictly progresses until
/// `Complete`, and `Complete` stays `Complete`.
pub proof fn lemma_advance_progresses(stage: IntakeStage)
    ensures
        stage_rank(next_stage(stage)) >= stage_rank(stage),
        stage != IntakeStage::Complete ==> stage_rank(next_stage(stage)) == stage_rank(stage) + 1,
        stage == IntakeStage::Complete ==> next_stage(stage) == IntakeStage::Complete,
{
}

} // verus!
