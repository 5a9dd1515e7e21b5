//! Coverage trust state: do we trust that the plan matches reality right now?
//!
//! Coverage is derived from structured coverage confirmations, unresolved gap
//! intervals, calendar sync health and the active schedule revision. It
//! decides whether the current task is shown as a candidate or as the
//! authoritative 「今やること」.
//!
//! Timestamps are Unix seconds.

use vstd::prelude::*;
use crate::presentation::TaskAuthority;
use crate::text::str_eq;

verus! {

/// Hours after which a coverage confirmation is considered stale.
pub const COVERAGE_CONFIRMATION_TTL_HOURS: i64 = 18;

/// Effective coverage state, weakest to strongest trust.
#[derive(Debug, Clone, Copy, PartialEq, Eq, Structural)]
pub enum CoverageState {
    Bootstrap,
    Stale,
    TodayCovered,
    Trusted,
}

/// A recorded confirmation that a period is covered by the plan.
#[derive(Debug, Clone)]
pub struct CoverageConfirmationRow {
    pub id: String,
    pub start_at: i64,
    pub end_at: i64,
    pub timezone: String,
    pub source: String,
    pub schedule_revision: i64,
    pub calendar_health: String,
    pub created_at: i64,
    pub settled_at: Option<i64>,
    pub operation_id: Option<String>,
}

/// An interval of time whose activity has not been settled yet.
#[derive(Debug, Clone)]
pub struct UnsettledIntervalRow {
    pub id: String,
    pub start_at: i64,
    pub end_at: i64,
    pub classification: String,
    pub source: String,
    pub created_at: i64,
    pub settled_at: Option<i64>,
    pub operation_id: Option<String>,
}

/// Inputs of a coverage decision, with the state last recorded for them.
#[derive(Debug, Clone)]
pub struct CoverageEvaluation {
    pub state: CoverageState,
    pub confirmations: Vec<CoverageConfirmationRow>,
    pub unsettled_intervals: Vec<UnsettledIntervalRow>,
    pub schedule_revision: i64,
}

impl Default for CoverageEvaluation {
    fn default() -> (r: Self)
        ensures
            r.state == CoverageState::Bootstrap,
            r.confirmations@.len() == 0,
            r.unsettled_intervals@.len() == 0,
            r.schedule_revision == 0,
    {
        CoverageEvaluation {
            state: CoverageState::Bootstrap,
            confirmations: Vec::new(),
            unsettled_intervals: Vec::new(),
            schedule_revision: 0,
        }
    }
}

/// An unresolved interval that has started and overlaps the target period.
pub open spec fn blocks_coverage(i: UnsettledIntervalRow, now: i64, target_start: i64, target_end: i64) -> bool {
    &&& i.settled_at is None
    &&& i.start_at <= now
    &&& i.start_at < target_end
    &&& i.end_at > target_start
}

pub open spec fn has_unresolved(ivs: Seq<UnsettledIntervalRow>, now: i64, target_start: i64, target_end: i64) -> bool {
    exists|k: int| 0 <= k < ivs.len() && blocks_coverage(#[trigger] ivs[k], now, target_start, target_end)
}

/// Index of the latest confirmation by `created_at`; among equally late ones,
/// the last in the list.
pub open spec fn latest_index(cs: Seq<CoverageConfirmationRow>) -> int
    decreases cs.len(),
{
    if cs.len() <= 1 {
        0
    } else {
        let k = latest_index(cs.drop_last());
        if cs.last().created_at >= cs[k].created_at {
            cs.len() - 1
        } else {
            k
        }
    }
}

/// Whether the confirmation is older than the time-to-live at `now`.
pub open spec fn is_expired(c: CoverageConfirmationRow, now: i64) -> bool {
    now - c.created_at > COVERAGE_CONFIRMATION_TTL_HOURS * 3600
}

/// Whether a confirmation's calendar sync is unhealthy.
pub open spec fn unhealthy_calendar(c: CoverageConfirmationRow) -> bool {
    c.calendar_health@ == "stale"@ || c.calendar_health@ == "error"@
}

/// Whether a confirmation's source reaches the trusted state.
pub open spec fn trusted_source(c: CoverageConfirmationRow) -> bool {
    c.source@ == "target_period"@ || c.source@ == "system"@
}

/// The coverage state decided from the latest confirmation `c` alone.
pub open spec fn confirmation_state(c: CoverageConfirmationRow, now: i64, target_start: i64, target_end: i64) -> CoverageState {
    if unhealthy_calendar(c) || is_expired(c, now) {
        CoverageState::Stale
    } else if c.start_at > target_end {
        CoverageState::Bootstrap
    } else if c.start_at <= target_start && c.end_at >= target_end {
        if trusted_source(c) { CoverageState::Trusted } else { CoverageState::TodayCovered }
    } else if c.end_at > target_start && c.start_at < target_end {
        CoverageState::TodayCovered
    } else {
        CoverageState::Stale
    }
}

/// The effective coverage state for an evaluation.
pub open spec fn coverage_spec(e: CoverageEvaluation, now: i64, target_start: i64, target_end: i64) -> CoverageState {
    if has_unresolved(e.unsettled_intervals@, now, target_start, target_end) {
        CoverageState::Stale
    } else if e.confirmations@.len() == 0 {
        CoverageState::Bootstrap
    } else {
        confirmation_state(e.confirmations@[latest_index(e.confirmations@)], now, target_start, target_end)
    }
}

proof fn lemma_latest_index_bounds(cs: Seq<CoverageConfirmationRow>)
    requires
        cs.len() > 0,
    ensures
        0 <= latest_index(cs) < cs.len(),
    decreases cs.len(),
{
    if cs.len() > 1 {
        lemma_latest_index_bounds(cs.drop_last());
    }
}

fn find_unresolved(ivs: &Vec<UnsettledIntervalRow>, now: i64, target_start: i64, target_end: i64) -> (r: bool)
    ensures
        r == has_unresolved(ivs@, now, target_start, target_end),
{
    let mut i: usize = 0;
    while i < ivs.len()
        invariant
            0 <= i <= ivs@.len(),
            forall|k: int| 0 <= k < i ==> !blocks_coverage(#[trigger] ivs@[k], now, target_start, target_end),
        decreases ivs@.len() - i,
    {
        let iv = &ivs[i];
        if iv.settled_at.is_none() && iv.start_at <= now && iv.start_at < target_end && iv.end_at > target_start {
            assert(blocks_coverage(ivs@[i as int], now, target_start, target_end));
            return true;
        }
        i += 1;
    }
    false
}

fn find_latest(cs: &Vec<CoverageConfirmationRow>) -> (r: usize)
    requires
        cs@.len() > 0,
    ensures
        r == latest_index(cs@),
        r < cs@.len(),
{
    let mut best: usize = 0;
    let mut i: usize = 1;
    while i < cs.len()
        invariant
            1 <= i <= cs@.len(),
            best == latest_index(cs@.subrange(0, i as int)),
            best < i,
        decreases cs@.len() - i,
    {
        proof {
            assert(cs@.subrange(0, i as int + 1).drop_last() =~= cs@.subrange(0, i as int));
        }
        if cs[i].created_at >= cs[best].created_at {
            best = i;
        }
        i += 1;
    }
    proof {
        assert(cs@.subrange(0, cs@.len() as int) =~= cs@);
    }
    best
}

fn confirmation_state_of(c: &CoverageConfirmationRow, now: i64, target_start: i64, target_end: i64) -> (r: CoverageState)
    ensures
        r == confirmation_state(*c, now, target_start, target_end),
{
    if str_eq(c.calendar_health.as_str(), "stale") || str_eq(c.calendar_health.as_str(), "error") {
        return CoverageState::Stale;
    }
    let elapsed: i128 = now as i128 - c.created_at as i128;
    if elapsed > (COVERAGE_CONFIRMATION_TTL_HOURS as i128) * 3600 {
        return CoverageState::Stale;
    }
    if c.start_at > target_end {
        return CoverageState::Bootstrap;
    }
    if c.start_at <= target_start && c.end_at >= target_end {
        if str_eq(c.source.as_str(), "target_period") || str_eq(c.source.as_str(), "system") {
            return CoverageState::Trusted;
        }
        return CoverageState::TodayCovered;
    }
    if c.end_at > target_start && c.start_at < target_end {
        return CoverageState::TodayCovered;
    }
    CoverageState::Stale
}

/// Compute the effective coverage state for a planner evaluation.
///
/// An unresolved interval that has started and overlaps the target period
/// makes coverage stale; with none, the latest confirmation decides: an
/// unhealthy calendar sync or an expired confirmation is stale, a future one
/// is bootstrap, one that covers the target period is trusted (from a trusted
/// source) or today-covered, one that overlaps it is today-covered, and one
/// that predates it is stale. No confirmation at all is bootstrap.
pub fn compute_coverage(evaluation: &CoverageEvaluation, now: i64, target_start: i64, target_end: i64) -> (r: CoverageState)
    ensures
        r == coverage_spec(*evaluation, now, target_start, target_end),
{
    if find_unresolved(&evaluation.unsettled_intervals, now, target_start, target_end) {
        return CoverageState::Stale;
    }
    if evaluation.confirmations.len() == 0 {
        return CoverageState::Bootstrap;
    }
    let k = find_latest(&evaluation.confirmations);
    confirmation_state_of(&evaluation.confirmations[k], now, target_start, target_end)
}

pub open spec fn authority_of(state: CoverageState) -> TaskAuthority {
    match state {
        CoverageState::TodayCovered | CoverageState::Trusted => TaskAuthority::TodayCovered,
        CoverageState::Bootstrap | CoverageState::Stale => TaskAuthority::Candidate,
    }
}

/// Map a coverage state to the authority a current-task card should carry.
pub fn task_authority(state: CoverageState) -> (r: TaskAuthority)
    ensures
        r == authority_of(state),
{
    match state {
        CoverageState::TodayCovered | CoverageState::Trusted => TaskAuthority::TodayCovered,
        CoverageState::Bootstrap | CoverageState::Stale => TaskAuthority::Candidate,
    }
}

/// Build a coverage evaluation that explicitly records a bootstrap state.
pub fn bootstrap_evaluation(schedule_revision: i64) -> (r: CoverageEvaluation)
    ensures
        r.state == CoverageState::Bootstrap,
        r.confirmations@.len() == 0,
        r.unsettled_intervals@.len() == 0,
        r.schedule_revision == schedule_revision,
{
    CoverageEvaluation {
        state: CoverageState::Bootstrap,
        confirmations: Vec::new(),
        unsettled_intervals: Vec::new(),
        schedule_revision,
    }
}

/// A started, unresolved interval overlapping the target period makes
/// coverage stale, whatever confirmations exist.
pub proof fn lemma_unresolved_interval_forces_stale(
    e: CoverageEvaluation,
    k: int,
    now: i64,
    target_start: i64,
    target_end: i64,
)
    requires
        0 <= k < e.unsettled_intervals@.len(),
        blocks_coverage(e.unsettled_intervals@[k], now, target_start, target_end),
    ensures
        coverage_spec(e, now, target_start, target_end) == CoverageState::Stale,
{
}

/// Trusted coverage is only reached through a confirmation that covers the
/// whole target period, comes from a trusted source, and is neither expired
/// nor drawn from an unhealthy calendar, with no unresolved interval.
pub proof fn lemma_trusted_needs_covering_confirmation(
    e: CoverageEvaluation,
    now: i64,
    target_start: i64,
    target_end: i64,
)
    requires
        coverage_spec(e, now, target_start, target_end) == CoverageState::Trusted,
    ensures
        !has_unresolved(e.unsettled_intervals@, now, target_start, target_end),
        e.confirmations@.len() > 0,
        ({
            let c = e.confirmations@[latest_index(e.confirmations@)];
            &&& c.start_at <= target_start
            &&& c.end_at >= target_end
            &&& trusted_source(c)
            &&& !is_expired(c, now)
            &&& !unhealthy_calendar(c)
        }),
{
}

/// Only today-covered and trusted coverage make the current task
/// authoritative.
pub proof fn lemma_authority_follows_trust(state: CoverageState)
    ensures
        (authority_of(state) == TaskAuthority::TodayCovered)
            <==> (state == CoverageState::TodayCovered || state == CoverageState::Trusted),
{
}

} // verus!
