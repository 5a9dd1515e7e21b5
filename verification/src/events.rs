//! Pure planner-event evaluation.
//!
//! The application host builds an [`EvaluationSnapshot`] from one consistent
//! read, evaluates it, and commits the returned events to the ledger in a
//! separate revision-checked transaction. Evaluation has no storage or
//! transport dependencies.
//!
//! Timestamps are Unix seconds. The floating-point duration estimator stays
//! with the caller: an [`EvaluationWork`] carries the band, the next band
//! crossing and the expected remaining work already resolved to seconds.

use vstd::prelude::*;
use vstd::utf8::{encode_scalar, encode_utf8};
use crate::approval_flow::{is_digit, lemma_digits_round_trip};
use crate::clock::{in_timestamp_range, timestamp_text, timestamp_to_string};
use crate::coverage::{CoverageEvaluation, CoverageState, authority_of, task_authority};
use crate::presentation::{
    Action, ActionGroup, ActionKind, CheckInCard, CheckInKind, Presentation, ScheduleAlert,
    ScheduleAlertKind, SettlementPrompt, TaskAuthority, TaskCard, WorkState, make_action,
    plain_action, single_action_group,
};
use crate::text::{append_str, i64_to_string, int_digits, nat_digits, string_of, u64_to_string};

verus! {

/// Grace period before a missed start becomes a sync check-in.
pub const NON_START_GRACE_MINUTES: i64 = 15;
/// Minimum duration of an unclassified gap before a capture check-in.
pub const UNCLASSIFIED_GAP_THRESHOLD_MINUTES: i64 = 30;
/// Age after which an unfinished scheduled task counts as carried over.
pub const CARRY_OVER_SECONDS: i64 = 86400;

/// Lifecycle status of a task.
#[derive(Debug, Clone, Copy, PartialEq, Eq, Structural)]
pub enum TaskStatus {
    Pending,
    Scheduled,
    InProgress,
    Paused,
    Completed,
    Skipped,
}

/// Band of a work session against its duration distribution.
#[derive(Debug, Clone, Copy, PartialEq, Eq, Structural)]
pub enum InterventionBand {
    Usual,
    Attention,
    Replan,
}

impl InterventionBand {
    /// Whether the band asks for an intervention.
    pub fn is_intervention(self) -> (r: bool)
        ensures
            r == (self != InterventionBand::Usual),
    {
        !matches!(self, InterventionBand::Usual)
    }
}

/// A task projection needed by the evaluator.
#[derive(Debug, Clone)]
pub struct EvaluationTask {
    pub id: String,
    pub display_id: i64,
    pub title: String,
    pub scheduled_at: Option<i64>,
    pub deadline_at: i64,
    pub status: TaskStatus,
    pub fixed: bool,
    pub quantity_total: Option<i64>,
    pub quantity_done: i64,
}

/// A schedule entry used for canonical gap detection and next-task rendering.
#[derive(Debug, Clone)]
pub struct EvaluationScheduleEntry {
    pub task_id: String,
    pub start_at: i64,
    pub end_at: i64,
}

/// Active work-session information, with the duration estimate already
/// resolved against the session's active minutes.
#[derive(Debug, Clone)]
pub struct EvaluationWork {
    pub task_id: String,
    pub distribution_revision: i64,
    /// Set for a progress-based observation. A censored observation leaves
    /// this unset and is judged from the distribution band instead.
    pub progress_band: Option<InterventionBand>,
    /// Band of the duration distribution at the session's active minutes.
    pub distribution_band: InterventionBand,
    /// Seconds from now until active time crosses the next band boundary,
    /// when such a crossing lies ahead.
    pub crossing_in_seconds: Option<i64>,
    /// Seconds of work the distribution's mean still expects.
    pub remaining_seconds: i64,
}

/// The five gap categories in the event contract.
#[derive(Debug, Clone, Copy, PartialEq, Eq, Structural)]
pub enum GapKind {
    FreeTime,
    Buffer,
    Routine,
    Unclassified,
    GenerationFailure,
}

/// A gap classification produced by the application layer.
#[derive(Debug, Clone)]
pub struct EvaluationGap {
    pub start_at: i64,
    pub end_at: i64,
    pub kind: GapKind,
    /// Stable identity for a gap. If omitted, the empty identity is used.
    pub identity: Option<String>,
}

/// View of committed event IDs. A committed event is never emitted again by
/// evaluation.
#[derive(Debug, Clone)]
pub struct LedgerView {
    pub committed_event_ids: Vec<String>,
}

impl Default for LedgerView {
    fn default() -> (r: Self)
        ensures
            r.committed_event_ids@.len() == 0,
    {
        LedgerView { committed_event_ids: Vec::new() }
    }
}

/// User-visible sleep impact already determined by the schedule layer.
#[derive(Debug, Clone, Copy, PartialEq, Eq, Structural)]
pub struct SleepImpact {
    pub detected: bool,
}

/// One consistent read of all inputs used by the evaluator.
#[derive(Debug, Clone)]
pub struct EvaluationSnapshot {
    pub schedule_revision: i64,
    pub now: i64,
    pub tasks: Vec<EvaluationTask>,
    pub schedule: Vec<EvaluationScheduleEntry>,
    pub work: Vec<EvaluationWork>,
    pub gaps: Vec<EvaluationGap>,
    /// Tasks that the planner could not place during generation.
    pub unplaced_task_ids: Vec<String>,
    pub coverage: CoverageEvaluation,
    pub ledger: LedgerView,
    pub sleep_impact: Option<SleepImpact>,
}

impl Default for EvaluationSnapshot {
    fn default() -> (r: Self)
        ensures
            r.schedule_revision == 0,
            r.now == 0,
            r.tasks@.len() == 0,
            r.schedule@.len() == 0,
            r.work@.len() == 0,
            r.gaps@.len() == 0,
            r.unplaced_task_ids@.len() == 0,
            r.coverage.state == CoverageState::Bootstrap,
            r.coverage.confirmations@.len() == 0,
            r.coverage.unsettled_intervals@.len() == 0,
            r.ledger.committed_event_ids@.len() == 0,
            r.sleep_impact is None,
    {
        EvaluationSnapshot {
            schedule_revision: 0,
            now: 0,
            tasks: Vec::new(),
            schedule: Vec::new(),
            work: Vec::new(),
            gaps: Vec::new(),
            unplaced_task_ids: Vec::new(),
            coverage: CoverageEvaluation::default(),
            ledger: LedgerView::default(),
            sleep_impact: None,
        }
    }
}

/// Planner event categories. Their labels are stable wire identifiers.
#[derive(Debug, Clone, Copy, PartialEq, Eq, Hash, Structural)]
pub enum PlannerEventKind {
    TaskStartTimeReached,
    TaskNonStartContinued,
    UnclassifiedGapContinued,
    DistributionOverrun,
    DeadlineViolation,
    CarriedOverIncomplete,
    ScheduleGenerationFailure,
    SleepImpact,
    /// The current task card with coverage authority and optional settlement prompt.
    CurrentTask,
}

pub open spec fn kind_label(kind: PlannerEventKind) -> Seq<char> {
    match kind {
        PlannerEventKind::TaskStartTimeReached => "task_start_time_reached"@,
        PlannerEventKind::TaskNonStartContinued => "task_non_start_continued"@,
        PlannerEventKind::UnclassifiedGapContinued => "unclassified_gap_continued"@,
        PlannerEventKind::DistributionOverrun => "distribution_overrun"@,
        PlannerEventKind::DeadlineViolation => "deadline_violation"@,
        PlannerEventKind::CarriedOverIncomplete => "carried_over_incomplete"@,
        PlannerEventKind::ScheduleGenerationFailure => "schedule_generation_failure"@,
        PlannerEventKind::SleepImpact => "sleep_impact"@,
        PlannerEventKind::CurrentTask => "current_task"@,
    }
}

impl PlannerEventKind {
    /// The stable wire label.
    pub fn as_str(self) -> (s: &'static str)
        ensures
            s@ == kind_label(self),
    {
        match self {
            PlannerEventKind::TaskStartTimeReached => "task_start_time_reached",
            PlannerEventKind::TaskNonStartContinued => "task_non_start_continued",
            PlannerEventKind::UnclassifiedGapContinued => "unclassified_gap_continued",
            PlannerEventKind::DistributionOverrun => "distribution_overrun",
            PlannerEventKind::DeadlineViolation => "deadline_violation",
            PlannerEventKind::CarriedOverIncomplete => "carried_over_incomplete",
            PlannerEventKind::ScheduleGenerationFailure => "schedule_generation_failure",
            PlannerEventKind::SleepImpact => "sleep_impact",
            PlannerEventKind::CurrentTask => "current_task",
        }
    }
}

/// Delivery urgency, kept separate from delivery modality.
#[derive(Debug, Clone, Copy, PartialEq, Eq, Structural)]
pub enum Urgency {
    Normal,
    High,
    Emergency,
}

/// A task identity included in event payloads.
#[derive(Debug, Clone)]
pub struct TaskRef {
    pub task_id: String,
    pub display_id: i64,
}

/// An event returned by the evaluator.
#[derive(Debug, Clone)]
pub struct PlannerEvent {
    pub id: String,
    pub kind: PlannerEventKind,
    pub task_ref: Option<TaskRef>,
    pub band: Option<InterventionBand>,
    pub presentation: Presentation,
    pub urgency: Urgency,
    pub schedule_revision: i64,
    pub distribution_revision: Option<i64>,
    pub due_at: i64,
}

/// Result of one evaluator invocation.
#[derive(Debug, Clone)]
pub struct EvaluationResult {
    pub due_events: Vec<PlannerEvent>,
    /// `None` means no known boundary remains.
    pub next_eval_at: Option<i64>,
}

// ---------------------------------------------------------------------------
// Event identifiers
// ---------------------------------------------------------------------------

/// The byte length `str::len` reports for a string with these characters.
pub open spec fn utf8_len(v: Seq<char>) -> nat {
    (encode_utf8(v).len() as usize) as nat
}

/// A length-delimited part of an event key: `{byte length}:{value}`.
pub open spec fn key_part(v: Seq<char>) -> Seq<char> {
    nat_digits(utf8_len(v)) + ":"@ + v
}

pub open spec fn revision_text(r: Option<i64>) -> Seq<char> {
    match r {
        Some(v) => int_digits(v as int),
        None => "-"@,
    }
}

/// The canonical event key.
pub open spec fn event_id_text(
    kind: PlannerEventKind,
    task_id: Seq<char>,
    schedule_revision: i64,
    distribution_revision: Option<i64>,
    boundary: i64,
    observation_kind: Seq<char>,
) -> Seq<char> {
    "planner:v1:"@ + kind_label(kind) + ":"@ + key_part(task_id) + ":s"@ + int_digits(schedule_revision as int)
        + ":d"@ + revision_text(distribution_revision) + ":b"@ + key_part(timestamp_text(boundary))
        + ":o"@ + key_part(observation_kind)
}

pub open spec fn opt_str_text(o: Option<&str>) -> Seq<char> {
    match o {
        Some(s) => s@,
        None => Seq::empty(),
    }
}

fn append_key_part(s: &mut String, value: &str)
    ensures
        final(s)@ == old(s)@ + key_part(value@),
{
    let n = value.len();
    let digits = u64_to_string(n as u64);
    append_str(s, digits.as_str());
    append_str(s, ":");
    append_str(s, value);
}

/// Build the canonical event key. All semantic inputs are length-delimited
/// so task IDs and timestamps cannot make two keys ambiguous.
pub fn event_id(
    kind: PlannerEventKind,
    task_id: Option<&str>,
    schedule_revision: i64,
    distribution_revision: Option<i64>,
    boundary: i64,
    observation_kind: &str,
) -> (r: String)
    requires
        in_timestamp_range(boundary as int),
    ensures
        r@ == event_id_text(kind, opt_str_text(task_id), schedule_revision, distribution_revision, boundary, observation_kind@),
{
    let mut s = string_of("planner:v1:");
    append_str(&mut s, kind.as_str());
    append_str(&mut s, ":");
    match task_id {
        Some(t) => append_key_part(&mut s, t),
        None => append_key_part(&mut s, ""),
    }
    append_str(&mut s, ":s");
    let rev = i64_to_string(schedule_revision);
    append_str(&mut s, rev.as_str());
    append_str(&mut s, ":d");
    match distribution_revision {
        Some(d) => {
            let t = i64_to_string(d);
            append_str(&mut s, t.as_str());
        },
        None => append_str(&mut s, "-"),
    }
    append_str(&mut s, ":b");
    let b = timestamp_to_string(boundary);
    append_key_part(&mut s, b.as_str());
    append_str(&mut s, ":o");
    append_key_part(&mut s, observation_kind);
    proof {
        assert(opt_str_text(None::<&str>) == ""@) by { reveal_strlit(""); }
    }
    s
}

// ---------------------------------------------------------------------------
// Event keys are unambiguous
// ---------------------------------------------------------------------------

/// Whether a text holds no `:`.
pub open spec fn colon_free(a: Seq<char>) -> bool {
    forall|i: int| 0 <= i < a.len() ==> a[i] != ':'
}

proof fn lemma_strip_prefix(p: Seq<char>, x1: Seq<char>, x2: Seq<char>)
    requires
        p + x1 == p + x2,
    ensures
        x1 == x2,
{
    assert(x1 =~= (p + x1).subrange(p.len() as int, (p + x1).len() as int));
    assert(x2 =~= (p + x2).subrange(p.len() as int, (p + x2).len() as int));
}

proof fn lemma_split_same_length(a1: Seq<char>, x1: Seq<char>, a2: Seq<char>, x2: Seq<char>)
    requires
        a1 + x1 == a2 + x2,
        a1.len() == a2.len(),
    ensures
        a1 == a2,
        x1 == x2,
{
    assert(a1 =~= (a1 + x1).subrange(0, a1.len() as int));
    assert(a2 =~= (a2 + x2).subrange(0, a2.len() as int));
    lemma_strip_prefix(a1, x1, x2);
}

proof fn lemma_split_at_colon(a1: Seq<char>, x1: Seq<char>, a2: Seq<char>, x2: Seq<char>)
    requires
        colon_free(a1),
        colon_free(a2),
        a1 + (":"@ + x1) == a2 + (":"@ + x2),
    ensures
        a1 == a2,
        x1 == x2,
{
    reveal_strlit(":");
    let l = a1 + (":"@ + x1);
    if a1.len() < a2.len() {
        assert(l[a1.len() as int] == ':');
        assert((a2 + (":"@ + x2))[a1.len() as int] == a2[a1.len() as int]);
    } else if a2.len() < a1.len() {
        assert((a2 + (":"@ + x2))[a2.len() as int] == ':');
        assert(l[a2.len() as int] == a1[a2.len() as int]);
    }
    lemma_split_same_length(a1, ":"@ + x1, a2, ":"@ + x2);
    lemma_strip_prefix(":"@, x1, x2);
}

proof fn lemma_encode_concat(a: Seq<char>, b: Seq<char>)
    ensures
        encode_utf8(a + b).len() == encode_utf8(a).len() + encode_utf8(b).len(),
        encode_utf8(a).len() >= a.len(),
    decreases a.len(),
{
    if a.len() > 0 {
        assert((a + b)[0] == a[0]);
        assert((a + b).drop_first() =~= a.drop_first() + b);
        lemma_encode_concat(a.drop_first(), b);
        assert(encode_scalar(a[0] as u32).len() >= 1);
    } else {
        assert(a + b =~= b);
    }
}

proof fn lemma_split_same_bytes(a1: Seq<char>, x1: Seq<char>, a2: Seq<char>, x2: Seq<char>)
    requires
        a1 + x1 == a2 + x2,
        encode_utf8(a1).len() == encode_utf8(a2).len(),
    ensures
        a1 == a2,
        x1 == x2,
{
    let l = a1 + x1;
    if a1.len() < a2.len() {
        let w = a2.subrange(a1.len() as int, a2.len() as int);
        assert(a1 =~= l.subrange(0, a1.len() as int));
        assert(a2 =~= a1 + w) by {
            assert forall|i: int| 0 <= i < a1.len() implies a2[i] == a1[i] by {
                assert(a2[i] == (a2 + x2)[i]);
                assert(a1[i] == l[i]);
            }
        }
        lemma_encode_concat(a1, w);
        lemma_encode_concat(w, Seq::empty());
    } else if a2.len() < a1.len() {
        let w = a1.subrange(a2.len() as int, a1.len() as int);
        assert(a1 =~= a2 + w) by {
            assert forall|i: int| 0 <= i < a2.len() implies a1[i] == a2[i] by {
                assert(a2[i] == (a2 + x2)[i]);
                assert(a1[i] == l[i]);
            }
        }
        lemma_encode_concat(a2, w);
        lemma_encode_concat(w, Seq::empty());
    }
    lemma_split_same_length(a1, x1, a2, x2);
}

proof fn lemma_digits_colon_free(n: nat)
    ensures
        colon_free(nat_digits(n)),
        nat_digits(n).len() > 0,
        is_digit(nat_digits(n)[0]),
{
    lemma_digits_round_trip(n);
}

proof fn lemma_digits_injective(n1: nat, n2: nat)
    requires
        nat_digits(n1) == nat_digits(n2),
    ensures
        n1 == n2,
{
    lemma_digits_round_trip(n1);
    lemma_digits_round_trip(n2);
}

proof fn lemma_int_digits_facts(i: int)
    ensures
        colon_free(int_digits(i)),
        int_digits(i).len() > 0,
        i < 0 ==> int_digits(i).len() > 1 && int_digits(i)[0] == '-',
        i >= 0 ==> is_digit(int_digits(i)[0]),
{
    if i < 0 {
        lemma_digits_colon_free((-i) as nat);
        let d = nat_digits((-i) as nat);
        assert forall|k: int| 0 <= k < int_digits(i).len() implies int_digits(i)[k] != ':' by {
            if k > 0 {
                assert(int_digits(i)[k] == d[k - 1]);
            }
        }
    } else {
        lemma_digits_colon_free(i as nat);
    }
}

proof fn lemma_int_digits_injective(i1: int, i2: int)
    requires
        int_digits(i1) == int_digits(i2),
    ensures
        i1 == i2,
{
    lemma_int_digits_facts(i1);
    lemma_int_digits_facts(i2);
    if i1 < 0 && i2 < 0 {
        lemma_strip_prefix(seq!['-'], nat_digits((-i1) as nat), nat_digits((-i2) as nat));
        lemma_digits_injective((-i1) as nat, (-i2) as nat);
    } else if i1 >= 0 && i2 >= 0 {
        lemma_digits_injective(i1 as nat, i2 as nat);
    }
}

proof fn lemma_revision_text_facts(r: Option<i64>)
    ensures
        colon_free(revision_text(r)),
{
    reveal_strlit("-");
    if let Some(v) = r {
        lemma_int_digits_facts(v as int);
    }
}

proof fn lemma_revision_text_injective(r1: Option<i64>, r2: Option<i64>)
    requires
        revision_text(r1) == revision_text(r2),
    ensures
        r1 == r2,
{
    reveal_strlit("-");
    match (r1, r2) {
        (Some(v1), Some(v2)) => lemma_int_digits_injective(v1 as int, v2 as int),
        (Some(v), None) => lemma_int_digits_facts(v as int),
        (None, Some(v)) => lemma_int_digits_facts(v as int),
        (None, None) => {},
    }
}

proof fn lemma_kind_label_facts(k: PlannerEventKind)
    ensures
        colon_free(kind_label(k)),
{
    reveal_strlit("task_start_time_reached");
    reveal_strlit("task_non_start_continued");
    reveal_strlit("unclassified_gap_continued");
    reveal_strlit("distribution_overrun");
    reveal_strlit("deadline_violation");
    reveal_strlit("carried_over_incomplete");
    reveal_strlit("schedule_generation_failure");
    reveal_strlit("sleep_impact");
    reveal_strlit("current_task");
}

spec fn label_length(k: PlannerEventKind) -> nat {
    match k {
        PlannerEventKind::TaskStartTimeReached => 23,
        PlannerEventKind::TaskNonStartContinued => 24,
        PlannerEventKind::UnclassifiedGapContinued => 26,
        PlannerEventKind::DistributionOverrun => 20,
        PlannerEventKind::DeadlineViolation => 18,
        PlannerEventKind::CarriedOverIncomplete => 23,
        PlannerEventKind::ScheduleGenerationFailure => 27,
        PlannerEventKind::SleepImpact => 12,
        PlannerEventKind::CurrentTask => 12,
    }
}

spec fn label_initial(k: PlannerEventKind) -> char {
    match k {
        PlannerEventKind::TaskStartTimeReached => 't',
        PlannerEventKind::TaskNonStartContinued => 't',
        PlannerEventKind::UnclassifiedGapContinued => 'u',
        PlannerEventKind::DistributionOverrun => 'd',
        PlannerEventKind::DeadlineViolation => 'd',
        PlannerEventKind::CarriedOverIncomplete => 'c',
        PlannerEventKind::ScheduleGenerationFailure => 's',
        PlannerEventKind::SleepImpact => 's',
        PlannerEventKind::CurrentTask => 'c',
    }
}

proof fn lemma_kind_label_shape(k: PlannerEventKind)
    ensures
        kind_label(k).len() == label_length(k),
        kind_label(k)[0] == label_initial(k),
{
    reveal_strlit("task_start_time_reached");
    reveal_strlit("task_non_start_continued");
    reveal_strlit("unclassified_gap_continued");
    reveal_strlit("distribution_overrun");
    reveal_strlit("deadline_violation");
    reveal_strlit("carried_over_incomplete");
    reveal_strlit("schedule_generation_failure");
    reveal_strlit("sleep_impact");
    reveal_strlit("current_task");
}

proof fn lemma_kind_label_injective(k1: PlannerEventKind, k2: PlannerEventKind)
    requires
        kind_label(k1) == kind_label(k2),
    ensures
        k1 == k2,
{
    lemma_kind_label_shape(k1);
    lemma_kind_label_shape(k2);
}

/// Splits a length-delimited part off the front of a text.
proof fn lemma_split_key_part(v1: Seq<char>, x1: Seq<char>, v2: Seq<char>, x2: Seq<char>)
    requires
        encode_utf8(v1).len() <= usize::MAX,
        encode_utf8(v2).len() <= usize::MAX,
        nat_digits(utf8_len(v1)) + (":"@ + (v1 + x1)) == nat_digits(utf8_len(v2)) + (":"@ + (v2 + x2)),
    ensures
        v1 == v2,
        x1 == x2,
{
    lemma_digits_colon_free(utf8_len(v1));
    lemma_digits_colon_free(utf8_len(v2));
    lemma_split_at_colon(nat_digits(utf8_len(v1)), v1 + x1, nat_digits(utf8_len(v2)), v2 + x2);
    lemma_digits_injective(utf8_len(v1), utf8_len(v2));
    lemma_split_same_bytes(v1, x1, v2, x2);
}

/// The event key written with its parts grouped from the right.
spec fn key_from_task(
    task_id: Seq<char>,
    schedule_revision: i64,
    distribution_revision: Option<i64>,
    boundary_text: Seq<char>,
    observation_kind: Seq<char>,
) -> Seq<char> {
    nat_digits(utf8_len(task_id)) + (":"@ + (task_id + (":s"@ + (int_digits(schedule_revision as int) + (":"@
        + ("d"@ + (revision_text(distribution_revision) + (":"@ + ("b"@ + (nat_digits(utf8_len(boundary_text))
        + (":"@ + (boundary_text + (":o"@ + (nat_digits(utf8_len(observation_kind)) + (":"@
        + observation_kind)))))))))))))))
}

#[verifier::rlimit(100)]
proof fn lemma_event_id_grouped(
    kind: PlannerEventKind,
    task_id: Seq<char>,
    schedule_revision: i64,
    distribution_revision: Option<i64>,
    boundary: i64,
    observation_kind: Seq<char>,
)
    ensures
        event_id_text(kind, task_id, schedule_revision, distribution_revision, boundary, observation_kind)
            == "planner:v1:"@ + (kind_label(kind) + (":"@ + key_from_task(
                task_id, schedule_revision, distribution_revision, timestamp_text(boundary), observation_kind))),
{
    reveal_strlit(":s");
    reveal_strlit(":d");
    reveal_strlit(":b");
    reveal_strlit(":o");
    reveal_strlit(":");
    reveal_strlit("d");
    reveal_strlit("b");
    assert(":s"@ =~= ":"@ + "s"@) by { reveal_strlit("s"); }
    assert(":d"@ =~= ":"@ + "d"@);
    assert(":b"@ =~= ":"@ + "b"@);
    assert(event_id_text(kind, task_id, schedule_revision, distribution_revision, boundary, observation_kind)
        =~= "planner:v1:"@ + (kind_label(kind) + (":"@ + key_from_task(
            task_id, schedule_revision, distribution_revision, timestamp_text(boundary), observation_kind))));
}

/// Event keys are unambiguous: two keys are equal only when they were made
/// from the same kind, task id, schedule revision, distribution revision,
/// boundary text and observation kind. Each free-text part is preceded by
/// its byte length, so no choice of task id or observation kind can imitate
/// another key.
pub proof fn lemma_event_id_injective(
    kind1: PlannerEventKind,
    task_id1: Seq<char>,
    schedule_revision1: i64,
    distribution_revision1: Option<i64>,
    boundary1: i64,
    observation_kind1: Seq<char>,
    kind2: PlannerEventKind,
    task_id2: Seq<char>,
    schedule_revision2: i64,
    distribution_revision2: Option<i64>,
    boundary2: i64,
    observation_kind2: Seq<char>,
)
    requires
        encode_utf8(task_id1).len() <= usize::MAX,
        encode_utf8(task_id2).len() <= usize::MAX,
        encode_utf8(timestamp_text(boundary1)).len() <= usize::MAX,
        encode_utf8(timestamp_text(boundary2)).len() <= usize::MAX,
        encode_utf8(observation_kind1).len() <= usize::MAX,
        encode_utf8(observation_kind2).len() <= usize::MAX,
        event_id_text(kind1, task_id1, schedule_revision1, distribution_revision1, boundary1, observation_kind1)
            == event_id_text(kind2, task_id2, schedule_revision2, distribution_revision2, boundary2, observation_kind2),
    ensures
        kind1 == kind2,
        task_id1 == task_id2,
        schedule_revision1 == schedule_revision2,
        distribution_revision1 == distribution_revision2,
        timestamp_text(boundary1) == timestamp_text(boundary2),
        observation_kind1 == observation_kind2,
{
    let b1 = timestamp_text(boundary1);
    let b2 = timestamp_text(boundary2);
    lemma_event_id_grouped(kind1, task_id1, schedule_revision1, distribution_revision1, boundary1, observation_kind1);
    lemma_event_id_grouped(kind2, task_id2, schedule_revision2, distribution_revision2, boundary2, observation_kind2);
    let r1 = key_from_task(task_id1, schedule_revision1, distribution_revision1, b1, observation_kind1);
    let r2 = key_from_task(task_id2, schedule_revision2, distribution_revision2, b2, observation_kind2);
    lemma_strip_prefix("planner:v1:"@, kind_label(kind1) + (":"@ + r1), kind_label(kind2) + (":"@ + r2));
    lemma_kind_label_facts(kind1);
    lemma_kind_label_facts(kind2);
    lemma_split_at_colon(kind_label(kind1), r1, kind_label(kind2), r2);
    lemma_kind_label_injective(kind1, kind2);

    let s1 = ":s"@ + (int_digits(schedule_revision1 as int) + (":"@ + ("d"@ + (revision_text(distribution_revision1)
        + (":"@ + ("b"@ + (nat_digits(utf8_len(b1)) + (":"@ + (b1 + (":o"@ + (nat_digits(utf8_len(observation_kind1))
        + (":"@ + observation_kind1))))))))))));
    let s2 = ":s"@ + (int_digits(schedule_revision2 as int) + (":"@ + ("d"@ + (revision_text(distribution_revision2)
        + (":"@ + ("b"@ + (nat_digits(utf8_len(b2)) + (":"@ + (b2 + (":o"@ + (nat_digits(utf8_len(observation_kind2))
        + (":"@ + observation_kind2))))))))))));
    lemma_split_key_part(task_id1, s1, task_id2, s2);

    let d1 = "d"@ + (revision_text(distribution_revision1) + (":"@ + ("b"@ + (nat_digits(utf8_len(b1)) + (":"@ + (b1
        + (":o"@ + (nat_digits(utf8_len(observation_kind1)) + (":"@ + observation_kind1)))))))));
    let d2 = "d"@ + (revision_text(distribution_revision2) + (":"@ + ("b"@ + (nat_digits(utf8_len(b2)) + (":"@ + (b2
        + (":o"@ + (nat_digits(utf8_len(observation_kind2)) + (":"@ + observation_kind2)))))))));
    lemma_strip_prefix(":s"@, int_digits(schedule_revision1 as int) + (":"@ + d1), int_digits(schedule_revision2 as int) + (":"@ + d2));
    lemma_int_digits_facts(schedule_revision1 as int);
    lemma_int_digits_facts(schedule_revision2 as int);
    lemma_split_at_colon(int_digits(schedule_revision1 as int), d1, int_digits(schedule_revision2 as int), d2);
    lemma_int_digits_injective(schedule_revision1 as int, schedule_revision2 as int);

    let e1 = "b"@ + (nat_digits(utf8_len(b1)) + (":"@ + (b1 + (":o"@ + (nat_digits(utf8_len(observation_kind1))
        + (":"@ + observation_kind1))))));
    let e2 = "b"@ + (nat_digits(utf8_len(b2)) + (":"@ + (b2 + (":o"@ + (nat_digits(utf8_len(observation_kind2))
        + (":"@ + observation_kind2))))));
    lemma_strip_prefix("d"@, revision_text(distribution_revision1) + (":"@ + e1), revision_text(distribution_revision2) + (":"@ + e2));
    lemma_revision_text_facts(distribution_revision1);
    lemma_revision_text_facts(distribution_revision2);
    lemma_split_at_colon(revision_text(distribution_revision1), e1, revision_text(distribution_revision2), e2);
    lemma_revision_text_injective(distribution_revision1, distribution_revision2);

    let o1 = ":o"@ + (nat_digits(utf8_len(observation_kind1)) + (":"@ + observation_kind1));
    let o2 = ":o"@ + (nat_digits(utf8_len(observation_kind2)) + (":"@ + observation_kind2));
    lemma_strip_prefix("b"@, nat_digits(utf8_len(b1)) + (":"@ + (b1 + o1)), nat_digits(utf8_len(b2)) + (":"@ + (b2 + o2)));
    lemma_split_key_part(b1, o1, b2, o2);

    assert(observation_kind1 + Seq::empty() =~= observation_kind1);
    assert(observation_kind2 + Seq::empty() =~= observation_kind2);
    lemma_strip_prefix(":o"@, nat_digits(utf8_len(observation_kind1)) + (":"@ + (observation_kind1 + Seq::empty())),
        nat_digits(utf8_len(observation_kind2)) + (":"@ + (observation_kind2 + Seq::empty())));
    lemma_split_key_part(observation_kind1, Seq::empty(), observation_kind2, Seq::empty());
}

// ---------------------------------------------------------------------------
// Event models
// ---------------------------------------------------------------------------

/// What an event's presentation shows, as mathematical values.
pub enum PresentationModel {
    /// A default check-in with one 「行動」 action (`act`, immediate) and one
    /// 「ズラす」 action (`shift`, panel).
    CheckIn { question: Seq<char>, act_label: Seq<char>, shift_label: Seq<char> },
    /// A schedule alert.
    Alert { kind: ScheduleAlertKind, message: Seq<char> },
    /// The current-task card of a task, with the unsettled interval of its
    /// settlement prompt, if any.
    Card {
        title: Seq<char>,
        display_id: i64,
        start_at: i64,
        deadline_at: i64,
        work_state: WorkState,
        authority: TaskAuthority,
        settlement: Option<(i64, i64)>,
    },
}

/// What an event carries, as mathematical values.
pub struct EventModel {
    pub id: Seq<char>,
    pub kind: PlannerEventKind,
    pub task_ref: Option<(Seq<char>, i64)>,
    pub band: Option<InterventionBand>,
    pub presentation: PresentationModel,
    pub urgency: Urgency,
    pub schedule_revision: i64,
    pub distribution_revision: Option<i64>,
    pub due_at: i64,
}

pub open spec fn single_group(g: ActionGroup, title: Seq<char>, id: Seq<char>, label: Seq<char>, kind: ActionKind) -> bool {
    &&& g.title@ == title
    &&& g.actions.items_view().len() == 1
    &&& plain_action(g.actions.items_view()[0], id, label, kind)
}

pub open spec fn check_in_matches(c: CheckInCard, question: Seq<char>, act_label: Seq<char>, shift_label: Seq<char>) -> bool {
    &&& c.question@ == question
    &&& c.kind == CheckInKind::Default
    &&& single_group(c.act, "行動"@, "act"@, act_label, ActionKind::Immediate)
    &&& single_group(c.shift, "ズラす"@, "shift"@, shift_label, ActionKind::Panel)
}

/// The question of a settlement prompt for the interval `start..end`.
pub open spec fn settlement_question(start: i64, end: i64) -> Seq<char> {
    timestamp_text(start) + "〜"@ + timestamp_text(end) + " の未確定時間を整理してください"@
}

pub open spec fn settlement_matches(p: Option<SettlementPrompt>, m: Option<(i64, i64)>) -> bool {
    match (p, m) {
        (None, None) => true,
        (Some(p), Some((start, end))) => {
            &&& p.question@ == settlement_question(start, end)
            &&& single_group(p.act, "行動"@, "settle-start"@, "この時間で作業"@, ActionKind::Immediate)
            &&& single_group(p.shift, "ズラす"@, "settle-ignore"@, "後で決める"@, ActionKind::Panel)
        },
        _ => false,
    }
}

pub open spec fn text_is(s: Option<String>, t: Seq<char>) -> bool {
    s matches Some(v) && v@ == t
}

pub open spec fn presentation_matches(p: Presentation, m: PresentationModel) -> bool {
    match m {
        PresentationModel::CheckIn { question, act_label, shift_label } =>
            p matches Presentation::CheckIn(c) && check_in_matches(c, question, act_label, shift_label),
        PresentationModel::Alert { kind, message } =>
            p matches Presentation::ScheduleAlert(a) && a.kind == kind && a.message@ == message,
        PresentationModel::Card { title, display_id, start_at, deadline_at, work_state, authority, settlement } =>
            p matches Presentation::CurrentTask(card)
                && card.title@ == title
                && card.reference@ == "#"@ + int_digits(display_id as int)
                && text_is(card.start_at, timestamp_text(start_at))
                && text_is(card.end_at, timestamp_text(deadline_at))
                && card.work_state == work_state
                && card.authority == authority
                && card.next_task is None
                && settlement_matches(card.settlement, settlement),
    }
}

pub open spec fn task_ref_matches(r: Option<TaskRef>, m: Option<(Seq<char>, i64)>) -> bool {
    match (r, m) {
        (None, None) => true,
        (Some(r), Some((id, display))) => r.task_id@ == id && r.display_id == display,
        _ => false,
    }
}

/// Whether an event carries exactly what the model describes.
pub open spec fn event_matches(e: PlannerEvent, m: EventModel) -> bool {
    &&& e.id@ == m.id
    &&& e.kind == m.kind
    &&& task_ref_matches(e.task_ref, m.task_ref)
    &&& e.band == m.band
    &&& presentation_matches(e.presentation, m.presentation)
    &&& e.urgency == m.urgency
    &&& e.schedule_revision == m.schedule_revision
    &&& e.distribution_revision == m.distribution_revision
    &&& e.due_at == m.due_at
}

/// Whether each event carries what its model describes, in order.
pub open spec fn events_match(es: Seq<PlannerEvent>, ms: Seq<EventModel>) -> bool {
    &&& es.len() == ms.len()
    &&& forall|i: int| 0 <= i < es.len() ==> event_matches(#[trigger] es[i], ms[i])
}

pub open spec fn quoted(title: Seq<char>, rest: Seq<char>) -> Seq<char> {
    "「"@ + title + rest
}

pub open spec fn task_ref_of(t: EvaluationTask) -> Option<(Seq<char>, i64)> {
    Some((t.id@, t.display_id))
}

pub open spec fn check_in_model(question: Seq<char>, act_label: Seq<char>, shift_label: Seq<char>) -> PresentationModel {
    PresentationModel::CheckIn { question, act_label, shift_label }
}

pub open spec fn start_model(s: EvaluationSnapshot, t: EvaluationTask, boundary: i64) -> EventModel {
    EventModel {
        id: event_id_text(PlannerEventKind::TaskStartTimeReached, t.id@, s.schedule_revision, None, boundary, "start-time"@),
        kind: PlannerEventKind::TaskStartTimeReached,
        task_ref: task_ref_of(t),
        band: None,
        presentation: check_in_model(quoted(t.title@, "」の開始時刻です"@), "着手"@, "10分後にずらす"@),
        urgency: Urgency::Normal,
        schedule_revision: s.schedule_revision,
        distribution_revision: None,
        due_at: boundary,
    }
}

pub open spec fn non_start_model(s: EvaluationSnapshot, t: EvaluationTask, boundary: i64) -> EventModel {
    EventModel {
        id: event_id_text(PlannerEventKind::TaskNonStartContinued, t.id@, s.schedule_revision, None, boundary, "non-start"@),
        kind: PlannerEventKind::TaskNonStartContinued,
        task_ref: task_ref_of(t),
        band: None,
        presentation: check_in_model(quoted(t.title@, "」は開始時刻を過ぎています"@), "今から着手"@, "10分後にずらす"@),
        urgency: Urgency::Normal,
        schedule_revision: s.schedule_revision,
        distribution_revision: None,
        due_at: boundary,
    }
}

pub open spec fn overrun_question(title: Seq<char>, band: InterventionBand) -> Seq<char> {
    if band == InterventionBand::Replan {
        quoted(title, "」のペースだと後ろが崩れそうです"@)
    } else {
        quoted(title, "」は予定より時間がかかっています"@)
    }
}

pub open spec fn overrun_observation(progress: bool, band: InterventionBand) -> Seq<char> {
    if progress {
        if band == InterventionBand::Replan { "progress:replan"@ } else { "progress:attention"@ }
    } else {
        if band == InterventionBand::Replan { "censored:replan"@ } else { "censored:attention"@ }
    }
}

pub open spec fn opt_or(o: Option<i64>, d: i64) -> i64 {
    match o {
        Some(v) => v,
        None => d,
    }
}

pub open spec fn distribution_model(s: EvaluationSnapshot, t: EvaluationTask, w: EvaluationWork, band: InterventionBand) -> EventModel {
    EventModel {
        id: event_id_text(
            PlannerEventKind::DistributionOverrun,
            t.id@,
            s.schedule_revision,
            Some(w.distribution_revision),
            opt_or(t.scheduled_at, s.now),
            overrun_observation(w.progress_band is Some, band),
        ),
        kind: PlannerEventKind::DistributionOverrun,
        task_ref: task_ref_of(t),
        band: Some(band),
        presentation: check_in_model(overrun_question(t.title@, band), "進捗を記録"@, "組み直す"@),
        urgency: if band == InterventionBand::Replan { Urgency::High } else { Urgency::Normal },
        schedule_revision: s.schedule_revision,
        distribution_revision: Some(w.distribution_revision),
        due_at: s.now,
    }
}

pub open spec fn gap_identity(g: EvaluationGap) -> Seq<char> {
    match g.identity {
        Some(i) => i@,
        None => Seq::empty(),
    }
}

pub open spec fn gap_model(s: EvaluationSnapshot, g: EvaluationGap, boundary: i64) -> EventModel {
    EventModel {
        id: event_id_text(PlannerEventKind::UnclassifiedGapContinued, gap_identity(g), s.schedule_revision, None, g.start_at, "gap"@),
        kind: PlannerEventKind::UnclassifiedGapContinued,
        task_ref: None,
        band: None,
        presentation: check_in_model("予定に空白が続いています。今なにしてますか"@, "今回の活動を記録"@, "自由時間として残す"@),
        urgency: Urgency::Normal,
        schedule_revision: s.schedule_revision,
        distribution_revision: None,
        due_at: boundary,
    }
}

pub open spec fn deadline_model(s: EvaluationSnapshot, t: EvaluationTask) -> EventModel {
    EventModel {
        id: event_id_text(PlannerEventKind::DeadlineViolation, t.id@, s.schedule_revision, None, t.deadline_at, "deadline"@),
        kind: PlannerEventKind::DeadlineViolation,
        task_ref: task_ref_of(t),
        band: Some(InterventionBand::Replan),
        presentation: check_in_model(quoted(t.title@, "」は期限に間に合わない見込みです"@), "このまま続ける"@, "後ろの予定をずらす"@),
        urgency: Urgency::High,
        schedule_revision: s.schedule_revision,
        distribution_revision: None,
        due_at: s.now,
    }
}

pub open spec fn failure_model(s: EvaluationSnapshot) -> EventModel {
    EventModel {
        id: event_id_text(PlannerEventKind::ScheduleGenerationFailure, Seq::empty(), s.schedule_revision, None, 0, "unplaced"@),
        kind: PlannerEventKind::ScheduleGenerationFailure,
        task_ref: None,
        band: None,
        presentation: PresentationModel::Alert {
            kind: ScheduleAlertKind::GenerationFailure,
            message: "スケジュールに配置できないタスクがあります。組み直しますか"@,
        },
        urgency: Urgency::High,
        schedule_revision: s.schedule_revision,
        distribution_revision: None,
        due_at: s.now,
    }
}

pub open spec fn carry_model(s: EvaluationSnapshot, t: EvaluationTask) -> EventModel {
    EventModel {
        id: event_id_text(PlannerEventKind::CarriedOverIncomplete, t.id@, s.schedule_revision, None, opt_or(t.scheduled_at, s.now), "carry-over"@),
        kind: PlannerEventKind::CarriedOverIncomplete,
        task_ref: task_ref_of(t),
        band: None,
        presentation: check_in_model(quoted(t.title@, "」が未完了のまま残っています"@), "精算して組み直す"@, "そのまま今日にずらす"@),
        urgency: Urgency::High,
        schedule_revision: s.schedule_revision,
        distribution_revision: None,
        due_at: s.now,
    }
}

pub open spec fn sleep_model(s: EvaluationSnapshot) -> EventModel {
    EventModel {
        id: event_id_text(PlannerEventKind::SleepImpact, Seq::empty(), s.schedule_revision, None, 0, "sleep"@),
        kind: PlannerEventKind::SleepImpact,
        task_ref: None,
        band: None,
        presentation: PresentationModel::Alert {
            kind: ScheduleAlertKind::Overdue,
            message: "睡眠時間の影響でスケジュールの調整が必要です"@,
        },
        urgency: Urgency::High,
        schedule_revision: s.schedule_revision,
        distribution_revision: None,
        due_at: s.now,
    }
}

// ---------------------------------------------------------------------------
// Event builders
// ---------------------------------------------------------------------------

/// A default check-in with one immediate `act` action and one `shift` panel.
pub fn check_in(question: &str, act_label: &str, shift_label: &str) -> (c: CheckInCard)
    ensures
        check_in_matches(c, question@, act_label@, shift_label@),
{
    let act = single_action_group("行動", make_action("act", act_label, ActionKind::Immediate));
    let shift = single_action_group("ズラす", make_action("shift", shift_label, ActionKind::Panel));
    CheckInCard { question: string_of(question), act, shift, kind: CheckInKind::Default }
}

fn quote_title(title: &str, rest: &str) -> (r: String)
    ensures
        r@ == quoted(title@, rest@),
{
    let mut r = string_of("「");
    append_str(&mut r, title);
    append_str(&mut r, rest);
    r
}

fn task_ref(task: &EvaluationTask) -> (r: TaskRef)
    ensures
        task_ref_matches(Some(r), task_ref_of(*task)),
{
    TaskRef { task_id: string_of(task.id.as_str()), display_id: task.display_id }
}

/// All timestamps the evaluator renders lie in `jiff`'s range.
pub open spec fn snapshot_wf(s: EvaluationSnapshot) -> bool {
    &&& in_timestamp_range(s.now as int)
    &&& forall|i: int| 0 <= i < s.tasks@.len() ==> task_wf(#[trigger] s.tasks@[i])
    &&& forall|i: int| 0 <= i < s.gaps@.len() ==> in_timestamp_range((#[trigger] s.gaps@[i]).start_at as int)
    &&& forall|i: int| 0 <= i < s.coverage.unsettled_intervals@.len() ==> {
        &&& in_timestamp_range((#[trigger] s.coverage.unsettled_intervals@[i]).start_at as int)
        &&& in_timestamp_range(s.coverage.unsettled_intervals@[i].end_at as int)
    }
}

pub open spec fn task_wf(t: EvaluationTask) -> bool {
    &&& in_timestamp_range(t.deadline_at as int)
    &&& (t.scheduled_at matches Some(x) ==> in_timestamp_range(x as int))
}

fn task_start_event(s: &EvaluationSnapshot, task: &EvaluationTask, boundary: i64) -> (e: PlannerEvent)
    requires
        in_timestamp_range(boundary as int),
    ensures
        event_matches(e, start_model(*s, *task, boundary)),
{
    let id = event_id(PlannerEventKind::TaskStartTimeReached, Some(task.id.as_str()), s.schedule_revision, None, boundary, "start-time");
    let q = quote_title(task.title.as_str(), "」の開始時刻です");
    PlannerEvent {
        id,
        kind: PlannerEventKind::TaskStartTimeReached,
        task_ref: Some(task_ref(task)),
        band: None,
        presentation: Presentation::CheckIn(check_in(q.as_str(), "着手", "10分後にずらす")),
        urgency: Urgency::Normal,
        schedule_revision: s.schedule_revision,
        distribution_revision: None,
        due_at: boundary,
    }
}

fn non_start_event(s: &EvaluationSnapshot, task: &EvaluationTask, boundary: i64) -> (e: PlannerEvent)
    requires
        in_timestamp_range(boundary as int),
    ensures
        event_matches(e, non_start_model(*s, *task, boundary)),
{
    let id = event_id(PlannerEventKind::TaskNonStartContinued, Some(task.id.as_str()), s.schedule_revision, None, boundary, "non-start");
    let q = quote_title(task.title.as_str(), "」は開始時刻を過ぎています");
    PlannerEvent {
        id,
        kind: PlannerEventKind::TaskNonStartContinued,
        task_ref: Some(task_ref(task)),
        band: None,
        presentation: Presentation::CheckIn(check_in(q.as_str(), "今から着手", "10分後にずらす")),
        urgency: Urgency::Normal,
        schedule_revision: s.schedule_revision,
        distribution_revision: None,
        due_at: boundary,
    }
}

fn distribution_event(s: &EvaluationSnapshot, task: &EvaluationTask, work: &EvaluationWork, band: InterventionBand) -> (e: PlannerEvent)
    requires
        in_timestamp_range(s.now as int),
        task_wf(*task),
    ensures
        event_matches(e, distribution_model(*s, *task, *work, band)),
{
    let boundary = match task.scheduled_at {
        Some(x) => x,
        None => s.now,
    };
    let replan = band == InterventionBand::Replan;
    let q = if replan {
        quote_title(task.title.as_str(), "」のペースだと後ろが崩れそうです")
    } else {
        quote_title(task.title.as_str(), "」は予定より時間がかかっています")
    };
    let observation = if work.progress_band.is_some() {
        if replan { "progress:replan" } else { "progress:attention" }
    } else {
        if replan { "censored:replan" } else { "censored:attention" }
    };
    let id = event_id(
        PlannerEventKind::DistributionOverrun,
        Some(task.id.as_str()),
        s.schedule_revision,
        Some(work.distribution_revision),
        boundary,
        observation,
    );
    PlannerEvent {
        id,
        kind: PlannerEventKind::DistributionOverrun,
        task_ref: Some(task_ref(task)),
        band: Some(band),
        presentation: Presentation::CheckIn(check_in(q.as_str(), "進捗を記録", "組み直す")),
        urgency: if replan { Urgency::High } else { Urgency::Normal },
        schedule_revision: s.schedule_revision,
        distribution_revision: Some(work.distribution_revision),
        due_at: s.now,
    }
}

fn gap_event(s: &EvaluationSnapshot, gap: &EvaluationGap, boundary: i64) -> (e: PlannerEvent)
    requires
        in_timestamp_range(gap.start_at as int),
    ensures
        event_matches(e, gap_model(*s, *gap, boundary)),
{
    let identity: &str = match &gap.identity {
        Some(i) => i.as_str(),
        None => "",
    };
    proof {
        assert(identity@ == gap_identity(*gap)) by { reveal_strlit(""); }
    }
    let id = event_id(PlannerEventKind::UnclassifiedGapContinued, Some(identity), s.schedule_revision, None, gap.start_at, "gap");
    PlannerEvent {
        id,
        kind: PlannerEventKind::UnclassifiedGapContinued,
        task_ref: None,
        band: None,
        presentation: Presentation::CheckIn(check_in("予定に空白が続いています。今なにしてますか", "今回の活動を記録", "自由時間として残す")),
        urgency: Urgency::Normal,
        schedule_revision: s.schedule_revision,
        distribution_revision: None,
        due_at: boundary,
    }
}

fn deadline_event(s: &EvaluationSnapshot, task: &EvaluationTask) -> (e: PlannerEvent)
    requires
        task_wf(*task),
    ensures
        event_matches(e, deadline_model(*s, *task)),
{
    let id = event_id(PlannerEventKind::DeadlineViolation, Some(task.id.as_str()), s.schedule_revision, None, task.deadline_at, "deadline");
    let q = quote_title(task.title.as_str(), "」は期限に間に合わない見込みです");
    PlannerEvent {
        id,
        kind: PlannerEventKind::DeadlineViolation,
        task_ref: Some(task_ref(task)),
        band: Some(InterventionBand::Replan),
        presentation: Presentation::CheckIn(check_in(q.as_str(), "このまま続ける", "後ろの予定をずらす")),
        urgency: Urgency::High,
        schedule_revision: s.schedule_revision,
        distribution_revision: None,
        due_at: s.now,
    }
}

fn failure_event(s: &EvaluationSnapshot) -> (e: PlannerEvent)
    ensures
        event_matches(e, failure_model(*s)),
{
    let id = event_id(PlannerEventKind::ScheduleGenerationFailure, None, s.schedule_revision, None, 0, "unplaced");
    PlannerEvent {
        id,
        kind: PlannerEventKind::ScheduleGenerationFailure,
        task_ref: None,
        band: None,
        presentation: Presentation::ScheduleAlert(ScheduleAlert {
            kind: ScheduleAlertKind::GenerationFailure,
            message: string_of("スケジュールに配置できないタスクがあります。組み直しますか"),
        }),
        urgency: Urgency::High,
        schedule_revision: s.schedule_revision,
        distribution_revision: None,
        due_at: s.now,
    }
}

fn carry_event(s: &EvaluationSnapshot, task: &EvaluationTask) -> (e: PlannerEvent)
    requires
        in_timestamp_range(s.now as int),
        task_wf(*task),
    ensures
        event_matches(e, carry_model(*s, *task)),
{
    let boundary = match task.scheduled_at {
        Some(x) => x,
        None => s.now,
    };
    let id = event_id(PlannerEventKind::CarriedOverIncomplete, Some(task.id.as_str()), s.schedule_revision, None, boundary, "carry-over");
    let q = quote_title(task.title.as_str(), "」が未完了のまま残っています");
    PlannerEvent {
        id,
        kind: PlannerEventKind::CarriedOverIncomplete,
        task_ref: Some(task_ref(task)),
        band: None,
        presentation: Presentation::CheckIn(check_in(q.as_str(), "精算して組み直す", "そのまま今日にずらす")),
        urgency: Urgency::High,
        schedule_revision: s.schedule_revision,
        distribution_revision: None,
        due_at: s.now,
    }
}

fn sleep_event(s: &EvaluationSnapshot) -> (e: PlannerEvent)
    ensures
        event_matches(e, sleep_model(*s)),
{
    let id = event_id(PlannerEventKind::SleepImpact, None, s.schedule_revision, None, 0, "sleep");
    PlannerEvent {
        id,
        kind: PlannerEventKind::SleepImpact,
        task_ref: None,
        band: None,
        presentation: Presentation::ScheduleAlert(ScheduleAlert {
            kind: ScheduleAlertKind::Overdue,
            message: string_of("睡眠時間の影響でスケジュールの調整が必要です"),
        }),
        urgency: Urgency::High,
        schedule_revision: s.schedule_revision,
        distribution_revision: None,
        due_at: s.now,
    }
}

// ---------------------------------------------------------------------------
// Evaluation phases
// ---------------------------------------------------------------------------

/// Events gathered so far and the earliest known future boundary.
pub type Acc = (Seq<EventModel>, Option<i64>);

pub open spec fn committed(l: LedgerView, id: Seq<char>) -> bool {
    exists|k: int| 0 <= k < l.committed_event_ids@.len() && (#[trigger] l.committed_event_ids@[k])@ == id
}

/// `ev` with `m` appended, unless the ledger already committed its id.
pub open spec fn push_new(s: EvaluationSnapshot, ev: Seq<EventModel>, m: EventModel) -> Seq<EventModel> {
    if committed(s.ledger, m.id) { ev } else { ev.push(m) }
}

pub open spec fn is_terminal(status: TaskStatus) -> bool {
    status == TaskStatus::Completed || status == TaskStatus::Skipped
}

/// `t` moved by `secs` seconds; `t` itself when the result leaves the range
/// of representable timestamps.
pub open spec fn add_seconds_spec(t: i64, secs: i64) -> i64 {
    if in_timestamp_range(t + secs) { (t + secs) as i64 } else { t }
}

/// The earlier of the current boundary and `c`.
pub open spec fn earlier(cur: Option<i64>, c: i64) -> Option<i64> {
    match cur {
        Some(x) => Some(if c < x { c } else { x }),
        None => Some(c),
    }
}

/// Whether a work session is open for the task `id`.
pub open spec fn is_active(s: EvaluationSnapshot, id: Seq<char>) -> bool {
    exists|k: int| 0 <= k < s.work@.len() && (#[trigger] s.work@[k]).task_id@ == id
}

/// Index of the last task among the first `n` whose id is `id`.
pub open spec fn last_task_index(tasks: Seq<EvaluationTask>, id: Seq<char>, n: int) -> Option<int>
    decreases n,
{
    if n <= 0 {
        None
    } else if tasks[n - 1].id@ == id {
        Some(n - 1)
    } else {
        last_task_index(tasks, id, n - 1)
    }
}

/// Start-time and non-start handling of one task.
pub open spec fn start_step(s: EvaluationSnapshot, t: EvaluationTask, acc: Acc) -> Acc {
    let (ev, nx) = acc;
    if is_terminal(t.status) || t.scheduled_at is None {
        acc
    } else {
        let start = t.scheduled_at.unwrap();
        if start > s.now {
            (ev, earlier(nx, start))
        } else if t.status != TaskStatus::InProgress && !is_active(s, t.id@) {
            let grace = add_seconds_spec(start, (NON_START_GRACE_MINUTES * 60) as i64);
            if s.now < grace {
                (push_new(s, ev, start_model(s, t, start)), earlier(nx, grace))
            } else if !t.fixed {
                (push_new(s, ev, non_start_model(s, t, grace)), nx)
            } else {
                acc
            }
        } else {
            acc
        }
    }
}

pub open spec fn start_fold(s: EvaluationSnapshot, n: int) -> Acc
    decreases n,
{
    if n <= 0 {
        (Seq::empty(), None)
    } else {
        start_step(s, s.tasks@[n - 1], start_fold(s, n - 1))
    }
}

/// The band a work session is judged by.
pub open spec fn work_band(w: EvaluationWork) -> InterventionBand {
    match w.progress_band {
        Some(b) => b,
        None => w.distribution_band,
    }
}

/// Distribution, crossing and deadline handling of one work session.
pub open spec fn work_step(s: EvaluationSnapshot, w: EvaluationWork, acc: Acc) -> Acc {
    let (ev, nx) = acc;
    match last_task_index(s.tasks@, w.task_id@, s.tasks@.len() as int) {
        None => acc,
        Some(k) => {
            let t = s.tasks@[k];
            if t.fixed || is_terminal(t.status) {
                acc
            } else {
                let band = work_band(w);
                let ev1 = if band != InterventionBand::Usual {
                    push_new(s, ev, distribution_model(s, t, w, band))
                } else {
                    ev
                };
                let nx1 = match w.crossing_in_seconds {
                    Some(c) => earlier(nx, add_seconds_spec(s.now, c)),
                    None => nx,
                };
                let ev2 = if add_seconds_spec(s.now, w.remaining_seconds) > t.deadline_at {
                    push_new(s, ev1, deadline_model(s, t))
                } else {
                    ev1
                };
                (ev2, nx1)
            }
        },
    }
}

pub open spec fn work_fold(s: EvaluationSnapshot, n: int, acc: Acc) -> Acc
    decreases n,
{
    if n <= 0 {
        acc
    } else {
        work_step(s, s.work@[n - 1], work_fold(s, n - 1, acc))
    }
}

/// Unclassified-gap handling of one gap.
pub open spec fn gap_step(s: EvaluationSnapshot, g: EvaluationGap, acc: Acc) -> Acc {
    let (ev, nx) = acc;
    if g.kind != GapKind::Unclassified || g.start_at > s.now || g.end_at <= s.now {
        acc
    } else {
        let threshold = add_seconds_spec(g.start_at, (UNCLASSIFIED_GAP_THRESHOLD_MINUTES * 60) as i64);
        if threshold > s.now {
            (ev, earlier(nx, threshold))
        } else {
            (push_new(s, ev, gap_model(s, g, threshold)), nx)
        }
    }
}

pub open spec fn gap_fold(s: EvaluationSnapshot, n: int, acc: Acc) -> Acc
    decreases n,
{
    if n <= 0 {
        acc
    } else {
        gap_step(s, s.gaps@[n - 1], gap_fold(s, n - 1, acc))
    }
}

/// Whether an unfinished task was scheduled a day or more ago.
pub open spec fn is_carried_over(s: EvaluationSnapshot, t: EvaluationTask) -> bool {
    &&& !is_terminal(t.status)
    &&& t.scheduled_at matches Some(x)
    &&& x < s.now
    &&& s.now - x >= CARRY_OVER_SECONDS
}

pub open spec fn carry_fold(s: EvaluationSnapshot, n: int, ev: Seq<EventModel>) -> Seq<EventModel>
    decreases n,
{
    if n <= 0 {
        ev
    } else {
        let prev = carry_fold(s, n - 1, ev);
        let t = s.tasks@[n - 1];
        if is_carried_over(s, t) { push_new(s, prev, carry_model(s, t)) } else { prev }
    }
}

pub open spec fn after_starts(s: EvaluationSnapshot) -> Acc {
    start_fold(s, s.tasks@.len() as int)
}

pub open spec fn after_work(s: EvaluationSnapshot) -> Acc {
    work_fold(s, s.work@.len() as int, after_starts(s))
}

pub open spec fn after_gaps(s: EvaluationSnapshot) -> Acc {
    gap_fold(s, s.gaps@.len() as int, after_work(s))
}

pub open spec fn after_failure(s: EvaluationSnapshot) -> Seq<EventModel> {
    if s.unplaced_task_ids@.len() > 0 {
        push_new(s, after_gaps(s).0, failure_model(s))
    } else {
        after_gaps(s).0
    }
}

/// Every event the evaluator raises before ordering, in discovery order.
pub open spec fn candidate_events(s: EvaluationSnapshot) -> Seq<EventModel> {
    let carried = carry_fold(s, s.tasks@.len() as int, after_failure(s));
    if s.sleep_impact matches Some(i) && i.detected {
        push_new(s, carried, sleep_model(s))
    } else {
        carried
    }
}

/// The earliest boundary at which evaluation must run again.
pub open spec fn expected_next(s: EvaluationSnapshot) -> Option<i64> {
    after_gaps(s).1
}

fn is_committed(ledger: &LedgerView, id: &String) -> (r: bool)
    ensures
        r == committed(*ledger, id@),
{
    let mut k: usize = 0;
    while k < ledger.committed_event_ids.len()
        invariant
            k <= ledger.committed_event_ids@.len(),
            forall|j: int| 0 <= j < k ==> (#[trigger] ledger.committed_event_ids@[j])@ != id@,
        decreases ledger.committed_event_ids@.len() - k,
    {
        if ledger.committed_event_ids[k] == *id {
            return true;
        }
        k += 1;
    }
    false
}

fn push_if_new(events: &mut Vec<PlannerEvent>, ledger: &LedgerView, event: PlannerEvent)
    ensures
        committed(*ledger, event.id@) ==> final(events)@ == old(events)@,
        !committed(*ledger, event.id@) ==> final(events)@ == old(events)@.push(event),
{
    if !is_committed(ledger, &event.id) {
        events.push(event);
    }
}

proof fn lemma_push_matches(s: EvaluationSnapshot, es: Seq<PlannerEvent>, ms: Seq<EventModel>, e: PlannerEvent, m: EventModel)
    requires
        events_match(es, ms),
        event_matches(e, m),
    ensures
        events_match(if committed(s.ledger, e.id@) { es } else { es.push(e) }, push_new(s, ms, m)),
{
    if !committed(s.ledger, e.id@) {
        assert forall|i: int| 0 <= i < es.push(e).len() implies event_matches(#[trigger] es.push(e)[i], ms.push(m)[i]) by {
            if i < es.len() {
                assert(event_matches(es[i], ms[i]));
            }
        }
    }
}

fn add_seconds(t: i64, secs: i64) -> (r: i64)
    ensures
        r == add_seconds_spec(t, secs),
{
    let sum: i128 = t as i128 + secs as i128;
    if -377705023201i128 <= sum && sum <= 253402207200i128 {
        sum as i64
    } else {
        t
    }
}

fn earlier_of(cur: Option<i64>, c: i64) -> (r: Option<i64>)
    ensures
        r == earlier(cur, c),
{
    match cur {
        Some(x) => Some(if c < x { c } else { x }),
        None => Some(c),
    }
}

fn task_is_terminal(status: TaskStatus) -> (r: bool)
    ensures
        r == is_terminal(status),
{
    matches!(status, TaskStatus::Completed | TaskStatus::Skipped)
}

fn has_active_work(s: &EvaluationSnapshot, id: &String) -> (r: bool)
    ensures
        r == is_active(*s, id@),
{
    let mut k: usize = 0;
    while k < s.work.len()
        invariant
            k <= s.work@.len(),
            forall|j: int| 0 <= j < k ==> (#[trigger] s.work@[j]).task_id@ != id@,
        decreases s.work@.len() - k,
    {
        if s.work[k].task_id == *id {
            return true;
        }
        k += 1;
    }
    false
}

fn find_task(s: &EvaluationSnapshot, id: &String) -> (r: Option<usize>)
    ensures
        match r {
            Some(k) => k < s.tasks@.len() && last_task_index(s.tasks@, id@, s.tasks@.len() as int) == Some(k as int),
            None => last_task_index(s.tasks@, id@, s.tasks@.len() as int) is None,
        },
{
    let mut n: usize = s.tasks.len();
    while n > 0
        invariant
            n <= s.tasks@.len(),
            last_task_index(s.tasks@, id@, s.tasks@.len() as int) == last_task_index(s.tasks@, id@, n as int),
        decreases n,
    {
        if s.tasks[n - 1].id == *id {
            return Some(n - 1);
        }
        n -= 1;
    }
    None
}

fn start_phase(s: &EvaluationSnapshot, events: &mut Vec<PlannerEvent>, next: &mut Option<i64>)
    requires
        snapshot_wf(*s),
        old(events)@.len() == 0,
        *old(next) is None,
    ensures
        events_match(final(events)@, after_starts(*s).0),
        *final(next) == after_starts(*s).1,
{
    let mut i: usize = 0;
    while i < s.tasks.len()
        invariant
            snapshot_wf(*s),
            i <= s.tasks@.len(),
            events_match(events@, start_fold(*s, i as int).0),
            *next == start_fold(*s, i as int).1,
        decreases s.tasks@.len() - i,
    {
        let task = &s.tasks[i];
        assert(task_wf(s.tasks@[i as int]));
        let ghost acc = start_fold(*s, i as int);
        if !task_is_terminal(task.status) {
            if let Some(start_at) = task.scheduled_at {
                if start_at > s.now {
                    *next = earlier_of(*next, start_at);
                } else if task.status != TaskStatus::InProgress && !has_active_work(s, &task.id) {
                    let grace_at = add_seconds(start_at, NON_START_GRACE_MINUTES * 60);
                    if s.now < grace_at {
                        let e = task_start_event(s, task, start_at);
                        proof { lemma_push_matches(*s, events@, acc.0, e, start_model(*s, *task, start_at)); }
                        push_if_new(events, &s.ledger, e);
                        *next = earlier_of(*next, grace_at);
                    } else if !task.fixed {
                        let e = non_start_event(s, task, grace_at);
                        proof { lemma_push_matches(*s, events@, acc.0, e, non_start_model(*s, *task, grace_at)); }
                        push_if_new(events, &s.ledger, e);
                    }
                }
            }
        }
        i += 1;
    }
}

fn work_phase(s: &EvaluationSnapshot, events: &mut Vec<PlannerEvent>, next: &mut Option<i64>)
    requires
        snapshot_wf(*s),
        events_match(old(events)@, after_starts(*s).0),
        *old(next) == after_starts(*s).1,
    ensures
        events_match(final(events)@, after_work(*s).0),
        *final(next) == after_work(*s).1,
{
    let mut i: usize = 0;
    while i < s.work.len()
        invariant
            snapshot_wf(*s),
            i <= s.work@.len(),
            events_match(events@, work_fold(*s, i as int, after_starts(*s)).0),
            *next == work_fold(*s, i as int, after_starts(*s)).1,
        decreases s.work@.len() - i,
    {
        let work = &s.work[i];
        let ghost acc = work_fold(*s, i as int, after_starts(*s));
        assert(work_fold(*s, i as int + 1, after_starts(*s)) == work_step(*s, s.work@[i as int], acc));
        if let Some(k) = find_task(s, &work.task_id) {
            let task = &s.tasks[k];
            assert(task_wf(s.tasks@[k as int]));
            if !task.fixed && !task_is_terminal(task.status) {
                let band = match work.progress_band {
                    Some(b) => b,
                    None => work.distribution_band,
                };
                let ghost ev1 = if band != InterventionBand::Usual {
                    push_new(*s, acc.0, distribution_model(*s, *task, *work, band))
                } else {
                    acc.0
                };
                if band.is_intervention() {
                    let e = distribution_event(s, task, work, band);
                    proof { lemma_push_matches(*s, events@, acc.0, e, distribution_model(*s, *task, *work, band)); }
                    push_if_new(events, &s.ledger, e);
                }
                if let Some(c) = work.crossing_in_seconds {
                    let at = add_seconds(s.now, c);
                    *next = earlier_of(*next, at);
                }
                let predicted_end = add_seconds(s.now, work.remaining_seconds);
                if predicted_end > task.deadline_at {
                    let e = deadline_event(s, task);
                    proof { lemma_push_matches(*s, events@, ev1, e, deadline_model(*s, *task)); }
                    push_if_new(events, &s.ledger, e);
                }
            }
        }
        i += 1;
    }
}

fn gap_phase(s: &EvaluationSnapshot, events: &mut Vec<PlannerEvent>, next: &mut Option<i64>)
    requires
        snapshot_wf(*s),
        events_match(old(events)@, after_work(*s).0),
        *old(next) == after_work(*s).1,
    ensures
        events_match(final(events)@, after_gaps(*s).0),
        *final(next) == after_gaps(*s).1,
{
    let mut i: usize = 0;
    while i < s.gaps.len()
        invariant
            snapshot_wf(*s),
            i <= s.gaps@.len(),
            events_match(events@, gap_fold(*s, i as int, after_work(*s)).0),
            *next == gap_fold(*s, i as int, after_work(*s)).1,
        decreases s.gaps@.len() - i,
    {
        let gap = &s.gaps[i];
        assert(in_timestamp_range(s.gaps@[i as int].start_at as int));
        let ghost acc = gap_fold(*s, i as int, after_work(*s));
        if gap.kind == GapKind::Unclassified && gap.start_at <= s.now && gap.end_at > s.now {
            let threshold_at = add_seconds(gap.start_at, UNCLASSIFIED_GAP_THRESHOLD_MINUTES * 60);
            if threshold_at > s.now {
                *next = earlier_of(*next, threshold_at);
            } else {
                let e = gap_event(s, gap, threshold_at);
                proof { lemma_push_matches(*s, events@, acc.0, e, gap_model(*s, *gap, threshold_at)); }
                push_if_new(events, &s.ledger, e);
            }
        }
        i += 1;
    }
}

fn carry_phase(s: &EvaluationSnapshot, events: &mut Vec<PlannerEvent>)
    requires
        snapshot_wf(*s),
        events_match(old(events)@, after_failure(*s)),
    ensures
        events_match(final(events)@, carry_fold(*s, s.tasks@.len() as int, after_failure(*s))),
{
    let mut i: usize = 0;
    while i < s.tasks.len()
        invariant
            snapshot_wf(*s),
            i <= s.tasks@.len(),
            events_match(events@, carry_fold(*s, i as int, after_failure(*s))),
        decreases s.tasks@.len() - i,
    {
        let task = &s.tasks[i];
        assert(task_wf(s.tasks@[i as int]));
        let ghost prev = carry_fold(*s, i as int, after_failure(*s));
        if !task_is_terminal(task.status) {
            if let Some(x) = task.scheduled_at {
                if x < s.now && s.now - x >= CARRY_OVER_SECONDS {
                    let e = carry_event(s, task);
                    proof { lemma_push_matches(*s, events@, prev, e, carry_model(*s, *task)); }
                    push_if_new(events, &s.ledger, e);
                }
            }
        }
        i += 1;
    }
}

// ---------------------------------------------------------------------------
// Ordering by id
// ---------------------------------------------------------------------------

/// Whether `a[i..]` orders after `b[i..]`, comparing code points (which is
/// how `String`'s order compares UTF-8 bytes).
pub open spec fn id_gt_from(a: Seq<char>, b: Seq<char>, i: int) -> bool
    decreases a.len() - i,
{
    if i < 0 || i >= a.len() {
        false
    } else if i >= b.len() {
        true
    } else if a[i] != b[i] {
        (a[i] as u32) > (b[i] as u32)
    } else {
        id_gt_from(a, b, i + 1)
    }
}

pub open spec fn id_gt(a: Seq<char>, b: Seq<char>) -> bool {
    id_gt_from(a, b, 0)
}

pub open spec fn model_ids(ms: Seq<EventModel>) -> Seq<Seq<char>> {
    ms.map_values(|m: EventModel| m.id)
}

/// Where a stable insertion puts the key `k` into `order`: after every entry
/// whose key does not order after `k`.
pub open spec fn insert_pos(keys: Seq<Seq<char>>, order: Seq<int>, k: Seq<char>) -> int
    decreases order.len(),
{
    if order.len() == 0 || !id_gt(keys[order.last()], k) {
        order.len() as int
    } else {
        insert_pos(keys, order.drop_last(), k)
    }
}

/// The stable order of the first `n` keys, as indices.
pub open spec fn sort_order(keys: Seq<Seq<char>>, n: int) -> Seq<int>
    decreases n,
{
    if n <= 0 {
        Seq::empty()
    } else {
        let o = sort_order(keys, n - 1);
        o.insert(insert_pos(keys, o, keys[n - 1]), n - 1)
    }
}

/// The models stably sorted by id.
pub open spec fn sorted_models(ms: Seq<EventModel>) -> Seq<EventModel> {
    sort_order(model_ids(ms), ms.len() as int).map_values(|k: int| ms[k])
}

proof fn lemma_insert_pos_bounds(keys: Seq<Seq<char>>, order: Seq<int>, k: Seq<char>)
    ensures
        0 <= insert_pos(keys, order, k) <= order.len(),
    decreases order.len(),
{
    if order.len() > 0 && id_gt(keys[order.last()], k) {
        lemma_insert_pos_bounds(keys, order.drop_last(), k);
    }
}

proof fn lemma_sort_order_shape(keys: Seq<Seq<char>>, n: int)
    requires
        0 <= n,
    ensures
        sort_order(keys, n).len() == n,
        forall|j: int| 0 <= j < n ==> 0 <= #[trigger] sort_order(keys, n)[j] < n,
    decreases n,
{
    if n > 0 {
        lemma_sort_order_shape(keys, n - 1);
        let o = sort_order(keys, n - 1);
        lemma_insert_pos_bounds(keys, o, keys[n - 1]);
        let p = insert_pos(keys, o, keys[n - 1]);
        assert forall|j: int| 0 <= j < n implies 0 <= #[trigger] sort_order(keys, n)[j] < n by {
            if j < p {
                assert(sort_order(keys, n)[j] == o[j]);
            } else if j > p {
                assert(sort_order(keys, n)[j] == o[j - 1]);
            }
        }
    }
}

/// Whether the index `k` occurs in `o`.
pub open spec fn placed(o: Seq<int>, k: int) -> bool {
    exists|j: int| 0 <= j < o.len() && o[j] == k
}

proof fn lemma_sort_is_permutation(keys: Seq<Seq<char>>, n: int)
    requires
        0 <= n,
    ensures
        forall|k: int| 0 <= k < n ==> #[trigger] placed(sort_order(keys, n), k),
    decreases n,
{
    if n > 0 {
        lemma_sort_is_permutation(keys, n - 1);
        lemma_sort_order_shape(keys, n - 1);
        let o = sort_order(keys, n - 1);
        lemma_insert_pos_bounds(keys, o, keys[n - 1]);
        let p = insert_pos(keys, o, keys[n - 1]);
        let so = sort_order(keys, n);
        assert(so == o.insert(p, n - 1));
        assert forall|k: int| 0 <= k < n implies #[trigger] placed(so, k) by {
            if k == n - 1 {
                assert(so[p] == k);
            } else {
                assert(placed(o, k));
                let j = choose|j: int| 0 <= j < o.len() && o[j] == k;
                if j < p {
                    assert(so[j] == k);
                } else {
                    assert(so[j + 1] == k);
                }
            }
        }
    }
}

pub(crate) fn id_greater(a: &String, b: &String) -> (r: bool)
    ensures
        r == id_gt(a@, b@),
{
    let x = crate::text::chars_of(a.as_str());
    let y = crate::text::chars_of(b.as_str());
    let mut i: usize = 0;
    while i < x.len()
        invariant
            x@ == a@,
            y@ == b@,
            i <= x@.len(),
            id_gt(a@, b@) == id_gt_from(a@, b@, i as int),
        decreases x@.len() - i,
    {
        if i >= y.len() {
            return true;
        }
        if x[i] != y[i] {
            return (x[i] as u32) > (y[i] as u32);
        }
        i += 1;
    }
    false
}

fn sort_events(events: Vec<PlannerEvent>, Ghost(ms): Ghost<Seq<EventModel>>) -> (out: Vec<PlannerEvent>)
    requires
        events_match(events@, ms),
    ensures
        events_match(out@, sorted_models(ms)),
{
    let ghost orig = events@;
    let ghost keys = model_ids(ms);
    let n = events.len();
    let mut src = events;
    let mut out: Vec<PlannerEvent> = Vec::new();
    let ghost mut order: Seq<int> = Seq::empty();
    let mut i: usize = 0;
    while i < n
        invariant
            n == orig.len(),
            events_match(orig, ms),
            keys == model_ids(ms),
            i <= n,
            src@ == orig.subrange(i as int, n as int),
            order == sort_order(keys, i as int),
            out@.len() == order.len(),
            forall|j: int| 0 <= j < order.len() ==> 0 <= #[trigger] order[j] < i,
            forall|j: int| 0 <= j < order.len() ==> out@[j] == orig[#[trigger] order[j]],
        decreases n - i,
    {
        proof { lemma_sort_order_shape(keys, i as int); }
        let e = src.remove(0);
        assert(e == orig[i as int]);
        assert(event_matches(orig[i as int], ms[i as int]));
        assert(e.id@ == keys[i as int]);
        let mut j: usize = out.len();
        assert(order.subrange(0, j as int) =~= order);
        while j > 0 && id_greater(&out[j - 1].id, &e.id)
            invariant
                j <= out@.len(),
                out@.len() == order.len(),
                events_match(orig, ms),
                keys == model_ids(ms),
                forall|m: int| 0 <= m < order.len() ==> 0 <= #[trigger] order[m] < i,
                forall|m: int| 0 <= m < order.len() ==> out@[m] == orig[#[trigger] order[m]],
                i < n,
                n == orig.len(),
                e.id@ == keys[i as int],
                insert_pos(keys, order, keys[i as int]) == insert_pos(keys, order.subrange(0, j as int), keys[i as int]),
            decreases j,
        {
            proof {
                let k = order[j - 1];
                assert(event_matches(orig[k], ms[k]));
                assert(out@[j - 1].id@ == keys[k]);
                assert(order.subrange(0, j as int).drop_last() =~= order.subrange(0, j - 1));
            }
            j -= 1;
        }
        proof {
            if j > 0 {
                let k = order[j - 1];
                assert(event_matches(orig[k], ms[k]));
                assert(out@[j - 1].id@ == keys[k]);
            }
            assert(order.subrange(0, j as int).len() == j);
        }
        let ghost old_out = out@;
        out.insert(j, e);
        proof {
            order = order.insert(j as int, i as int);
            assert forall|m: int| 0 <= m < order.len() implies out@[m] == orig[#[trigger] order[m]] by {
                if m < j {
                    assert(out@[m] == old_out[m]);
                } else if m > j {
                    assert(out@[m] == old_out[m - 1]);
                }
            }
        }
        i += 1;
        proof {
            assert(src@ =~= orig.subrange(i as int, n as int));
        }
    }
    proof {
        lemma_sort_order_shape(keys, n as int);
        let sm = sorted_models(ms);
        assert forall|j: int| 0 <= j < out@.len() implies event_matches(#[trigger] out@[j], sm[j]) by {
            let k = order[j];
            assert(event_matches(orig[k], ms[k]));
        }
    }
    out
}

// ---------------------------------------------------------------------------
// The current task
// ---------------------------------------------------------------------------

/// Selection priority of a task for the current-task card: in progress
/// first, then already started by schedule, then the rest.
pub open spec fn task_priority(t: EvaluationTask, now: i64) -> int {
    if t.status == TaskStatus::InProgress {
        0
    } else if t.scheduled_at matches Some(x) && x <= now {
        1
    } else {
        2
    }
}

pub open spec fn key_less(a: EvaluationTask, b: EvaluationTask, now: i64) -> bool {
    let pa = task_priority(a, now);
    let pb = task_priority(b, now);
    pa < pb || (pa == pb && opt_or(a.scheduled_at, now) < opt_or(b.scheduled_at, now))
}

/// Index of the first non-terminal task with the least
/// (priority, scheduled time) among the first `n`.
pub open spec fn current_index(tasks: Seq<EvaluationTask>, now: i64, n: int) -> Option<int>
    decreases n,
{
    if n <= 0 {
        None
    } else {
        let prev = current_index(tasks, now, n - 1);
        let t = tasks[n - 1];
        if is_terminal(t.status) {
            prev
        } else {
            match prev {
                None => Some(n - 1),
                Some(k) => if key_less(t, tasks[k], now) { Some(n - 1) } else { prev },
            }
        }
    }
}

/// The unsettled interval a settlement prompt asks about, when coverage is
/// stale.
pub open spec fn settlement_of(s: EvaluationSnapshot) -> Option<(i64, i64)> {
    if s.coverage.state != CoverageState::Stale || s.coverage.unsettled_intervals@.len() == 0 {
        None
    } else {
        Some((s.coverage.unsettled_intervals@[0].start_at, s.coverage.unsettled_intervals@[0].end_at))
    }
}

pub open spec fn work_state_of(t: EvaluationTask, now: i64) -> WorkState {
    if t.status == TaskStatus::InProgress {
        WorkState::InProgress
    } else if t.deadline_at < now {
        WorkState::Overdue
    } else {
        WorkState::NotStarted
    }
}

pub open spec fn current_model(s: EvaluationSnapshot, t: EvaluationTask) -> EventModel {
    EventModel {
        id: event_id_text(PlannerEventKind::CurrentTask, t.id@, s.schedule_revision, None, s.now, "current"@),
        kind: PlannerEventKind::CurrentTask,
        task_ref: task_ref_of(t),
        band: None,
        presentation: PresentationModel::Card {
            title: t.title@,
            display_id: t.display_id,
            start_at: opt_or(t.scheduled_at, s.now),
            deadline_at: t.deadline_at,
            work_state: work_state_of(t, s.now),
            authority: authority_of(s.coverage.state),
            settlement: settlement_of(s),
        },
        urgency: Urgency::Normal,
        schedule_revision: s.schedule_revision,
        distribution_revision: None,
        due_at: s.now,
    }
}

/// The current-task event, when a non-terminal task exists.
pub open spec fn current_event(s: EvaluationSnapshot) -> Option<EventModel> {
    match current_index(s.tasks@, s.now, s.tasks@.len() as int) {
        Some(k) => Some(current_model(s, s.tasks@[k])),
        None => None,
    }
}

/// The events an evaluation returns: the new candidates ordered by id, then
/// the current-task card when it is new.
pub open spec fn expected_events(s: EvaluationSnapshot) -> Seq<EventModel> {
    let sorted = sorted_models(candidate_events(s));
    match current_event(s) {
        Some(m) => push_new(s, sorted, m),
        None => sorted,
    }
}

fn task_key_less(a: &EvaluationTask, b: &EvaluationTask, now: i64) -> (r: bool)
    ensures
        r == key_less(*a, *b, now),
{
    let pa: u8 = if a.status == TaskStatus::InProgress {
        0
    } else if a.scheduled_at.is_some() && a.scheduled_at.unwrap() <= now {
        1
    } else {
        2
    };
    let pb: u8 = if b.status == TaskStatus::InProgress {
        0
    } else if b.scheduled_at.is_some() && b.scheduled_at.unwrap() <= now {
        1
    } else {
        2
    };
    let ta = match a.scheduled_at {
        Some(x) => x,
        None => now,
    };
    let tb = match b.scheduled_at {
        Some(x) => x,
        None => now,
    };
    pa < pb || (pa == pb && ta < tb)
}

fn find_current(s: &EvaluationSnapshot) -> (r: Option<usize>)
    ensures
        match r {
            Some(k) => k < s.tasks@.len() && current_index(s.tasks@, s.now, s.tasks@.len() as int) == Some(k as int),
            None => current_index(s.tasks@, s.now, s.tasks@.len() as int) is None,
        },
{
    let mut best: Option<usize> = None;
    let mut i: usize = 0;
    while i < s.tasks.len()
        invariant
            i <= s.tasks@.len(),
            match best {
                Some(k) => k < i && current_index(s.tasks@, s.now, i as int) == Some(k as int),
                None => current_index(s.tasks@, s.now, i as int) is None,
            },
        decreases s.tasks@.len() - i,
    {
        let t = &s.tasks[i];
        if !task_is_terminal(t.status) {
            match best {
                None => { best = Some(i); },
                Some(k) => {
                    if task_key_less(t, &s.tasks[k], s.now) {
                        best = Some(i);
                    }
                },
            }
        }
        i += 1;
    }
    best
}

fn settlement_prompt(s: &EvaluationSnapshot) -> (r: Option<SettlementPrompt>)
    requires
        snapshot_wf(*s),
    ensures
        settlement_matches(r, settlement_of(*s)),
{
    if s.coverage.state != CoverageState::Stale || s.coverage.unsettled_intervals.len() == 0 {
        return None;
    }
    let interval = &s.coverage.unsettled_intervals[0];
    assert(in_timestamp_range(s.coverage.unsettled_intervals@[0].start_at as int));
    let mut question = timestamp_to_string(interval.start_at);
    append_str(&mut question, "〜");
    let end = timestamp_to_string(interval.end_at);
    append_str(&mut question, end.as_str());
    append_str(&mut question, " の未確定時間を整理してください");
    let act = single_action_group("行動", make_action("settle-start", "この時間で作業", ActionKind::Immediate));
    let shift = single_action_group("ズラす", make_action("settle-ignore", "後で決める", ActionKind::Panel));
    Some(SettlementPrompt { question, act, shift })
}

fn current_task_event(s: &EvaluationSnapshot) -> (r: Option<PlannerEvent>)
    requires
        snapshot_wf(*s),
    ensures
        match (r, current_event(*s)) {
            (Some(e), Some(m)) => event_matches(e, m),
            (None, None) => true,
            _ => false,
        },
{
    let k = match find_current(s) {
        Some(k) => k,
        None => return None,
    };
    let candidate = &s.tasks[k];
    assert(task_wf(s.tasks@[k as int]));
    let authority = task_authority(s.coverage.state);
    let settlement = settlement_prompt(s);
    let work_state = if candidate.status == TaskStatus::InProgress {
        WorkState::InProgress
    } else if candidate.deadline_at < s.now {
        WorkState::Overdue
    } else {
        WorkState::NotStarted
    };
    let start = match candidate.scheduled_at {
        Some(x) => x,
        None => s.now,
    };
    let start_at = timestamp_to_string(start);
    let end_at = timestamp_to_string(candidate.deadline_at);
    let id = event_id(PlannerEventKind::CurrentTask, Some(candidate.id.as_str()), s.schedule_revision, None, s.now, "current");
    let mut reference = string_of("#");
    let digits = i64_to_string(candidate.display_id);
    append_str(&mut reference, digits.as_str());
    let presentation = Presentation::CurrentTask(TaskCard {
        title: string_of(candidate.title.as_str()),
        reference,
        start_at: Some(start_at),
        end_at: Some(end_at),
        work_state,
        authority,
        next_task: None,
        settlement,
    });
    Some(PlannerEvent {
        id,
        kind: PlannerEventKind::CurrentTask,
        task_ref: Some(task_ref(candidate)),
        band: None,
        presentation,
        urgency: Urgency::Normal,
        schedule_revision: s.schedule_revision,
        distribution_revision: None,
        due_at: s.now,
    })
}

/// Evaluate planner events from a consistent snapshot.
///
/// The due events are the candidates that the ledger has not committed,
/// ordered by id, followed by the current-task card when it is new; the
/// next evaluation time is the earliest future start, grace or gap threshold
/// and band crossing that was seen.
pub fn evaluate_events(snapshot: &EvaluationSnapshot) -> (r: EvaluationResult)
    requires
        snapshot_wf(*snapshot),
    ensures
        events_match(r.due_events@, expected_events(*snapshot)),
        r.next_eval_at == expected_next(*snapshot),
{
    let s = snapshot;
    let mut events: Vec<PlannerEvent> = Vec::new();
    let mut next_eval_at: Option<i64> = None;
    start_phase(s, &mut events, &mut next_eval_at);
    work_phase(s, &mut events, &mut next_eval_at);
    gap_phase(s, &mut events, &mut next_eval_at);
    if s.unplaced_task_ids.len() > 0 {
        let e = failure_event(s);
        proof { lemma_push_matches(*s, events@, after_gaps(*s).0, e, failure_model(*s)); }
        push_if_new(&mut events, &s.ledger, e);
    }
    carry_phase(s, &mut events);
    let ghost carried = carry_fold(*s, s.tasks@.len() as int, after_failure(*s));
    if s.sleep_impact.is_some() && s.sleep_impact.unwrap().detected {
        let e = sleep_event(s);
        proof { lemma_push_matches(*s, events@, carried, e, sleep_model(*s)); }
        push_if_new(&mut events, &s.ledger, e);
    }
    let mut sorted = sort_events(events, Ghost(candidate_events(*s)));
    let current = current_task_event(s);
    match current {
        Some(e) => {
            proof {
                let m = current_event(*s).unwrap();
                lemma_push_matches(*s, sorted@, sorted_models(candidate_events(*s)), e, m);
            }
            push_if_new(&mut sorted, &s.ledger, e);
        },
        None => {},
    }
    EvaluationResult { due_events: sorted, next_eval_at }
}

// ---------------------------------------------------------------------------
// Laws
// ---------------------------------------------------------------------------

pub open spec fn all_new(s: EvaluationSnapshot, ms: Seq<EventModel>) -> bool {
    forall|i: int| 0 <= i < ms.len() ==> !committed(s.ledger, (#[trigger] ms[i]).id)
}

proof fn lemma_push_new_keeps_new(s: EvaluationSnapshot, ms: Seq<EventModel>, m: EventModel)
    requires
        all_new(s, ms),
    ensures
        all_new(s, push_new(s, ms, m)),
{
    if !committed(s.ledger, m.id) {
        assert forall|i: int| 0 <= i < ms.push(m).len() implies !committed(s.ledger, (#[trigger] ms.push(m)[i]).id) by {
            if i < ms.len() {
                assert(ms.push(m)[i] == ms[i]);
            }
        }
    }
}

proof fn lemma_start_fold_new(s: EvaluationSnapshot, n: int)
    ensures
        all_new(s, start_fold(s, n).0),
    decreases n,
{
    if n > 0 {
        lemma_start_fold_new(s, n - 1);
        let acc = start_fold(s, n - 1);
        let t = s.tasks@[n - 1];
        if !(is_terminal(t.status) || t.scheduled_at is None) {
            let start = t.scheduled_at.unwrap();
            let grace = add_seconds_spec(start, (NON_START_GRACE_MINUTES * 60) as i64);
            lemma_push_new_keeps_new(s, acc.0, start_model(s, t, start));
            lemma_push_new_keeps_new(s, acc.0, non_start_model(s, t, grace));
        }
    }
}

proof fn lemma_work_fold_new(s: EvaluationSnapshot, n: int, acc: Acc)
    requires
        all_new(s, acc.0),
    ensures
        all_new(s, work_fold(s, n, acc).0),
    decreases n,
{
    if n > 0 {
        lemma_work_fold_new(s, n - 1, acc);
        let prev = work_fold(s, n - 1, acc);
        let w = s.work@[n - 1];
        match last_task_index(s.tasks@, w.task_id@, s.tasks@.len() as int) {
            None => {},
            Some(k) => {
                let t = s.tasks@[k];
                let band = work_band(w);
                lemma_push_new_keeps_new(s, prev.0, distribution_model(s, t, w, band));
                let ev1 = if band != InterventionBand::Usual {
                    push_new(s, prev.0, distribution_model(s, t, w, band))
                } else {
                    prev.0
                };
                lemma_push_new_keeps_new(s, ev1, deadline_model(s, t));
            },
        }
    }
}

proof fn lemma_gap_fold_new(s: EvaluationSnapshot, n: int, acc: Acc)
    requires
        all_new(s, acc.0),
    ensures
        all_new(s, gap_fold(s, n, acc).0),
    decreases n,
{
    if n > 0 {
        lemma_gap_fold_new(s, n - 1, acc);
        let prev = gap_fold(s, n - 1, acc);
        let g = s.gaps@[n - 1];
        let threshold = add_seconds_spec(g.start_at, (UNCLASSIFIED_GAP_THRESHOLD_MINUTES * 60) as i64);
        lemma_push_new_keeps_new(s, prev.0, gap_model(s, g, threshold));
    }
}

proof fn lemma_carry_fold_new(s: EvaluationSnapshot, n: int, ev: Seq<EventModel>)
    requires
        all_new(s, ev),
    ensures
        all_new(s, carry_fold(s, n, ev)),
    decreases n,
{
    if n > 0 {
        lemma_carry_fold_new(s, n - 1, ev);
        lemma_push_new_keeps_new(s, carry_fold(s, n - 1, ev), carry_model(s, s.tasks@[n - 1]));
    }
}

/// An evaluation never returns an event whose id the ledger has already
/// committed: a committed event is not emitted again.
pub proof fn lemma_committed_events_are_not_emitted(s: EvaluationSnapshot)
    ensures
        forall|i: int| 0 <= i < expected_events(s).len() ==> !committed(s.ledger, (#[trigger] expected_events(s)[i]).id),
{
    lemma_start_fold_new(s, s.tasks@.len() as int);
    lemma_work_fold_new(s, s.work@.len() as int, after_starts(s));
    lemma_gap_fold_new(s, s.gaps@.len() as int, after_work(s));
    lemma_push_new_keeps_new(s, after_gaps(s).0, failure_model(s));
    lemma_carry_fold_new(s, s.tasks@.len() as int, after_failure(s));
    let carried = carry_fold(s, s.tasks@.len() as int, after_failure(s));
    lemma_push_new_keeps_new(s, carried, sleep_model(s));
    let cands = candidate_events(s);
    lemma_sort_order_shape(model_ids(cands), cands.len() as int);
    let sorted = sorted_models(cands);
    assert forall|i: int| 0 <= i < sorted.len() implies !committed(s.ledger, (#[trigger] sorted[i]).id) by {
        let k = sort_order(model_ids(cands), cands.len() as int)[i];
        assert(sorted[i] == cands[k]);
    }
    match current_event(s) {
        Some(m) => lemma_push_new_keeps_new(s, sorted, m),
        None => {},
    }
}

/// `s1` is `s` with another ledger.
pub open spec fn same_but_ledger(s: EvaluationSnapshot, s1: EvaluationSnapshot) -> bool {
    &&& s1.schedule_revision == s.schedule_revision
    &&& s1.now == s.now
    &&& s1.tasks == s.tasks
    &&& s1.schedule == s.schedule
    &&& s1.work == s.work
    &&& s1.gaps == s.gaps
    &&& s1.unplaced_task_ids == s.unplaced_task_ids
    &&& s1.coverage == s.coverage
    &&& s1.sleep_impact == s.sleep_impact
}

/// Every event of `a` is an event of `b`.
pub open spec fn events_within(a: Seq<EventModel>, b: Seq<EventModel>) -> bool {
    forall|i: int| 0 <= i < a.len() ==> b.contains(#[trigger] a[i])
}

/// The ledger of `s1` commits everything that of `s` commits.
pub open spec fn ledger_grows(s: EvaluationSnapshot, s1: EvaluationSnapshot) -> bool {
    forall|id: Seq<char>| committed(s.ledger, id) ==> #[trigger] committed(s1.ledger, id)
}

proof fn lemma_push_within(s: EvaluationSnapshot, s1: EvaluationSnapshot, ev: Seq<EventModel>, ev1: Seq<EventModel>, m: EventModel)
    requires
        ledger_grows(s, s1),
        events_within(ev1, ev),
    ensures
        events_within(push_new(s1, ev1, m), push_new(s, ev, m)),
{
    let a = push_new(s1, ev1, m);
    let b = push_new(s, ev, m);
    assert forall|i: int| 0 <= i < a.len() implies b.contains(#[trigger] a[i]) by {
        if !committed(s.ledger, m.id) {
            assert(b == ev.push(m));
            if i < ev1.len() {
                assert(a[i] == ev1[i]);
                let k = choose|k: int| 0 <= k < ev.len() && ev[k] == ev1[i];
                assert(b[k] == ev[k]);
            } else {
                assert(b[ev.len() as int] == m);
            }
        } else {
            assert(committed(s1.ledger, m.id));
            assert(a == ev1);
            assert(b == ev);
        }
    }
}

proof fn lemma_start_within(s: EvaluationSnapshot, s1: EvaluationSnapshot, n: int)
    requires
        same_but_ledger(s, s1),
        ledger_grows(s, s1),
        n <= s.tasks@.len(),
    ensures
        events_within(start_fold(s1, n).0, start_fold(s, n).0),
        start_fold(s1, n).1 == start_fold(s, n).1,
    decreases n,
{
    if n > 0 {
        lemma_start_within(s, s1, n - 1);
        let acc = start_fold(s, n - 1);
        let acc1 = start_fold(s1, n - 1);
        let t = s.tasks@[n - 1];
        assert(s1.tasks@[n - 1] == t);
        if !(is_terminal(t.status) || t.scheduled_at is None) {
            let start = t.scheduled_at.unwrap();
            let grace = add_seconds_spec(start, (NON_START_GRACE_MINUTES * 60) as i64);
            assert(is_active(s1, t.id@) == is_active(s, t.id@));
            assert(start_model(s1, t, start) == start_model(s, t, start));
            assert(non_start_model(s1, t, grace) == non_start_model(s, t, grace));
            lemma_push_within(s, s1, acc.0, acc1.0, start_model(s, t, start));
            lemma_push_within(s, s1, acc.0, acc1.0, non_start_model(s, t, grace));
        }
    }
}

proof fn lemma_work_within(s: EvaluationSnapshot, s1: EvaluationSnapshot, n: int, acc: Acc, acc1: Acc)
    requires
        same_but_ledger(s, s1),
        ledger_grows(s, s1),
        n <= s.work@.len(),
        events_within(acc1.0, acc.0),
        acc1.1 == acc.1,
    ensures
        events_within(work_fold(s1, n, acc1).0, work_fold(s, n, acc).0),
        work_fold(s1, n, acc1).1 == work_fold(s, n, acc).1,
    decreases n,
{
    if n > 0 {
        lemma_work_within(s, s1, n - 1, acc, acc1);
        let a = work_fold(s, n - 1, acc);
        let a1 = work_fold(s1, n - 1, acc1);
        let w = s.work@[n - 1];
        assert(s1.work@[n - 1] == w);
        match last_task_index(s.tasks@, w.task_id@, s.tasks@.len() as int) {
            None => {},
            Some(k) => {
                let t = s.tasks@[k];
                if !(t.fixed || is_terminal(t.status)) {
                    let band = work_band(w);
                    assert(distribution_model(s1, t, w, band) == distribution_model(s, t, w, band));
                    assert(deadline_model(s1, t) == deadline_model(s, t));
                    let ev1 = if band != InterventionBand::Usual { push_new(s, a.0, distribution_model(s, t, w, band)) } else { a.0 };
                    let ev1b = if band != InterventionBand::Usual { push_new(s1, a1.0, distribution_model(s, t, w, band)) } else { a1.0 };
                    if band != InterventionBand::Usual {
                        lemma_push_within(s, s1, a.0, a1.0, distribution_model(s, t, w, band));
                    }
                    lemma_push_within(s, s1, ev1, ev1b, deadline_model(s, t));
                }
            },
        }
    }
}

proof fn lemma_gap_within(s: EvaluationSnapshot, s1: EvaluationSnapshot, n: int, acc: Acc, acc1: Acc)
    requires
        same_but_ledger(s, s1),
        ledger_grows(s, s1),
        n <= s.gaps@.len(),
        events_within(acc1.0, acc.0),
        acc1.1 == acc.1,
    ensures
        events_within(gap_fold(s1, n, acc1).0, gap_fold(s, n, acc).0),
        gap_fold(s1, n, acc1).1 == gap_fold(s, n, acc).1,
    decreases n,
{
    if n > 0 {
        lemma_gap_within(s, s1, n - 1, acc, acc1);
        let a = gap_fold(s, n - 1, acc);
        let a1 = gap_fold(s1, n - 1, acc1);
        let g = s.gaps@[n - 1];
        assert(s1.gaps@[n - 1] == g);
        let threshold = add_seconds_spec(g.start_at, (UNCLASSIFIED_GAP_THRESHOLD_MINUTES * 60) as i64);
        assert(gap_model(s1, g, threshold) == gap_model(s, g, threshold));
        lemma_push_within(s, s1, a.0, a1.0, gap_model(s, g, threshold));
    }
}

proof fn lemma_carry_within(s: EvaluationSnapshot, s1: EvaluationSnapshot, n: int, ev: Seq<EventModel>, ev1: Seq<EventModel>)
    requires
        same_but_ledger(s, s1),
        ledger_grows(s, s1),
        n <= s.tasks@.len(),
        events_within(ev1, ev),
    ensures
        events_within(carry_fold(s1, n, ev1), carry_fold(s, n, ev)),
    decreases n,
{
    if n > 0 {
        lemma_carry_within(s, s1, n - 1, ev, ev1);
        let t = s.tasks@[n - 1];
        assert(s1.tasks@[n - 1] == t);
        assert(is_carried_over(s1, t) == is_carried_over(s, t));
        assert(carry_model(s1, t) == carry_model(s, t));
        lemma_push_within(s, s1, carry_fold(s, n - 1, ev), carry_fold(s1, n - 1, ev1), carry_model(s, t));
    }
}

/// Evaluating again once every due event is committed raises nothing: an
/// evaluation whose ledger commits all that an earlier one committed and
/// every event that one returned, on the same plan, returns no event.
pub proof fn lemma_committing_due_events_silences_them(s: EvaluationSnapshot, s1: EvaluationSnapshot)
    requires
        same_but_ledger(s, s1),
        ledger_grows(s, s1),
        forall|i: int| 0 <= i < expected_events(s).len() ==> committed(s1.ledger, (#[trigger] expected_events(s)[i]).id),
    ensures
        expected_events(s1).len() == 0,
{
    lemma_start_within(s, s1, s.tasks@.len() as int);
    lemma_work_within(s, s1, s.work@.len() as int, after_starts(s), after_starts(s1));
    lemma_gap_within(s, s1, s.gaps@.len() as int, after_work(s), after_work(s1));
    assert(failure_model(s1) == failure_model(s));
    lemma_push_within(s, s1, after_gaps(s).0, after_gaps(s1).0, failure_model(s));
    assert(events_within(after_failure(s1), after_failure(s)));
    lemma_carry_within(s, s1, s.tasks@.len() as int, after_failure(s), after_failure(s1));
    assert(sleep_model(s1) == sleep_model(s));
    lemma_push_within(s, s1, carry_fold(s, s.tasks@.len() as int, after_failure(s)),
        carry_fold(s1, s.tasks@.len() as int, after_failure(s1)), sleep_model(s));
    let c = candidate_events(s);
    let c1 = candidate_events(s1);
    assert(events_within(c1, c));
    lemma_sort_order_shape(model_ids(c), c.len() as int);
    lemma_sort_order_shape(model_ids(c1), c1.len() as int);
    lemma_sort_is_permutation(model_ids(c), c.len() as int);
    let sorted = sorted_models(c);
    let sorted1 = sorted_models(c1);
    // every candidate of s appears among the sorted ones
    assert(events_within(sorted1, sorted)) by {
        assert forall|i: int| 0 <= i < sorted1.len() implies sorted.contains(#[trigger] sorted1[i]) by {
            let k1 = sort_order(model_ids(c1), c1.len() as int)[i];
            assert(sorted1[i] == c1[k1]);
            assert(c.contains(c1[k1]));
            let k = choose|k: int| 0 <= k < c.len() && c[k] == c1[k1];
            assert(placed(sort_order(model_ids(c), c.len() as int), k));
            let j = choose|j: int| 0 <= j < sort_order(model_ids(c), c.len() as int).len()
                && sort_order(model_ids(c), c.len() as int)[j] == k;
            assert(sorted[j] == c[k]);
        }
    }
    assert(current_event(s1) == current_event(s));
    let e = expected_events(s);
    let e1 = expected_events(s1);
    match current_event(s) {
        Some(m) => lemma_push_within(s, s1, sorted, sorted1, m),
        None => {},
    }
    assert(events_within(e1, e));
    lemma_committed_events_are_not_emitted(s1);
    if e1.len() > 0 {
        let k = choose|k: int| 0 <= k < e.len() && e[k] == e1[0];
        assert(committed(s1.ledger, e[k].id));
        assert(!committed(s1.ledger, e1[0].id));
    }
}

/// No event of `ev` is a current-task event.
pub open spec fn none_current(ev: Seq<EventModel>) -> bool {
    forall|i: int| 0 <= i < ev.len() ==> (#[trigger] ev[i]).kind != PlannerEventKind::CurrentTask
}

proof fn lemma_push_none_current(ev: Seq<EventModel>, s: EvaluationSnapshot, m: EventModel)
    requires
        none_current(ev),
        m.kind != PlannerEventKind::CurrentTask,
    ensures
        none_current(push_new(s, ev, m)),
{
    if !committed(s.ledger, m.id) {
        assert forall|i: int| 0 <= i < ev.push(m).len() implies (#[trigger] ev.push(m)[i]).kind != PlannerEventKind::CurrentTask by {
            if i < ev.len() {
                assert(ev.push(m)[i] == ev[i]);
            }
        }
    }
}

proof fn lemma_start_none_current(s: EvaluationSnapshot, n: int)
    ensures
        none_current(start_fold(s, n).0),
    decreases n,
{
    if n > 0 {
        lemma_start_none_current(s, n - 1);
        let acc = start_fold(s, n - 1);
        let t = s.tasks@[n - 1];
        if !(is_terminal(t.status) || t.scheduled_at is None) {
            let start = t.scheduled_at.unwrap();
            let grace = add_seconds_spec(start, (NON_START_GRACE_MINUTES * 60) as i64);
            lemma_push_none_current(acc.0, s, start_model(s, t, start));
            lemma_push_none_current(acc.0, s, non_start_model(s, t, grace));
        }
    }
}

proof fn lemma_work_none_current(s: EvaluationSnapshot, n: int, acc: Acc)
    requires
        none_current(acc.0),
    ensures
        none_current(work_fold(s, n, acc).0),
    decreases n,
{
    if n > 0 {
        lemma_work_none_current(s, n - 1, acc);
        let prev = work_fold(s, n - 1, acc);
        let w = s.work@[n - 1];
        match last_task_index(s.tasks@, w.task_id@, s.tasks@.len() as int) {
            None => {},
            Some(k) => {
                let t = s.tasks@[k];
                let band = work_band(w);
                lemma_push_none_current(prev.0, s, distribution_model(s, t, w, band));
                let ev1 = if band != InterventionBand::Usual {
                    push_new(s, prev.0, distribution_model(s, t, w, band))
                } else {
                    prev.0
                };
                lemma_push_none_current(ev1, s, deadline_model(s, t));
            },
        }
    }
}

proof fn lemma_gap_none_current(s: EvaluationSnapshot, n: int, acc: Acc)
    requires
        none_current(acc.0),
    ensures
        none_current(gap_fold(s, n, acc).0),
    decreases n,
{
    if n > 0 {
        lemma_gap_none_current(s, n - 1, acc);
        let prev = gap_fold(s, n - 1, acc);
        let g = s.gaps@[n - 1];
        let threshold = add_seconds_spec(g.start_at, (UNCLASSIFIED_GAP_THRESHOLD_MINUTES * 60) as i64);
        lemma_push_none_current(prev.0, s, gap_model(s, g, threshold));
    }
}

proof fn lemma_carry_none_current(s: EvaluationSnapshot, n: int, ev: Seq<EventModel>)
    requires
        none_current(ev),
    ensures
        none_current(carry_fold(s, n, ev)),
    decreases n,
{
    if n > 0 {
        lemma_carry_none_current(s, n - 1, ev);
        lemma_push_none_current(carry_fold(s, n - 1, ev), s, carry_model(s, s.tasks@[n - 1]));
    }
}

/// `a` does not order after `b` by id.
pub open spec fn id_le(a: Seq<char>, b: Seq<char>) -> bool {
    !id_gt(a, b)
}

proof fn lemma_le_transitive(a: Seq<char>, b: Seq<char>, c: Seq<char>)
    requires
        id_le(a, b),
        id_le(b, c),
    ensures
        id_le(a, c),
{
    if id_gt(a, c) {
        if b == c {
        } else {
            crate::tool_registry::lemma_gt_total(b, c, 0);
            crate::tool_registry::lemma_gt_transitive(a, c, b, 0);
        }
    }
}

/// Whether the indices in `o` list their keys in order.
pub open spec fn ordered_by_key(keys: Seq<Seq<char>>, o: Seq<int>) -> bool {
    forall|i: int, j: int| 0 <= i < j < o.len() ==> id_le(keys[#[trigger] o[i]], keys[#[trigger] o[j]])
}

proof fn lemma_insert_pos_facts(keys: Seq<Seq<char>>, order: Seq<int>, k: Seq<char>)
    ensures
        forall|j: int| insert_pos(keys, order, k) <= j < order.len() ==> id_gt(keys[#[trigger] order[j]], k),
        insert_pos(keys, order, k) > 0 ==> id_le(keys[order[insert_pos(keys, order, k) - 1]], k),
    decreases order.len(),
{
    lemma_insert_pos_bounds(keys, order, k);
    if order.len() > 0 && id_gt(keys[order.last()], k) {
        let o2 = order.drop_last();
        lemma_insert_pos_facts(keys, o2, k);
        assert forall|j: int| insert_pos(keys, order, k) <= j < order.len() implies id_gt(keys[#[trigger] order[j]], k) by {
            if j < order.len() - 1 {
                assert(order[j] == o2[j]);
            }
        }
        lemma_insert_pos_bounds(keys, o2, k);
        assert(insert_pos(keys, order, k) == insert_pos(keys, o2, k));
        if insert_pos(keys, order, k) > 0 {
            let p = insert_pos(keys, o2, k);
            assert(order[p - 1] == o2[p - 1]);
        }
    }
}

proof fn lemma_sort_order_sorted(keys: Seq<Seq<char>>, n: int)
    requires
        0 <= n,
    ensures
        ordered_by_key(keys, sort_order(keys, n)),
    decreases n,
{
    if n > 0 {
        lemma_sort_order_sorted(keys, n - 1);
        let o = sort_order(keys, n - 1);
        let k = keys[n - 1];
        lemma_insert_pos_bounds(keys, o, k);
        lemma_insert_pos_facts(keys, o, k);
        let p = insert_pos(keys, o, k);
        let so = o.insert(p, n - 1);
        assert(so == sort_order(keys, n));
        assert forall|i: int, j: int| 0 <= i < j < so.len() implies id_le(keys[#[trigger] so[i]], keys[#[trigger] so[j]]) by {
            if j < p {
                assert(so[i] == o[i] && so[j] == o[j]);
            } else if i > p {
                assert(so[i] == o[i - 1] && so[j] == o[j - 1]);
            } else if i < p && j > p {
                assert(so[i] == o[i] && so[j] == o[j - 1]);
            } else if j == p {
                assert(so[j] == n - 1);
                assert(so[i] == o[i]);
                if i < p - 1 {
                    lemma_le_transitive(keys[o[i]], keys[o[p - 1]], k);
                }
            } else {
                assert(i == p);
                assert(so[i] == n - 1);
                assert(so[j] == o[j - 1]);
                crate::tool_registry::lemma_gt_asymmetric(keys[o[j - 1]], k, 0);
            }
        }
    }
}

/// The events an evaluation returns are ordered: the new candidates by id,
/// and the current-task card, when there is one, comes last.
pub proof fn lemma_due_events_ordered(s: EvaluationSnapshot)
    ensures
        forall|i: int| 0 <= i < expected_events(s).len() - 1
            ==> (#[trigger] expected_events(s)[i]).kind != PlannerEventKind::CurrentTask,
        forall|i: int, j: int| 0 <= i < j < expected_events(s).len()
            && (#[trigger] expected_events(s)[j]).kind != PlannerEventKind::CurrentTask
            ==> id_le((#[trigger] expected_events(s)[i]).id, expected_events(s)[j].id),
{
    lemma_start_none_current(s, s.tasks@.len() as int);
    lemma_work_none_current(s, s.work@.len() as int, after_starts(s));
    lemma_gap_none_current(s, s.gaps@.len() as int, after_work(s));
    lemma_push_none_current(after_gaps(s).0, s, failure_model(s));
    lemma_carry_none_current(s, s.tasks@.len() as int, after_failure(s));
    let carried = carry_fold(s, s.tasks@.len() as int, after_failure(s));
    lemma_push_none_current(carried, s, sleep_model(s));
    let c = candidate_events(s);
    assert(none_current(c));
    let keys = model_ids(c);
    lemma_sort_order_shape(keys, c.len() as int);
    lemma_sort_order_sorted(keys, c.len() as int);
    let o = sort_order(keys, c.len() as int);
    let sorted = sorted_models(c);
    assert forall|i: int| 0 <= i < sorted.len() implies (#[trigger] sorted[i]).kind != PlannerEventKind::CurrentTask by {
        assert(sorted[i] == c[o[i]]);
    }
    assert forall|i: int, j: int| 0 <= i < j < sorted.len() implies id_le((#[trigger] sorted[i]).id, (#[trigger] sorted[j]).id) by {
        assert(sorted[i] == c[o[i]]);
        assert(sorted[j] == c[o[j]]);
        assert(keys[o[i]] == c[o[i]].id);
        assert(keys[o[j]] == c[o[j]].id);
    }
    let e = expected_events(s);
    match current_event(s) {
        Some(m) => {
            if !committed(s.ledger, m.id) {
                assert(e == sorted.push(m));
                assert forall|i: int| 0 <= i < e.len() - 1 implies (#[trigger] e[i]).kind != PlannerEventKind::CurrentTask by {
                    assert(e[i] == sorted[i]);
                }
                assert forall|i: int, j: int| 0 <= i < j < e.len() && (#[trigger] e[j]).kind != PlannerEventKind::CurrentTask
                    implies id_le((#[trigger] e[i]).id, e[j].id) by {
                    assert(m.kind == PlannerEventKind::CurrentTask);
                    assert(j < sorted.len());
                    assert(e[i] == sorted[i] && e[j] == sorted[j]);
                }
            }
        },
        None => {},
    }
}


// ---------------------------------------------------------------------------
// Deadline warnings
// ---------------------------------------------------------------------------

/// `k` is the task the evaluator reads for the work session `w`: the last
/// task of the snapshot whose id is the session's task id.
pub open spec fn is_session_task(s: EvaluationSnapshot, w: EvaluationWork, k: int) -> bool {
    &&& 0 <= k < s.tasks@.len()
    &&& s.tasks@[k].id@ == w.task_id@
    &&& forall|j: int| k < j < s.tasks@.len() ==> (#[trigger] s.tasks@[j]).id@ != w.task_id@
}

/// Whether the session is predicted to end after the task's deadline: now
/// plus the session's remaining seconds, or now itself where that sum is
/// not a representable timestamp.
pub open spec fn ends_after_deadline(s: EvaluationSnapshot, w: EvaluationWork, t: EvaluationTask) -> bool {
    if in_timestamp_range(s.now + w.remaining_seconds) {
        s.now + w.remaining_seconds > t.deadline_at
    } else {
        s.now > t.deadline_at
    }
}

/// A deadline warning for the task `t` raised by the work session `j`.
pub open spec fn deadline_warning_from(s: EvaluationSnapshot, m: EventModel, j: int, k: int) -> bool {
    &&& 0 <= j < s.work@.len()
    &&& is_session_task(s, s.work@[j], k)
    &&& !s.tasks@[k].fixed
    &&& s.tasks@[k].status != TaskStatus::Completed
    &&& s.tasks@[k].status != TaskStatus::Skipped
    &&& ends_after_deadline(s, s.work@[j], s.tasks@[k])
    &&& m.task_ref == Some((s.tasks@[k].id@, s.tasks@[k].display_id))
}

/// Every deadline warning of `ev` was raised by some work session.
pub open spec fn deadline_warnings_backed(s: EvaluationSnapshot, ev: Seq<EventModel>) -> bool {
    forall|i: int| 0 <= i < ev.len() && (#[trigger] ev[i]).kind == PlannerEventKind::DeadlineViolation
        ==> exists|j: int, k: int| deadline_warning_from(s, ev[i], j, k)
}

proof fn lemma_last_task_index(tasks: Seq<EvaluationTask>, id: Seq<char>, n: int)
    requires
        0 <= n <= tasks.len(),
    ensures
        match last_task_index(tasks, id, n) {
            Some(k) => 0 <= k < n && tasks[k].id@ == id && forall|j: int| k < j < n ==> (#[trigger] tasks[j]).id@ != id,
            None => forall|j: int| 0 <= j < n ==> (#[trigger] tasks[j]).id@ != id,
        },
    decreases n,
{
    if n > 0 {
        lemma_last_task_index(tasks, id, n - 1);
    }
}

proof fn lemma_push_new_grows(s: EvaluationSnapshot, ev: Seq<EventModel>, m: EventModel)
    ensures
        events_within(ev, push_new(s, ev, m)),
        !committed(s.ledger, m.id) ==> push_new(s, ev, m).contains(m),
{
    if !committed(s.ledger, m.id) {
        assert(ev.push(m)[ev.len() as int] == m);
        assert forall|i: int| 0 <= i < ev.len() implies ev.push(m).contains(#[trigger] ev[i]) by {
            assert(ev.push(m)[i] == ev[i]);
        }
    } else {
        assert forall|i: int| 0 <= i < ev.len() implies ev.contains(#[trigger] ev[i]) by {}
    }
}

proof fn lemma_within_transitive(a: Seq<EventModel>, b: Seq<EventModel>, c: Seq<EventModel>)
    requires
        events_within(a, b),
        events_within(b, c),
    ensures
        events_within(a, c),
{
    assert forall|i: int| 0 <= i < a.len() implies c.contains(#[trigger] a[i]) by {
        let k = choose|k: int| 0 <= k < b.len() && b[k] == a[i];
        assert(c.contains(b[k]));
    }
}

proof fn lemma_work_step_grows(s: EvaluationSnapshot, w: EvaluationWork, acc: Acc)
    ensures
        events_within(acc.0, work_step(s, w, acc).0),
{
    match last_task_index(s.tasks@, w.task_id@, s.tasks@.len() as int) {
        None => lemma_push_new_grows(s, acc.0, deadline_model(s, s.tasks@[0])),
        Some(k) => {
            let t = s.tasks@[k];
            let band = work_band(w);
            lemma_push_new_grows(s, acc.0, distribution_model(s, t, w, band));
            let ev1 = if band != InterventionBand::Usual {
                push_new(s, acc.0, distribution_model(s, t, w, band))
            } else {
                acc.0
            };
            lemma_push_new_grows(s, ev1, deadline_model(s, t));
            lemma_push_new_grows(s, acc.0, deadline_model(s, t));
            lemma_within_transitive(acc.0, ev1, push_new(s, ev1, deadline_model(s, t)));
        },
    }
}

proof fn lemma_work_fold_grows(s: EvaluationSnapshot, i: int, n: int, acc: Acc)
    requires
        0 <= i <= n,
    ensures
        events_within(work_fold(s, i, acc).0, work_fold(s, n, acc).0),
    decreases n,
{
    if n > i {
        lemma_work_fold_grows(s, i, n - 1, acc);
        lemma_work_step_grows(s, s.work@[n - 1], work_fold(s, n - 1, acc));
        lemma_within_transitive(work_fold(s, i, acc).0, work_fold(s, n - 1, acc).0, work_fold(s, n, acc).0);
    } else {
        lemma_push_new_grows(s, work_fold(s, i, acc).0, deadline_model(s, s.tasks@[0]));
        assert forall|x: int| 0 <= x < work_fold(s, i, acc).0.len()
            implies work_fold(s, n, acc).0.contains(#[trigger] work_fold(s, i, acc).0[x]) by {}
    }
}

proof fn lemma_gap_fold_grows(s: EvaluationSnapshot, n: int, acc: Acc)
    ensures
        events_within(acc.0, gap_fold(s, n, acc).0),
    decreases n,
{
    if n > 0 {
        lemma_gap_fold_grows(s, n - 1, acc);
        let prev = gap_fold(s, n - 1, acc);
        let g = s.gaps@[n - 1];
        let threshold = add_seconds_spec(g.start_at, (UNCLASSIFIED_GAP_THRESHOLD_MINUTES * 60) as i64);
        lemma_push_new_grows(s, prev.0, gap_model(s, g, threshold));
        lemma_within_transitive(acc.0, prev.0, push_new(s, prev.0, gap_model(s, g, threshold)));
    } else {
        assert forall|x: int| 0 <= x < acc.0.len() implies acc.0.contains(#[trigger] acc.0[x]) by {}
    }
}

proof fn lemma_carry_fold_grows(s: EvaluationSnapshot, n: int, ev: Seq<EventModel>)
    ensures
        events_within(ev, carry_fold(s, n, ev)),
    decreases n,
{
    if n > 0 {
        lemma_carry_fold_grows(s, n - 1, ev);
        let prev = carry_fold(s, n - 1, ev);
        lemma_push_new_grows(s, prev, carry_model(s, s.tasks@[n - 1]));
        lemma_within_transitive(ev, prev, push_new(s, prev, carry_model(s, s.tasks@[n - 1])));
    } else {
        assert forall|x: int| 0 <= x < ev.len() implies ev.contains(#[trigger] ev[x]) by {}
    }
}

/// Every event raised once the work sessions are evaluated is returned.
proof fn lemma_after_work_returned(s: EvaluationSnapshot)
    ensures
        events_within(after_work(s).0, expected_events(s)),
{
    let aw = after_work(s).0;
    lemma_gap_fold_grows(s, s.gaps@.len() as int, after_work(s));
    let ag = after_gaps(s).0;
    lemma_push_new_grows(s, ag, failure_model(s));
    if s.unplaced_task_ids@.len() > 0 {
        lemma_within_transitive(aw, ag, after_failure(s));
    }
    let af = after_failure(s);
    lemma_carry_fold_grows(s, s.tasks@.len() as int, af);
    let carried = carry_fold(s, s.tasks@.len() as int, af);
    lemma_within_transitive(aw, af, carried);
    lemma_push_new_grows(s, carried, sleep_model(s));
    let c = candidate_events(s);
    if s.sleep_impact matches Some(i) && i.detected {
        lemma_within_transitive(aw, carried, c);
    }
    let keys = model_ids(c);
    lemma_sort_order_shape(keys, c.len() as int);
    lemma_sort_is_permutation(keys, c.len() as int);
    let o = sort_order(keys, c.len() as int);
    let sorted = sorted_models(c);
    assert(events_within(c, sorted)) by {
        assert forall|i: int| 0 <= i < c.len() implies sorted.contains(#[trigger] c[i]) by {
            assert(placed(o, i));
            let j = choose|j: int| 0 <= j < o.len() && o[j] == i;
            assert(sorted[j] == c[i]);
        }
    }
    lemma_within_transitive(aw, c, sorted);
    match current_event(s) {
        Some(m) => {
            lemma_push_new_grows(s, sorted, m);
            lemma_within_transitive(aw, sorted, expected_events(s));
        },
        None => {},
    }
}

/// A work session that is predicted to run past its task's deadline raises
/// a deadline warning for that task: when the task is neither fixed nor
/// finished and now plus the session's remaining seconds is later than the
/// deadline, the due events hold a `DeadlineViolation` for the task, unless
/// the ledger already committed that warning. This holds whether or not
/// the deadline itself has passed.
pub proof fn lemma_deadline_warning_raised(s: EvaluationSnapshot, j: int, k: int)
    requires
        0 <= j < s.work@.len(),
        is_session_task(s, s.work@[j], k),
        !s.tasks@[k].fixed,
        s.tasks@[k].status != TaskStatus::Completed,
        s.tasks@[k].status != TaskStatus::Skipped,
        in_timestamp_range(s.now + s.work@[j].remaining_seconds),
        s.now + s.work@[j].remaining_seconds > s.tasks@[k].deadline_at,
        !committed(s.ledger, event_id_text(
            PlannerEventKind::DeadlineViolation, s.tasks@[k].id@, s.schedule_revision, None, s.tasks@[k].deadline_at, "deadline"@)),
    ensures
        exists|i: int| 0 <= i < expected_events(s).len()
            && (#[trigger] expected_events(s)[i]).kind == PlannerEventKind::DeadlineViolation
            && expected_events(s)[i].task_ref == Some((s.tasks@[k].id@, s.tasks@[k].display_id)),
{
    let w = s.work@[j];
    let t = s.tasks@[k];
    lemma_last_task_index(s.tasks@, w.task_id@, s.tasks@.len() as int);
    assert(last_task_index(s.tasks@, w.task_id@, s.tasks@.len() as int) == Some(k)) by {
        match last_task_index(s.tasks@, w.task_id@, s.tasks@.len() as int) {
            Some(k2) => {
                if k2 < k { assert(s.tasks@[k].id@ == w.task_id@); }
                if k2 > k { assert(s.tasks@[k2].id@ != w.task_id@); }
            },
            None => { assert(s.tasks@[k].id@ == w.task_id@); },
        }
    }
    let prev = work_fold(s, j, after_starts(s));
    let step = work_fold(s, j + 1, after_starts(s));
    assert(step == work_step(s, w, prev));
    let dm = deadline_model(s, t);
    let band = work_band(w);
    let ev1 = if band != InterventionBand::Usual {
        push_new(s, prev.0, distribution_model(s, t, w, band))
    } else {
        prev.0
    };
    assert(step.0 == push_new(s, ev1, dm));
    lemma_push_new_grows(s, ev1, dm);
    lemma_work_fold_grows(s, j + 1, s.work@.len() as int, after_starts(s));
    lemma_after_work_returned(s);
    lemma_within_transitive(step.0, after_work(s).0, expected_events(s));
    let x = choose|x: int| 0 <= x < step.0.len() && step.0[x] == dm;
    assert(expected_events(s).contains(step.0[x]));
}


proof fn lemma_push_backed(s: EvaluationSnapshot, ev: Seq<EventModel>, m: EventModel)
    requires
        deadline_warnings_backed(s, ev),
        m.kind == PlannerEventKind::DeadlineViolation ==> exists|j: int, k: int| deadline_warning_from(s, m, j, k),
    ensures
        deadline_warnings_backed(s, push_new(s, ev, m)),
{
    if !committed(s.ledger, m.id) {
        let e = ev.push(m);
        assert forall|i: int| 0 <= i < e.len() && (#[trigger] e[i]).kind == PlannerEventKind::DeadlineViolation
            implies exists|j: int, k: int| deadline_warning_from(s, e[i], j, k) by {
            if i < ev.len() {
                assert(e[i] == ev[i]);
            }
        }
    }
}

proof fn lemma_start_backed(s: EvaluationSnapshot, n: int)
    ensures
        deadline_warnings_backed(s, start_fold(s, n).0),
    decreases n,
{
    if n > 0 {
        lemma_start_backed(s, n - 1);
        let acc = start_fold(s, n - 1);
        let t = s.tasks@[n - 1];
        if !(is_terminal(t.status) || t.scheduled_at is None) {
            let start = t.scheduled_at.unwrap();
            let grace = add_seconds_spec(start, (NON_START_GRACE_MINUTES * 60) as i64);
            lemma_push_backed(s, acc.0, start_model(s, t, start));
            lemma_push_backed(s, acc.0, non_start_model(s, t, grace));
        }
    }
}

proof fn lemma_work_backed(s: EvaluationSnapshot, n: int, acc: Acc)
    requires
        0 <= n <= s.work@.len(),
        deadline_warnings_backed(s, acc.0),
    ensures
        deadline_warnings_backed(s, work_fold(s, n, acc).0),
    decreases n,
{
    if n > 0 {
        lemma_work_backed(s, n - 1, acc);
        let prev = work_fold(s, n - 1, acc);
        let w = s.work@[n - 1];
        lemma_last_task_index(s.tasks@, w.task_id@, s.tasks@.len() as int);
        match last_task_index(s.tasks@, w.task_id@, s.tasks@.len() as int) {
            None => {},
            Some(k) => {
                let t = s.tasks@[k];
                let band = work_band(w);
                lemma_push_backed(s, prev.0, distribution_model(s, t, w, band));
                let ev1 = if band != InterventionBand::Usual {
                    push_new(s, prev.0, distribution_model(s, t, w, band))
                } else {
                    prev.0
                };
                if !t.fixed && !is_terminal(t.status) && add_seconds_spec(s.now, w.remaining_seconds) > t.deadline_at {
                    assert(is_session_task(s, w, k));
                    assert(deadline_warning_from(s, deadline_model(s, t), n - 1, k));
                    lemma_push_backed(s, ev1, deadline_model(s, t));
                }
            },
        }
    }
}

proof fn lemma_gap_backed(s: EvaluationSnapshot, n: int, acc: Acc)
    requires
        deadline_warnings_backed(s, acc.0),
    ensures
        deadline_warnings_backed(s, gap_fold(s, n, acc).0),
    decreases n,
{
    if n > 0 {
        lemma_gap_backed(s, n - 1, acc);
        let prev = gap_fold(s, n - 1, acc);
        let g = s.gaps@[n - 1];
        let threshold = add_seconds_spec(g.start_at, (UNCLASSIFIED_GAP_THRESHOLD_MINUTES * 60) as i64);
        lemma_push_backed(s, prev.0, gap_model(s, g, threshold));
    }
}

proof fn lemma_carry_backed(s: EvaluationSnapshot, n: int, ev: Seq<EventModel>)
    requires
        deadline_warnings_backed(s, ev),
    ensures
        deadline_warnings_backed(s, carry_fold(s, n, ev)),
    decreases n,
{
    if n > 0 {
        lemma_carry_backed(s, n - 1, ev);
        lemma_push_backed(s, carry_fold(s, n - 1, ev), carry_model(s, s.tasks@[n - 1]));
    }
}

/// A deadline warning is raised only by a work session predicted to run
/// past its task's deadline: each `DeadlineViolation` among the due events
/// names the task of some work session, that task is neither fixed nor
/// finished, and now plus the session's remaining seconds is later than the
/// task's deadline.
pub proof fn lemma_deadline_warning_has_cause(s: EvaluationSnapshot)
    ensures
        deadline_warnings_backed(s, expected_events(s)),
{
    lemma_start_backed(s, s.tasks@.len() as int);
    lemma_work_backed(s, s.work@.len() as int, after_starts(s));
    lemma_gap_backed(s, s.gaps@.len() as int, after_work(s));
    lemma_push_backed(s, after_gaps(s).0, failure_model(s));
    lemma_carry_backed(s, s.tasks@.len() as int, after_failure(s));
    let carried = carry_fold(s, s.tasks@.len() as int, after_failure(s));
    lemma_push_backed(s, carried, sleep_model(s));
    let c = candidate_events(s);
    let keys = model_ids(c);
    lemma_sort_order_shape(keys, c.len() as int);
    let o = sort_order(keys, c.len() as int);
    let sorted = sorted_models(c);
    assert forall|i: int| 0 <= i < sorted.len() && (#[trigger] sorted[i]).kind == PlannerEventKind::DeadlineViolation
        implies exists|j: int, k: int| deadline_warning_from(s, sorted[i], j, k) by {
        assert(sorted[i] == c[o[i]]);
    }
    match current_event(s) {
        Some(m) => lemma_push_backed(s, sorted, m),
        None => {},
    }
}


proof fn lemma_start_fold_grows(s: EvaluationSnapshot, i: int, n: int)
    requires
        0 <= i <= n,
    ensures
        events_within(start_fold(s, i).0, start_fold(s, n).0),
    decreases n,
{
    if n > i {
        lemma_start_fold_grows(s, i, n - 1);
        let acc = start_fold(s, n - 1);
        let t = s.tasks@[n - 1];
        if !(is_terminal(t.status) || t.scheduled_at is None) {
            let start = t.scheduled_at.unwrap();
            let grace = add_seconds_spec(start, (NON_START_GRACE_MINUTES * 60) as i64);
            lemma_push_new_grows(s, acc.0, start_model(s, t, start));
            lemma_push_new_grows(s, acc.0, non_start_model(s, t, grace));
            lemma_within_transitive(start_fold(s, i).0, acc.0, push_new(s, acc.0, start_model(s, t, start)));
            lemma_within_transitive(start_fold(s, i).0, acc.0, push_new(s, acc.0, non_start_model(s, t, grace)));
        }
    } else {
        assert forall|x: int| 0 <= x < start_fold(s, i).0.len()
            implies start_fold(s, n).0.contains(#[trigger] start_fold(s, i).0[x]) by {}
    }
}

proof fn lemma_gap_fold_grows_from(s: EvaluationSnapshot, i: int, n: int, acc: Acc)
    requires
        0 <= i <= n,
    ensures
        events_within(gap_fold(s, i, acc).0, gap_fold(s, n, acc).0),
    decreases n,
{
    if n > i {
        lemma_gap_fold_grows_from(s, i, n - 1, acc);
        let prev = gap_fold(s, n - 1, acc);
        let g = s.gaps@[n - 1];
        let threshold = add_seconds_spec(g.start_at, (UNCLASSIFIED_GAP_THRESHOLD_MINUTES * 60) as i64);
        lemma_push_new_grows(s, prev.0, gap_model(s, g, threshold));
        lemma_within_transitive(gap_fold(s, i, acc).0, prev.0, push_new(s, prev.0, gap_model(s, g, threshold)));
    } else {
        assert forall|x: int| 0 <= x < gap_fold(s, i, acc).0.len()
            implies gap_fold(s, n, acc).0.contains(#[trigger] gap_fold(s, i, acc).0[x]) by {}
    }
}

proof fn lemma_carry_fold_grows_from(s: EvaluationSnapshot, i: int, n: int, ev: Seq<EventModel>)
    requires
        0 <= i <= n,
    ensures
        events_within(carry_fold(s, i, ev), carry_fold(s, n, ev)),
    decreases n,
{
    if n > i {
        lemma_carry_fold_grows_from(s, i, n - 1, ev);
        let prev = carry_fold(s, n - 1, ev);
        lemma_push_new_grows(s, prev, carry_model(s, s.tasks@[n - 1]));
        lemma_within_transitive(carry_fold(s, i, ev), prev, push_new(s, prev, carry_model(s, s.tasks@[n - 1])));
    } else {
        assert forall|x: int| 0 <= x < carry_fold(s, i, ev).len()
            implies carry_fold(s, n, ev).contains(#[trigger] carry_fold(s, i, ev)[x]) by {}
    }
}

/// Whether some event of `ev` is `m`.
proof fn lemma_returned_from(s: EvaluationSnapshot, ev: Seq<EventModel>, m: EventModel)
    requires
        events_within(ev, expected_events(s)),
        ev.contains(m),
    ensures
        expected_events(s).contains(m),
{
    let x = choose|x: int| 0 <= x < ev.len() && ev[x] == m;
    assert(expected_events(s).contains(ev[x]));
}

proof fn lemma_after_starts_returned(s: EvaluationSnapshot)
    ensures
        events_within(after_starts(s).0, expected_events(s)),
{
    lemma_work_fold_grows(s, 0, s.work@.len() as int, after_starts(s));
    lemma_after_work_returned(s);
    lemma_within_transitive(after_starts(s).0, after_work(s).0, expected_events(s));
}

proof fn lemma_candidates_returned(s: EvaluationSnapshot)
    ensures
        events_within(candidate_events(s), expected_events(s)),
        events_within(after_failure(s), expected_events(s)),
        events_within(after_gaps(s).0, expected_events(s)),
{
    let c = candidate_events(s);
    let keys = model_ids(c);
    lemma_sort_order_shape(keys, c.len() as int);
    lemma_sort_is_permutation(keys, c.len() as int);
    let o = sort_order(keys, c.len() as int);
    let sorted = sorted_models(c);
    assert(events_within(c, sorted)) by {
        assert forall|i: int| 0 <= i < c.len() implies sorted.contains(#[trigger] c[i]) by {
            assert(placed(o, i));
            let j = choose|j: int| 0 <= j < o.len() && o[j] == i;
            assert(sorted[j] == c[i]);
        }
    }
    match current_event(s) {
        Some(m) => {
            lemma_push_new_grows(s, sorted, m);
            lemma_within_transitive(c, sorted, expected_events(s));
        },
        None => {},
    }
    let carried = carry_fold(s, s.tasks@.len() as int, after_failure(s));
    lemma_push_new_grows(s, carried, sleep_model(s));
    lemma_within_transitive(carried, c, expected_events(s));
    lemma_carry_fold_grows(s, s.tasks@.len() as int, after_failure(s));
    lemma_within_transitive(after_failure(s), carried, expected_events(s));
    lemma_push_new_grows(s, after_gaps(s).0, failure_model(s));
    lemma_within_transitive(after_gaps(s).0, after_failure(s), expected_events(s));
}

/// A task whose start time has come raises a start check-in: when it is
/// not finished, not in progress and has no open work session, and now
/// lies within the 15-minute grace period after its scheduled start, the
/// due events hold a `TaskStartTimeReached` for it, unless the ledger
/// already committed that check-in.
pub proof fn lemma_start_check_in_raised(s: EvaluationSnapshot, k: int)
    requires
        0 <= k < s.tasks@.len(),
        s.tasks@[k].status != TaskStatus::Completed,
        s.tasks@[k].status != TaskStatus::Skipped,
        s.tasks@[k].status != TaskStatus::InProgress,
        forall|j: int| 0 <= j < s.work@.len() ==> (#[trigger] s.work@[j]).task_id@ != s.tasks@[k].id@,
        s.tasks@[k].scheduled_at matches Some(start) && start <= s.now && in_timestamp_range(start + 900)
            && s.now < start + 900
            && !committed(s.ledger, event_id_text(
                PlannerEventKind::TaskStartTimeReached, s.tasks@[k].id@, s.schedule_revision, None, start, "start-time"@)),
    ensures
        exists|i: int| 0 <= i < expected_events(s).len()
            && (#[trigger] expected_events(s)[i]).kind == PlannerEventKind::TaskStartTimeReached
            && expected_events(s)[i].task_ref == Some((s.tasks@[k].id@, s.tasks@[k].display_id)),
{
    let t = s.tasks@[k];
    let start = t.scheduled_at.unwrap();
    let m = start_model(s, t, start);
    let step = start_fold(s, k + 1);
    assert(step == start_step(s, t, start_fold(s, k)));
    assert(!is_active(s, t.id@));
    lemma_push_new_grows(s, start_fold(s, k).0, m);
    lemma_start_fold_grows(s, k + 1, s.tasks@.len() as int);
    lemma_after_starts_returned(s);
    lemma_within_transitive(step.0, after_starts(s).0, expected_events(s));
    lemma_returned_from(s, step.0, m);
}

/// A task that was not started within the grace period raises a non-start
/// check-in: when it is neither finished, in progress, fixed nor worked on,
/// and 15 minutes or more have passed since its scheduled start, the due
/// events hold a `TaskNonStartContinued` for it, unless the ledger already
/// committed that check-in.
pub proof fn lemma_non_start_check_in_raised(s: EvaluationSnapshot, k: int)
    requires
        0 <= k < s.tasks@.len(),
        s.tasks@[k].status != TaskStatus::Completed,
        s.tasks@[k].status != TaskStatus::Skipped,
        s.tasks@[k].status != TaskStatus::InProgress,
        !s.tasks@[k].fixed,
        forall|j: int| 0 <= j < s.work@.len() ==> (#[trigger] s.work@[j]).task_id@ != s.tasks@[k].id@,
        s.tasks@[k].scheduled_at matches Some(start) && in_timestamp_range(start + 900)
            && start + 900 <= s.now
            && !committed(s.ledger, event_id_text(
                PlannerEventKind::TaskNonStartContinued, s.tasks@[k].id@, s.schedule_revision, None, (start + 900) as i64, "non-start"@)),
    ensures
        exists|i: int| 0 <= i < expected_events(s).len()
            && (#[trigger] expected_events(s)[i]).kind == PlannerEventKind::TaskNonStartContinued
            && expected_events(s)[i].task_ref == Some((s.tasks@[k].id@, s.tasks@[k].display_id)),
{
    let t = s.tasks@[k];
    let start = t.scheduled_at.unwrap();
    let grace = add_seconds_spec(start, (NON_START_GRACE_MINUTES * 60) as i64);
    assert(grace == start + 900);
    let m = non_start_model(s, t, grace);
    let step = start_fold(s, k + 1);
    assert(step == start_step(s, t, start_fold(s, k)));
    assert(!is_active(s, t.id@));
    lemma_push_new_grows(s, start_fold(s, k).0, m);
    lemma_start_fold_grows(s, k + 1, s.tasks@.len() as int);
    lemma_after_starts_returned(s);
    lemma_within_transitive(step.0, after_starts(s).0, expected_events(s));
    lemma_returned_from(s, step.0, m);
}

/// A work session judged outside the usual band raises an overrun
/// check-in: when its task is neither fixed nor finished and the session's
/// band (its progress band when it has one, else its distribution band) is
/// not the usual one, the due events hold a `DistributionOverrun` for the
/// task with that band, unless the ledger already committed it.
pub proof fn lemma_overrun_check_in_raised(s: EvaluationSnapshot, j: int, k: int)
    requires
        0 <= j < s.work@.len(),
        is_session_task(s, s.work@[j], k),
        !s.tasks@[k].fixed,
        s.tasks@[k].status != TaskStatus::Completed,
        s.tasks@[k].status != TaskStatus::Skipped,
        (match s.work@[j].progress_band { Some(b) => b, None => s.work@[j].distribution_band }) != InterventionBand::Usual,
        !committed(s.ledger, distribution_model(s, s.tasks@[k], s.work@[j], work_band(s.work@[j])).id),
    ensures
        exists|i: int| 0 <= i < expected_events(s).len()
            && (#[trigger] expected_events(s)[i]).kind == PlannerEventKind::DistributionOverrun
            && expected_events(s)[i].task_ref == Some((s.tasks@[k].id@, s.tasks@[k].display_id))
            && expected_events(s)[i].band == Some(match s.work@[j].progress_band { Some(b) => b, None => s.work@[j].distribution_band }),
{
    let w = s.work@[j];
    let t = s.tasks@[k];
    lemma_last_task_index(s.tasks@, w.task_id@, s.tasks@.len() as int);
    assert(last_task_index(s.tasks@, w.task_id@, s.tasks@.len() as int) == Some(k)) by {
        match last_task_index(s.tasks@, w.task_id@, s.tasks@.len() as int) {
            Some(k2) => {
                if k2 < k { assert(s.tasks@[k].id@ == w.task_id@); }
                if k2 > k { assert(s.tasks@[k2].id@ != w.task_id@); }
            },
            None => { assert(s.tasks@[k].id@ == w.task_id@); },
        }
    }
    let prev = work_fold(s, j, after_starts(s));
    let step = work_fold(s, j + 1, after_starts(s));
    assert(step == work_step(s, w, prev));
    let band = work_band(w);
    let m = distribution_model(s, t, w, band);
    let ev1 = push_new(s, prev.0, m);
    lemma_push_new_grows(s, prev.0, m);
    lemma_push_new_grows(s, ev1, deadline_model(s, t));
    lemma_work_fold_grows(s, j + 1, s.work@.len() as int, after_starts(s));
    lemma_after_work_returned(s);
    lemma_within_transitive(step.0, after_work(s).0, expected_events(s));
    if add_seconds_spec(s.now, w.remaining_seconds) > t.deadline_at {
        lemma_within_transitive(ev1, step.0, expected_events(s));
    } else {
        assert(step.0 == ev1);
    }
    lemma_returned_from(s, ev1, m);
}

/// An unclassified gap that has lasted 30 minutes raises a capture
/// check-in: when the gap covers now and began 30 minutes or more ago, the
/// due events hold an `UnclassifiedGapContinued` due when those 30 minutes
/// were up, unless the ledger already committed it.
pub proof fn lemma_gap_check_in_raised(s: EvaluationSnapshot, j: int)
    requires
        0 <= j < s.gaps@.len(),
        s.gaps@[j].kind == GapKind::Unclassified,
        s.gaps@[j].end_at > s.now,
        in_timestamp_range(s.gaps@[j].start_at + 1800),
        s.gaps@[j].start_at + 1800 <= s.now,
        !committed(s.ledger, event_id_text(
            PlannerEventKind::UnclassifiedGapContinued, gap_identity(s.gaps@[j]), s.schedule_revision, None, s.gaps@[j].start_at, "gap"@)),
    ensures
        exists|i: int| 0 <= i < expected_events(s).len()
            && (#[trigger] expected_events(s)[i]).kind == PlannerEventKind::UnclassifiedGapContinued
            && expected_events(s)[i].due_at == s.gaps@[j].start_at + 1800,
{
    let g = s.gaps@[j];
    let threshold = add_seconds_spec(g.start_at, (UNCLASSIFIED_GAP_THRESHOLD_MINUTES * 60) as i64);
    assert(threshold == g.start_at + 1800);
    let m = gap_model(s, g, threshold);
    let step = gap_fold(s, j + 1, after_work(s));
    assert(step == gap_step(s, g, gap_fold(s, j, after_work(s))));
    lemma_push_new_grows(s, gap_fold(s, j, after_work(s)).0, m);
    lemma_gap_fold_grows_from(s, j + 1, s.gaps@.len() as int, after_work(s));
    lemma_candidates_returned(s);
    lemma_within_transitive(step.0, after_gaps(s).0, expected_events(s));
    lemma_returned_from(s, step.0, m);
}

/// Unplaced tasks raise a generation-failure alert, a detected sleep
/// impact raises a sleep alert, and an unfinished task scheduled a day or
/// more ago raises a carry-over check-in; each unless the ledger already
/// committed it.
pub proof fn lemma_alerts_raised(s: EvaluationSnapshot, k: int)
    ensures
        s.unplaced_task_ids@.len() > 0 && !committed(s.ledger, event_id_text(
            PlannerEventKind::ScheduleGenerationFailure, Seq::empty(), s.schedule_revision, None, 0, "unplaced"@))
            ==> exists|i: int| 0 <= i < expected_events(s).len()
                && (#[trigger] expected_events(s)[i]).kind == PlannerEventKind::ScheduleGenerationFailure,
        s.sleep_impact matches Some(imp) && imp.detected && !committed(s.ledger, event_id_text(
            PlannerEventKind::SleepImpact, Seq::empty(), s.schedule_revision, None, 0, "sleep"@))
            ==> exists|i: int| 0 <= i < expected_events(s).len()
                && (#[trigger] expected_events(s)[i]).kind == PlannerEventKind::SleepImpact,
        0 <= k < s.tasks@.len() && s.tasks@[k].status != TaskStatus::Completed && s.tasks@[k].status != TaskStatus::Skipped
            && (s.tasks@[k].scheduled_at matches Some(x) && s.now - x >= 86400
                && !committed(s.ledger, event_id_text(
                    PlannerEventKind::CarriedOverIncomplete, s.tasks@[k].id@, s.schedule_revision, None, x, "carry-over"@)))
            ==> exists|i: int| 0 <= i < expected_events(s).len()
                && (#[trigger] expected_events(s)[i]).kind == PlannerEventKind::CarriedOverIncomplete
                && expected_events(s)[i].task_ref == Some((s.tasks@[k].id@, s.tasks@[k].display_id)),
{
    lemma_candidates_returned(s);
    if s.unplaced_task_ids@.len() > 0 && !committed(s.ledger, failure_model(s).id) {
        lemma_push_new_grows(s, after_gaps(s).0, failure_model(s));
        lemma_returned_from(s, after_failure(s), failure_model(s));
    }
    let carried = carry_fold(s, s.tasks@.len() as int, after_failure(s));
    if s.sleep_impact matches Some(imp) && imp.detected && !committed(s.ledger, sleep_model(s).id) {
        lemma_push_new_grows(s, carried, sleep_model(s));
        lemma_returned_from(s, candidate_events(s), sleep_model(s));
    }
    if 0 <= k < s.tasks@.len() && is_carried_over(s, s.tasks@[k]) && !committed(s.ledger, carry_model(s, s.tasks@[k]).id) {
        let t = s.tasks@[k];
        let m = carry_model(s, t);
        let step = carry_fold(s, k + 1, after_failure(s));
        lemma_push_new_grows(s, carry_fold(s, k, after_failure(s)), m);
        lemma_carry_fold_grows_from(s, k + 1, s.tasks@.len() as int, after_failure(s));
        lemma_push_new_grows(s, carried, sleep_model(s));
        lemma_within_transitive(step, carried, candidate_events(s));
        lemma_within_transitive(step, candidate_events(s), expected_events(s));
        lemma_returned_from(s, step, m);
    }
}


// ---------------------------------------------------------------------------
// The next evaluation
// ---------------------------------------------------------------------------

/// Whether the next evaluation is due at `b` or earlier.
pub open spec fn due_by(nx: Option<i64>, b: int) -> bool {
    nx matches Some(x) && x <= b
}

proof fn lemma_start_fold_keeps_bound(s: EvaluationSnapshot, i: int, n: int, b: int)
    requires
        0 <= i <= n,
        due_by(start_fold(s, i).1, b),
    ensures
        due_by(start_fold(s, n).1, b),
    decreases n,
{
    if n > i {
        lemma_start_fold_keeps_bound(s, i, n - 1, b);
    }
}

proof fn lemma_work_fold_keeps_bound(s: EvaluationSnapshot, i: int, n: int, acc: Acc, b: int)
    requires
        0 <= i <= n,
        due_by(work_fold(s, i, acc).1, b),
    ensures
        due_by(work_fold(s, n, acc).1, b),
    decreases n,
{
    if n > i {
        lemma_work_fold_keeps_bound(s, i, n - 1, acc, b);
    }
}

proof fn lemma_gap_fold_keeps_bound(s: EvaluationSnapshot, i: int, n: int, acc: Acc, b: int)
    requires
        0 <= i <= n,
        due_by(gap_fold(s, i, acc).1, b),
    ensures
        due_by(gap_fold(s, n, acc).1, b),
    decreases n,
{
    if n > i {
        lemma_gap_fold_keeps_bound(s, i, n - 1, acc, b);
    }
}

proof fn lemma_after_starts_bound(s: EvaluationSnapshot, b: int)
    requires
        due_by(after_starts(s).1, b),
    ensures
        due_by(expected_next(s), b),
{
    lemma_work_fold_keeps_bound(s, 0, s.work@.len() as int, after_starts(s), b);
    lemma_gap_fold_keeps_bound(s, 0, s.gaps@.len() as int, after_work(s), b);
}

/// Evaluation runs again no later than the scheduled start of an
/// unfinished task that lies ahead.
pub proof fn lemma_next_evaluation_by_start(s: EvaluationSnapshot, k: int)
    requires
        0 <= k < s.tasks@.len(),
        s.tasks@[k].status != TaskStatus::Completed,
        s.tasks@[k].status != TaskStatus::Skipped,
        s.tasks@[k].scheduled_at is Some,
        s.tasks@[k].scheduled_at.unwrap() > s.now,
    ensures
        due_by(expected_next(s), s.tasks@[k].scheduled_at.unwrap() as int),
{
    let start = s.tasks@[k].scheduled_at.unwrap();
    assert(start_fold(s, k + 1) == start_step(s, s.tasks@[k], start_fold(s, k)));
    lemma_start_fold_keeps_bound(s, k + 1, s.tasks@.len() as int, start as int);
    lemma_after_starts_bound(s, start as int);
}

/// Evaluation runs again no later than the end of the 15-minute grace
/// period of a task whose start has come but that is neither finished, in
/// progress nor worked on.
pub proof fn lemma_next_evaluation_by_grace(s: EvaluationSnapshot, k: int)
    requires
        0 <= k < s.tasks@.len(),
        s.tasks@[k].status != TaskStatus::Completed,
        s.tasks@[k].status != TaskStatus::Skipped,
        s.tasks@[k].status != TaskStatus::InProgress,
        forall|j: int| 0 <= j < s.work@.len() ==> (#[trigger] s.work@[j]).task_id@ != s.tasks@[k].id@,
        s.tasks@[k].scheduled_at is Some,
        s.tasks@[k].scheduled_at.unwrap() <= s.now,
        in_timestamp_range(s.tasks@[k].scheduled_at.unwrap() + 900),
        s.now < s.tasks@[k].scheduled_at.unwrap() + 900,
    ensures
        due_by(expected_next(s), s.tasks@[k].scheduled_at.unwrap() + 900),
{
    let t = s.tasks@[k];
    let start = t.scheduled_at.unwrap();
    assert(!is_active(s, t.id@));
    assert(add_seconds_spec(start, (NON_START_GRACE_MINUTES * 60) as i64) == start + 900);
    assert(start_fold(s, k + 1) == start_step(s, t, start_fold(s, k)));
    lemma_start_fold_keeps_bound(s, k + 1, s.tasks@.len() as int, start + 900);
    lemma_after_starts_bound(s, start + 900);
}

/// Evaluation runs again no later than the next band crossing of a work
/// session on an unfinished, non-fixed task.
pub proof fn lemma_next_evaluation_by_crossing(s: EvaluationSnapshot, j: int, k: int)
    requires
        0 <= j < s.work@.len(),
        is_session_task(s, s.work@[j], k),
        !s.tasks@[k].fixed,
        s.tasks@[k].status != TaskStatus::Completed,
        s.tasks@[k].status != TaskStatus::Skipped,
        s.work@[j].crossing_in_seconds is Some,
        in_timestamp_range(s.now + s.work@[j].crossing_in_seconds.unwrap()),
    ensures
        due_by(expected_next(s), s.now + s.work@[j].crossing_in_seconds.unwrap()),
{
    let w = s.work@[j];
    let c = w.crossing_in_seconds.unwrap();
    lemma_last_task_index(s.tasks@, w.task_id@, s.tasks@.len() as int);
    assert(last_task_index(s.tasks@, w.task_id@, s.tasks@.len() as int) == Some(k)) by {
        match last_task_index(s.tasks@, w.task_id@, s.tasks@.len() as int) {
            Some(k2) => {
                if k2 < k { assert(s.tasks@[k].id@ == w.task_id@); }
                if k2 > k { assert(s.tasks@[k2].id@ != w.task_id@); }
            },
            None => { assert(s.tasks@[k].id@ == w.task_id@); },
        }
    }
    assert(work_fold(s, j + 1, after_starts(s)) == work_step(s, w, work_fold(s, j, after_starts(s))));
    lemma_work_fold_keeps_bound(s, j + 1, s.work@.len() as int, after_starts(s), s.now + c);
    lemma_gap_fold_keeps_bound(s, 0, s.gaps@.len() as int, after_work(s), s.now + c);
}

/// Evaluation runs again no later than the moment an unclassified gap that
/// covers now reaches 30 minutes.
pub proof fn lemma_next_evaluation_by_gap(s: EvaluationSnapshot, j: int)
    requires
        0 <= j < s.gaps@.len(),
        s.gaps@[j].kind == GapKind::Unclassified,
        s.gaps@[j].start_at <= s.now,
        s.gaps@[j].end_at > s.now,
        in_timestamp_range(s.gaps@[j].start_at + 1800),
        s.gaps@[j].start_at + 1800 > s.now,
    ensures
        due_by(expected_next(s), s.gaps@[j].start_at + 1800),
{
    let g = s.gaps@[j];
    assert(add_seconds_spec(g.start_at, (UNCLASSIFIED_GAP_THRESHOLD_MINUTES * 60) as i64) == g.start_at + 1800);
    assert(gap_fold(s, j + 1, after_work(s)) == gap_step(s, g, gap_fold(s, j, after_work(s))));
    lemma_gap_fold_keeps_bound(s, j + 1, s.gaps@.len() as int, after_work(s), g.start_at + 1800);
}


/// The scheduled start of an unfinished task, ahead of now.
pub open spec fn start_boundary(s: EvaluationSnapshot, x: int) -> bool {
    exists|k: int| 0 <= k < s.tasks@.len()
        && (#[trigger] s.tasks@[k]).status != TaskStatus::Completed && s.tasks@[k].status != TaskStatus::Skipped
        && s.tasks@[k].scheduled_at == Some(x as i64) && x > s.now
}

/// The end of the grace period of a started task not yet worked on, ahead
/// of now.
pub open spec fn grace_boundary(s: EvaluationSnapshot, x: int) -> bool {
    exists|k: int| 0 <= k < s.tasks@.len()
        && (#[trigger] s.tasks@[k]).status != TaskStatus::Completed && s.tasks@[k].status != TaskStatus::Skipped
        && s.tasks@[k].status != TaskStatus::InProgress
        && (forall|j: int| 0 <= j < s.work@.len() ==> (#[trigger] s.work@[j]).task_id@ != s.tasks@[k].id@)
        && s.tasks@[k].scheduled_at is Some && s.tasks@[k].scheduled_at.unwrap() <= s.now
        && x == s.tasks@[k].scheduled_at.unwrap() + 900 && s.now < x
}

/// The next band crossing of a work session on an unfinished, non-fixed
/// task: now plus the seconds to the crossing, or now where that sum is not
/// a representable timestamp.
pub open spec fn crossing_boundary(s: EvaluationSnapshot, x: int) -> bool {
    exists|j: int, k: int| 0 <= j < s.work@.len() && #[trigger] is_session_task(s, s.work@[j], k)
        && !s.tasks@[k].fixed
        && s.tasks@[k].status != TaskStatus::Completed && s.tasks@[k].status != TaskStatus::Skipped
        && s.work@[j].crossing_in_seconds is Some
        && x == (if in_timestamp_range(s.now + s.work@[j].crossing_in_seconds.unwrap()) {
            s.now + s.work@[j].crossing_in_seconds.unwrap()
        } else {
            s.now as int
        })
}

/// The moment an unclassified gap covering now reaches 30 minutes, ahead
/// of now.
pub open spec fn gap_boundary(s: EvaluationSnapshot, x: int) -> bool {
    exists|j: int| 0 <= j < s.gaps@.len()
        && (#[trigger] s.gaps@[j]).kind == GapKind::Unclassified
        && s.gaps@[j].start_at <= s.now && s.gaps@[j].end_at > s.now
        && x == s.gaps@[j].start_at + 1800 && x > s.now
}

pub open spec fn known_boundary(s: EvaluationSnapshot, nx: Option<i64>) -> bool {
    nx matches Some(x) ==> (start_boundary(s, x as int) || grace_boundary(s, x as int)
        || crossing_boundary(s, x as int) || gap_boundary(s, x as int))
}

proof fn lemma_start_fold_boundary(s: EvaluationSnapshot, n: int)
    requires
        0 <= n <= s.tasks@.len(),
    ensures
        known_boundary(s, start_fold(s, n).1),
    decreases n,
{
    if n > 0 {
        lemma_start_fold_boundary(s, n - 1);
        let t = s.tasks@[n - 1];
        let k = n - 1;
        if !(is_terminal(t.status) || t.scheduled_at is None) {
            let start = t.scheduled_at.unwrap();
            if start > s.now {
                assert(start_boundary(s, start as int)) by {
                    assert(s.tasks@[k].scheduled_at == Some(start));
                }
            } else if t.status != TaskStatus::InProgress && !is_active(s, t.id@) {
                let grace = add_seconds_spec(start, (NON_START_GRACE_MINUTES * 60) as i64);
                if s.now < grace {
                    assert(grace == start + 900);
                    assert(grace_boundary(s, grace as int)) by {
                        assert forall|j: int| 0 <= j < s.work@.len() implies (#[trigger] s.work@[j]).task_id@ != s.tasks@[k].id@ by {
                            if s.work@[j].task_id@ == t.id@ {
                                assert(is_active(s, t.id@));
                            }
                        }
                    }
                }
            }
        }
    }
}

proof fn lemma_work_fold_boundary(s: EvaluationSnapshot, n: int, acc: Acc)
    requires
        0 <= n <= s.work@.len(),
        known_boundary(s, acc.1),
    ensures
        known_boundary(s, work_fold(s, n, acc).1),
    decreases n,
{
    if n > 0 {
        lemma_work_fold_boundary(s, n - 1, acc);
        let w = s.work@[n - 1];
        lemma_last_task_index(s.tasks@, w.task_id@, s.tasks@.len() as int);
        match last_task_index(s.tasks@, w.task_id@, s.tasks@.len() as int) {
            None => {},
            Some(k) => {
                let t = s.tasks@[k];
                if !(t.fixed || is_terminal(t.status)) {
                    if let Some(c) = w.crossing_in_seconds {
                        assert(is_session_task(s, s.work@[n - 1], k));
                        assert(crossing_boundary(s, add_seconds_spec(s.now, c) as int));
                    }
                }
            },
        }
    }
}

proof fn lemma_gap_fold_boundary(s: EvaluationSnapshot, n: int, acc: Acc)
    requires
        0 <= n <= s.gaps@.len(),
        known_boundary(s, acc.1),
    ensures
        known_boundary(s, gap_fold(s, n, acc).1),
    decreases n,
{
    if n > 0 {
        lemma_gap_fold_boundary(s, n - 1, acc);
        let g = s.gaps@[n - 1];
        if !(g.kind != GapKind::Unclassified || g.start_at > s.now || g.end_at <= s.now) {
            let threshold = add_seconds_spec(g.start_at, (UNCLASSIFIED_GAP_THRESHOLD_MINUTES * 60) as i64);
            if threshold > s.now {
                assert(threshold == g.start_at + 1800);
                assert(gap_boundary(s, threshold as int)) by {
                    assert(s.gaps@[n - 1] == g);
                }
            }
        }
    }
}

/// Evaluation is asked to run again only at a boundary it knows of: the
/// start of an unfinished task ahead of now, the end of the grace period of
/// a started task nobody works on, the next band crossing of a work
/// session, or the moment an unclassified gap reaches 30 minutes. With no
/// such boundary, no next evaluation is asked for.
pub proof fn lemma_next_evaluation_has_cause(s: EvaluationSnapshot)
    ensures
        known_boundary(s, expected_next(s)),
{
    lemma_start_fold_boundary(s, s.tasks@.len() as int);
    lemma_work_fold_boundary(s, s.work@.len() as int, after_starts(s));
    lemma_gap_fold_boundary(s, s.gaps@.len() as int, after_work(s));
}

} // verus!
