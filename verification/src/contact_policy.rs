//! Contact policy and speech policy.
//!
//! Two layers:
//!
//! 1. Resident authority filtering ([`filter_events`]): decides which planner
//!    events are committed to the shared ledger. It enforces the per-day cap,
//!    unresponsive-frequency decay and timed suppression.
//! 2. Device delivery mode ([`delivery_mode_for`]): each surface decides
//!    whether to speak, notify, suppress or defer an event, from its own
//!    speech capability, private channel state and quiet hours.
//!
//! Timestamps are Unix seconds.

use vstd::prelude::*;
use crate::clock::in_timestamp_range;
use crate::events::{PlannerEvent, PlannerEventKind, Urgency};
use crate::text::{append_str, string_of};

verus! {

/// Maximum number of proactive unknown-activity check-ins per day.
///
/// Start-time reminders, deadline notifications, routine cues and
/// current-task cards are not counted against this cap.
pub const DAILY_CHECK_IN_CAP: usize = 5;

/// Time window during which a "ほっといて" suppression applies.
pub const SUPPRESSION_MINUTES: i64 = 60;

/// After this many ignored proactive check-ins within a day, further
/// non-urgent proactive check-ins are suppressed for the rest of the day.
pub const IGNORED_DECAY_THRESHOLD: usize = 2;

pub open spec fn proactive_kind(kind: PlannerEventKind) -> bool {
    kind == PlannerEventKind::TaskNonStartContinued || kind == PlannerEventKind::UnclassifiedGapContinued
        || kind == PlannerEventKind::DistributionOverrun || kind == PlannerEventKind::CarriedOverIncomplete
}

pub open spec fn scheduled_kind(kind: PlannerEventKind) -> bool {
    kind == PlannerEventKind::TaskStartTimeReached || kind == PlannerEventKind::DeadlineViolation
}

/// Kinds of planner events that ask about unknown activity and count against
/// the daily check-in cap.
pub fn is_proactive_check_in(kind: PlannerEventKind) -> (r: bool)
    ensures
        r == proactive_kind(kind),
{
    matches!(
        kind,
        PlannerEventKind::TaskNonStartContinued | PlannerEventKind::UnclassifiedGapContinued
            | PlannerEventKind::DistributionOverrun | PlannerEventKind::CarriedOverIncomplete
    )
}

/// Kinds of events that are start-time or deadline notifications and are
/// excluded from the check-in cap.
pub fn is_scheduled_notification(kind: PlannerEventKind) -> (r: bool)
    ensures
        r == scheduled_kind(kind),
{
    matches!(kind, PlannerEventKind::TaskStartTimeReached | PlannerEventKind::DeadlineViolation)
}

/// Contact-policy state shared across a day, reconstructible from recent
/// ledger rows.
#[derive(Debug, Clone, PartialEq, Eq, Structural)]
pub struct ContactPolicyState {
    /// Proactive check-ins already committed today.
    pub proactive_check_in_count_today: usize,
    /// Proactive check-ins ignored today, used for frequency decay.
    pub ignored_check_in_count_today: usize,
    /// Time until which proactive contacts are suppressed.
    pub suppress_until: Option<i64>,
}

impl Default for ContactPolicyState {
    fn default() -> (r: Self)
        ensures
            r.proactive_check_in_count_today == 0,
            r.ignored_check_in_count_today == 0,
            r.suppress_until is None,
    {
        ContactPolicyState { proactive_check_in_count_today: 0, ignored_check_in_count_today: 0, suppress_until: None }
    }
}

/// A lightweight summary of an event already committed to the ledger.
#[derive(Debug, Clone)]
pub struct CommittedContactSummary {
    pub event_id: String,
    pub kind: Option<PlannerEventKind>,
    pub created_at: i64,
    /// Whether the event was delivered but ignored by the user.
    pub ignored: bool,
}

/// Whether a ledger row counts as a proactive check-in of the day.
pub open spec fn counts_today(row: CommittedContactSummary, today_start: i64, today_end: i64) -> bool {
    &&& today_start <= row.created_at <= today_end
    &&& row.kind matches Some(k) && proactive_kind(k)
}

/// Proactive check-ins of the day among the first `n` rows.
pub open spec fn proactive_count(rows: Seq<CommittedContactSummary>, n: int, today_start: i64, today_end: i64) -> nat
    decreases n,
{
    if n <= 0 {
        0
    } else {
        proactive_count(rows, n - 1, today_start, today_end)
            + if counts_today(rows[n - 1], today_start, today_end) { 1nat } else { 0nat }
    }
}

/// Ignored proactive check-ins of the day among the first `n` rows.
pub open spec fn ignored_count(rows: Seq<CommittedContactSummary>, n: int, today_start: i64, today_end: i64) -> nat
    decreases n,
{
    if n <= 0 {
        0
    } else {
        ignored_count(rows, n - 1, today_start, today_end)
            + if counts_today(rows[n - 1], today_start, today_end) && rows[n - 1].ignored { 1nat } else { 0nat }
    }
}

proof fn lemma_counts_bounded(rows: Seq<CommittedContactSummary>, n: int, today_start: i64, today_end: i64)
    requires
        0 <= n,
    ensures
        ignored_count(rows, n, today_start, today_end) <= proactive_count(rows, n, today_start, today_end) <= n,
    decreases n,
{
    if n > 0 {
        lemma_counts_bounded(rows, n - 1, today_start, today_end);
    }
}

/// `now` moved by `minutes`, with saturating arithmetic; `now` itself when
/// the result is not a representable timestamp.
pub open spec fn add_minutes_spec(now: i64, minutes: i64) -> i64 {
    let t = clamp_i64(now + clamp_i64(minutes * 60));
    if in_timestamp_range(t) { t as i64 } else { now }
}

pub open spec fn clamp_i64(v: int) -> int {
    if v < i64::MIN { i64::MIN as int } else if v > i64::MAX { i64::MAX as int } else { v }
}

fn add_minutes(now: i64, minutes: i64) -> (r: i64)
    ensures
        r == add_minutes_spec(now, minutes),
{
    let m: i128 = minutes as i128 * 60;
    let m: i128 = if m < i64::MIN as i128 { i64::MIN as i128 } else if m > i64::MAX as i128 { i64::MAX as i128 } else { m };
    let t: i128 = now as i128 + m;
    let t: i128 = if t < i64::MIN as i128 { i64::MIN as i128 } else if t > i64::MAX as i128 { i64::MAX as i128 } else { t };
    if -377705023201i128 <= t && t <= 253402207200i128 {
        t as i64
    } else {
        now
    }
}

impl ContactPolicyState {
    /// Build contact state from the ledger rows committed today.
    ///
    /// Rows created outside `today_start..=today_end` are skipped; the others
    /// count when they are proactive check-ins, and as ignored when the user
    /// ignored them. A suppression that is not after `now` is dropped.
    pub fn from_ledger(
        committed_today: &[CommittedContactSummary],
        now: i64,
        today_start: i64,
        today_end: i64,
        suppress_until: Option<i64>,
    ) -> (r: Self)
        ensures
            r.proactive_check_in_count_today == proactive_count(committed_today@, committed_today@.len() as int, today_start, today_end),
            r.ignored_check_in_count_today == ignored_count(committed_today@, committed_today@.len() as int, today_start, today_end),
            r.suppress_until == (match suppress_until {
                Some(t) => if t > now { Some(t) } else { None },
                None => None,
            }),
    {
        let mut proactive: usize = 0;
        let mut ignored: usize = 0;
        let mut i: usize = 0;
        while i < committed_today.len()
            invariant
                i <= committed_today@.len(),
                proactive == proactive_count(committed_today@, i as int, today_start, today_end),
                ignored == ignored_count(committed_today@, i as int, today_start, today_end),
            decreases committed_today@.len() - i,
        {
            proof { lemma_counts_bounded(committed_today@, i as int, today_start, today_end); }
            let row = &committed_today[i];
            if row.created_at >= today_start && row.created_at <= today_end {
                let proactive_row = match row.kind {
                    Some(k) => is_proactive_check_in(k),
                    None => false,
                };
                if proactive_row {
                    proactive += 1;
                    if row.ignored {
                        ignored += 1;
                    }
                }
            }
            i += 1;
        }
        let suppress_until = match suppress_until {
            Some(t) => if t > now { Some(t) } else { None },
            None => None,
        };
        ContactPolicyState {
            proactive_check_in_count_today: proactive,
            ignored_check_in_count_today: ignored,
            suppress_until,
        }
    }

    pub open spec fn suppressed_at(self, now: i64) -> bool {
        self.suppress_until matches Some(t) && t > now
    }

    /// Whether an active suppression window covers `now`.
    pub fn is_suppressed(&self, now: i64) -> (r: bool)
        ensures
            r == self.suppressed_at(now),
    {
        match self.suppress_until {
            Some(t) => t > now,
            None => false,
        }
    }

    /// Record that a proactive check-in was delivered and ignored.
    pub fn mark_ignored(&mut self, now: i64)
        requires
            old(self).ignored_check_in_count_today < usize::MAX,
        ensures
            final(self).ignored_check_in_count_today == old(self).ignored_check_in_count_today + 1,
            final(self).proactive_check_in_count_today == old(self).proactive_check_in_count_today,
            final(self).suppress_until == old(self).suppress_until,
    {
        self.ignored_check_in_count_today += 1;
    }

    /// Start a timed suppression of `minutes` from `now`; an existing later
    /// suppression is kept.
    pub fn suppress_for(&mut self, now: i64, minutes: i64)
        ensures
            final(self).suppress_until == Some(match old(self).suppress_until {
                Some(existing) => if existing >= add_minutes_spec(now, minutes) { existing } else { add_minutes_spec(now, minutes) },
                None => add_minutes_spec(now, minutes),
            }),
            final(self).proactive_check_in_count_today == old(self).proactive_check_in_count_today,
            final(self).ignored_check_in_count_today == old(self).ignored_check_in_count_today,
    {
        let target = add_minutes(now, minutes);
        let until = match self.suppress_until {
            Some(existing) => if existing >= target { existing } else { target },
            None => target,
        };
        self.suppress_until = Some(until);
    }
}

/// A device-local speech policy.
#[derive(Debug, Clone, Copy, PartialEq, Eq, Structural)]
pub struct SpeechPolicy {
    /// Whether the device is allowed to speak proactively.
    pub can_speak_proactively: bool,
    /// Whether the user is currently in quiet hours (sleep, DND, etc.).
    pub quiet_hours: bool,
    /// Whether the audio path is private (earphones, headset, desktop).
    pub private_output: bool,
    /// Whether an explicit voice session is ongoing on this device.
    pub ongoing_voice_conversation: bool,
}

/// How a planner event should be delivered to a specific device.
#[derive(Debug, Clone, Copy, PartialEq, Eq, Structural)]
pub enum DeliveryMode {
    /// Speak the presentation via TTS on this device.
    Speak,
    /// Show a notification (or visual surface update) on this device.
    Notify,
    /// Drop the contact without re-asking.
    Suppress,
    /// Hold delivery until quiet hours end.
    DeferQuietHours,
}

/// Reason a contact was suppressed.
#[derive(Debug, Clone, Copy, PartialEq, Eq, Structural)]
pub enum SuppressionReason {
    /// Explicit "ほっといて" suppression is active.
    Suppressed,
    /// Daily proactive check-in cap reached.
    DailyCap,
    /// Frequency decay after repeated ignored check-ins.
    FrequencyDecay,
}

/// Result of filtering a batch of events through the resident contact
/// policy.
#[derive(Debug, Clone)]
pub struct ContactFilterResult {
    /// Events that should be committed to the ledger.
    pub committed: Vec<PlannerEvent>,
    /// Event IDs that were suppressed by policy, in order.
    pub suppressed_ids: Vec<String>,
    /// The reason for each suppression, by event id, in order.
    pub suppression_reasons: Vec<(String, SuppressionReason)>,
}

/// The reason recorded last for `id` among the pairs.
pub open spec fn last_reason(pairs: Seq<(String, SuppressionReason)>, id: Seq<char>) -> Option<SuppressionReason>
    decreases pairs.len(),
{
    if pairs.len() == 0 {
        None
    } else if pairs.last().0@ == id {
        Some(pairs.last().1)
    } else {
        last_reason(pairs.drop_last(), id)
    }
}

impl ContactFilterResult {
    /// The suppression reason for an event id, as a map keyed by id holds it
    /// (the last one recorded wins).
    pub fn reason_for(&self, id: &str) -> (r: Option<SuppressionReason>)
        ensures
            r == last_reason(self.suppression_reasons@, id@),
    {
        let mut n: usize = self.suppression_reasons.len();
        assert(self.suppression_reasons@.subrange(0, n as int) =~= self.suppression_reasons@);
        while n > 0
            invariant
                n <= self.suppression_reasons@.len(),
                last_reason(self.suppression_reasons@, id@) == last_reason(self.suppression_reasons@.subrange(0, n as int), id@),
            decreases n,
        {
            proof {
                assert(self.suppression_reasons@.subrange(0, n as int).drop_last()
                    =~= self.suppression_reasons@.subrange(0, n - 1));
            }
            if crate::text::str_eq(self.suppression_reasons[n - 1].0.as_str(), id) {
                return Some(self.suppression_reasons[n - 1].1);
            }
            n -= 1;
        }
        assert(self.suppression_reasons@.subrange(0, 0) =~= Seq::<(String, SuppressionReason)>::empty());
        None
    }
}

pub open spec fn is_urgent(u: Urgency) -> bool {
    u == Urgency::Emergency || u == Urgency::High
}

/// What the resident policy does with one event: `None` commits it.
pub open spec fn filter_decision(e: PlannerEvent, suppressed: bool, decayed: bool, count: nat) -> Option<SuppressionReason> {
    let urgent = is_urgent(e.urgency);
    if suppressed && !urgent && !scheduled_kind(e.kind) {
        Some(SuppressionReason::Suppressed)
    } else if proactive_kind(e.kind) && !urgent {
        if count >= DAILY_CHECK_IN_CAP {
            Some(SuppressionReason::DailyCap)
        } else if decayed {
            Some(SuppressionReason::FrequencyDecay)
        } else {
            None
        }
    } else {
        None
    }
}

/// Whether committing the event counts against the daily cap.
pub open spec fn counts_against_cap(e: PlannerEvent) -> bool {
    proactive_kind(e.kind) && !is_urgent(e.urgency)
}

/// Committed events, suppressed events with their reasons, and the running
/// proactive count, after the first `n` events.
pub struct FilterModel {
    pub committed: Seq<PlannerEvent>,
    pub suppressed: Seq<PlannerEvent>,
    pub reasons: Seq<SuppressionReason>,
    pub count: nat,
}

pub open spec fn filter_fold(events: Seq<PlannerEvent>, n: int, suppressed: bool, decayed: bool, count0: nat) -> FilterModel
    decreases n,
{
    if n <= 0 {
        FilterModel { committed: Seq::empty(), suppressed: Seq::empty(), reasons: Seq::empty(), count: count0 }
    } else {
        let m = filter_fold(events, n - 1, suppressed, decayed, count0);
        let e = events[n - 1];
        match filter_decision(e, suppressed, decayed, m.count) {
            Some(reason) => FilterModel {
                committed: m.committed,
                suppressed: m.suppressed.push(e),
                reasons: m.reasons.push(reason),
                count: m.count,
            },
            None => FilterModel {
                committed: m.committed.push(e),
                suppressed: m.suppressed,
                reasons: m.reasons,
                count: if counts_against_cap(e) { m.count + 1 } else { m.count },
            },
        }
    }
}

pub open spec fn filter_spec(events: Seq<PlannerEvent>, state: ContactPolicyState, now: i64) -> FilterModel {
    filter_fold(
        events,
        events.len() as int,
        state.suppressed_at(now),
        state.ignored_check_in_count_today >= IGNORED_DECAY_THRESHOLD,
        state.proactive_check_in_count_today as nat,
    )
}

proof fn lemma_filter_count(events: Seq<PlannerEvent>, n: int, suppressed: bool, decayed: bool, count0: nat)
    requires
        0 <= n,
    ensures
        filter_fold(events, n, suppressed, decayed, count0).count >= count0,
        count0 <= DAILY_CHECK_IN_CAP ==> filter_fold(events, n, suppressed, decayed, count0).count <= DAILY_CHECK_IN_CAP,
        count0 > DAILY_CHECK_IN_CAP ==> filter_fold(events, n, suppressed, decayed, count0).count == count0,
        filter_fold(events, n, suppressed, decayed, count0).committed.len()
            + filter_fold(events, n, suppressed, decayed, count0).suppressed.len() == n,
        filter_fold(events, n, suppressed, decayed, count0).reasons.len()
            == filter_fold(events, n, suppressed, decayed, count0).suppressed.len(),
    decreases n,
{
    if n > 0 {
        lemma_filter_count(events, n - 1, suppressed, decayed, count0);
    }
}

/// Filter planner events through the resident contact policy.
///
/// An active suppression drops every event that is neither urgent (high or
/// emergency) nor a scheduled notification. A non-urgent proactive check-in
/// is dropped once the daily cap is reached, or when ignored check-ins have
/// reached the decay threshold; otherwise it is committed and counted. All
/// other events are committed.
pub fn filter_events(events: Vec<PlannerEvent>, state: &mut ContactPolicyState, now: i64) -> (r: ContactFilterResult)
    ensures
        r.committed@ == filter_spec(events@, *old(state), now).committed,
        r.suppressed_ids@.len() == filter_spec(events@, *old(state), now).suppressed.len(),
        forall|i: int| 0 <= i < r.suppressed_ids@.len() ==>
            (#[trigger] r.suppressed_ids@[i])@ == filter_spec(events@, *old(state), now).suppressed[i].id@,
        r.suppression_reasons@.len() == r.suppressed_ids@.len(),
        forall|i: int| 0 <= i < r.suppression_reasons@.len() ==> {
            &&& (#[trigger] r.suppression_reasons@[i]).0@ == r.suppressed_ids@[i]@
            &&& r.suppression_reasons@[i].1 == filter_spec(events@, *old(state), now).reasons[i]
        },
        final(state).proactive_check_in_count_today == filter_spec(events@, *old(state), now).count,
        final(state).ignored_check_in_count_today == old(state).ignored_check_in_count_today,
        final(state).suppress_until == old(state).suppress_until,
{
    let ghost orig = events@;
    let ghost st0 = *state;
    let n = events.len();
    let suppressed = state.is_suppressed(now);
    let decayed = state.ignored_check_in_count_today >= IGNORED_DECAY_THRESHOLD;
    let mut src = events;
    let mut committed: Vec<PlannerEvent> = Vec::new();
    let mut suppressed_ids: Vec<String> = Vec::new();
    let mut suppression_reasons: Vec<(String, SuppressionReason)> = Vec::new();
    let mut i: usize = 0;
    while i < n
        invariant
            n == orig.len(),
            i <= n,
            suppressed == st0.suppressed_at(now),
            decayed == (st0.ignored_check_in_count_today >= IGNORED_DECAY_THRESHOLD),
            src@ == orig.subrange(i as int, n as int),
            ({
                let m = filter_fold(orig, i as int, suppressed, decayed, st0.proactive_check_in_count_today as nat);
                &&& committed@ == m.committed
                &&& suppressed_ids@.len() == m.suppressed.len()
                &&& forall|k: int| 0 <= k < suppressed_ids@.len() ==> (#[trigger] suppressed_ids@[k])@ == m.suppressed[k].id@
                &&& suppression_reasons@.len() == m.suppressed.len()
                &&& forall|k: int| 0 <= k < suppression_reasons@.len() ==> {
                    &&& (#[trigger] suppression_reasons@[k]).0@ == suppressed_ids@[k]@
                    &&& suppression_reasons@[k].1 == m.reasons[k]
                }
                &&& state.proactive_check_in_count_today == m.count
            }),
            state.ignored_check_in_count_today == st0.ignored_check_in_count_today,
            state.suppress_until == st0.suppress_until,
        decreases n - i,
    {
        proof { lemma_filter_count(orig, i as int, suppressed, decayed, st0.proactive_check_in_count_today as nat); }
        let event = src.remove(0);
        assert(event == orig[i as int]);
        let urgent = event.urgency == Urgency::Emergency || event.urgency == Urgency::High;
        let is_check_in = is_proactive_check_in(event.kind);
        let is_scheduled = is_scheduled_notification(event.kind);
        let reason: Option<SuppressionReason> = if suppressed && !urgent && !is_scheduled {
            Some(SuppressionReason::Suppressed)
        } else if is_check_in && !urgent {
            if state.proactive_check_in_count_today >= DAILY_CHECK_IN_CAP {
                Some(SuppressionReason::DailyCap)
            } else if decayed {
                Some(SuppressionReason::FrequencyDecay)
            } else {
                None
            }
        } else {
            None
        };
        let ghost before_ids = suppressed_ids@;
        let ghost before_reasons = suppression_reasons@;
        match reason {
            Some(why) => {
                let id = string_of(event.id.as_str());
                let id2 = string_of(event.id.as_str());
                suppressed_ids.push(id);
                suppression_reasons.push((id2, why));
                proof {
                    assert forall|k: int| 0 <= k < suppressed_ids@.len() implies
                        (#[trigger] suppressed_ids@[k])@ == filter_fold(orig, i as int + 1, suppressed, decayed, st0.proactive_check_in_count_today as nat).suppressed[k].id@ by {
                        if k < before_ids.len() {
                            assert(suppressed_ids@[k] == before_ids[k]);
                        }
                    }
                    assert forall|k: int| 0 <= k < suppression_reasons@.len() implies {
                        &&& (#[trigger] suppression_reasons@[k]).0@ == suppressed_ids@[k]@
                        &&& suppression_reasons@[k].1 == filter_fold(orig, i as int + 1, suppressed, decayed, st0.proactive_check_in_count_today as nat).reasons[k]
                    } by {
                        if k < before_reasons.len() {
                            assert(suppression_reasons@[k] == before_reasons[k]);
                            assert(suppressed_ids@[k] == before_ids[k]);
                        }
                    }
                }
            },
            None => {
                if is_check_in && !urgent {
                    state.proactive_check_in_count_today += 1;
                }
                committed.push(event);
            },
        }
        i += 1;
        proof {
            assert(src@ =~= orig.subrange(i as int, n as int));
        }
    }
    ContactFilterResult { committed, suppressed_ids, suppression_reasons }
}

pub open spec fn delivery_mode_spec(e: PlannerEvent, p: SpeechPolicy, state: ContactPolicyState, now: i64) -> DeliveryMode {
    let can_speak = p.can_speak_proactively && (p.private_output || p.ongoing_voice_conversation);
    let can_speak_private = p.can_speak_proactively && p.private_output;
    if p.quiet_hours {
        DeliveryMode::DeferQuietHours
    } else if state.suppressed_at(now) && e.urgency != Urgency::Emergency {
        DeliveryMode::Suppress
    } else if scheduled_kind(e.kind) {
        DeliveryMode::Notify
    } else if e.urgency == Urgency::High {
        if can_speak_private { DeliveryMode::Speak } else { DeliveryMode::Notify }
    } else if can_speak {
        DeliveryMode::Speak
    } else {
        DeliveryMode::Notify
    }
}

/// Decide how a single ledger event should be delivered to a device.
///
/// Quiet hours defer everything. An active suppression drops all but
/// emergencies. Scheduled notifications are notified. A high-urgency alert
/// is spoken only with proactive speech on a private channel; other events
/// are spoken with proactive speech on a private channel or in an ongoing
/// voice conversation, and notified otherwise.
pub fn delivery_mode_for(event: &PlannerEvent, policy: &SpeechPolicy, state: &ContactPolicyState, now: i64) -> (r: DeliveryMode)
    ensures
        r == delivery_mode_spec(*event, *policy, *state, now),
{
    if policy.quiet_hours {
        return DeliveryMode::DeferQuietHours;
    }
    if state.is_suppressed(now) && event.urgency != Urgency::Emergency {
        return DeliveryMode::Suppress;
    }
    let is_scheduled = is_scheduled_notification(event.kind);
    let can_speak = policy.can_speak_proactively && (policy.private_output || policy.ongoing_voice_conversation);
    let can_speak_private = policy.can_speak_proactively && policy.private_output;
    if is_scheduled {
        return DeliveryMode::Notify;
    }
    if event.urgency == Urgency::High {
        if can_speak_private {
            return DeliveryMode::Speak;
        }
        return DeliveryMode::Notify;
    }
    if can_speak {
        DeliveryMode::Speak
    } else {
        DeliveryMode::Notify
    }
}

/// Whether a delay or snooze is followed by the one-time postpone reason
/// hook: short snoozes of up to 30 minutes never ask.
pub fn should_ask_postpone_reason(snooze_minutes: i64) -> (r: bool)
    ensures
        r == (snooze_minutes > 30),
{
    snooze_minutes > 30
}

pub open spec fn postpone_reason_text(task_title: Seq<char>) -> Seq<char> {
    task_title + "をずらしました。なにか詰まってる? それとも時間だけ?"@
}

/// Template for the one-time postpone reason check-in.
pub fn postpone_reason_check_in(task_title: &str) -> (r: String)
    ensures
        r@ == postpone_reason_text(task_title@),
{
    let mut r = string_of(task_title);
    append_str(&mut r, "をずらしました。なにか詰まってる? それとも時間だけ?");
    r
}

/// Quiet hours defer every event, whatever its urgency.
pub proof fn lemma_quiet_hours_defer_everything(e: PlannerEvent, p: SpeechPolicy, state: ContactPolicyState, now: i64)
    requires
        p.quiet_hours,
    ensures
        delivery_mode_spec(e, p, state, now) == DeliveryMode::DeferQuietHours,
{
}

/// Outside quiet hours, a scheduled notification is never spoken.
pub proof fn lemma_scheduled_notifications_are_not_spoken(e: PlannerEvent, p: SpeechPolicy, state: ContactPolicyState, now: i64)
    requires
        scheduled_kind(e.kind),
    ensures
        delivery_mode_spec(e, p, state, now) != DeliveryMode::Speak,
{
}

/// Urgent events and scheduled notifications are never dropped by the cap
/// or by frequency decay, and emergencies are never dropped at all.
pub proof fn lemma_urgent_and_scheduled_bypass_cap(e: PlannerEvent, suppressed: bool, decayed: bool, count: nat)
    ensures
        (is_urgent(e.urgency) || scheduled_kind(e.kind)) ==> (
            filter_decision(e, suppressed, decayed, count) != Some(SuppressionReason::DailyCap)
            && filter_decision(e, suppressed, decayed, count) != Some(SuppressionReason::FrequencyDecay)),
        e.urgency == Urgency::Emergency ==> filter_decision(e, suppressed, decayed, count) is None,
{
}

/// Filtering splits the events into committed and suppressed ones, with one
/// reason per suppression, and never lifts the day's proactive count past
/// the daily cap (nor lowers it).
pub proof fn lemma_filter_respects_cap(events: Seq<PlannerEvent>, state: ContactPolicyState, now: i64)
    ensures
        filter_spec(events, state, now).committed.len() + filter_spec(events, state, now).suppressed.len() == events.len(),
        filter_spec(events, state, now).reasons.len() == filter_spec(events, state, now).suppressed.len(),
        filter_spec(events, state, now).count >= state.proactive_check_in_count_today,
        state.proactive_check_in_count_today <= DAILY_CHECK_IN_CAP ==> filter_spec(events, state, now).count <= DAILY_CHECK_IN_CAP,
        state.proactive_check_in_count_today > DAILY_CHECK_IN_CAP ==> filter_spec(events, state, now).count == state.proactive_check_in_count_today,
{
    lemma_filter_count(
        events,
        events.len() as int,
        state.suppressed_at(now),
        state.ignored_check_in_count_today >= IGNORED_DECAY_THRESHOLD,
        state.proactive_check_in_count_today as nat,
    );
}


/// How an event is delivered once neither quiet hours nor a suppression
/// stand in its way. A high-urgency alert that is not a scheduled
/// notification is spoken only where the device may speak proactively over
/// a private output, and notified otherwise, even during an ongoing voice
/// conversation. Another unscheduled event is spoken where the device may
/// speak proactively and either the output is private or a voice
/// conversation is going on, and notified otherwise. Nothing is spoken
/// without proactive speech.
pub proof fn lemma_who_hears_what(e: PlannerEvent, p: SpeechPolicy, state: ContactPolicyState, now: i64)
    requires
        !p.quiet_hours,
        !state.suppressed_at(now) || e.urgency == Urgency::Emergency,
        !scheduled_kind(e.kind),
    ensures
        e.urgency == Urgency::High ==> (delivery_mode_spec(e, p, state, now) == DeliveryMode::Speak
            <==> p.can_speak_proactively && p.private_output),
        e.urgency == Urgency::High ==> (delivery_mode_spec(e, p, state, now) == DeliveryMode::Notify
            <==> !(p.can_speak_proactively && p.private_output)),
        e.urgency != Urgency::High ==> (delivery_mode_spec(e, p, state, now) == DeliveryMode::Speak
            <==> p.can_speak_proactively && (p.private_output || p.ongoing_voice_conversation)),
        e.urgency != Urgency::High ==> (delivery_mode_spec(e, p, state, now) == DeliveryMode::Notify
            <==> !(p.can_speak_proactively && (p.private_output || p.ongoing_voice_conversation))),
        !p.can_speak_proactively ==> delivery_mode_spec(e, p, state, now) == DeliveryMode::Notify,
{
}


/// What the resident policy does with one event. Urgent events (high or
/// emergency) and scheduled notifications are always committed. During an
/// active suppression every other event is suppressed. Otherwise a
/// proactive check-in is dropped once the day's count has reached the cap
/// of 5, then when frequency decay is on, and committed else; any other
/// event is committed.
pub proof fn lemma_filter_decisions(e: PlannerEvent, suppressed: bool, decayed: bool, count: nat)
    ensures
        (e.urgency == Urgency::High || e.urgency == Urgency::Emergency || scheduled_kind(e.kind))
            ==> filter_decision(e, suppressed, decayed, count) is None,
        e.urgency == Urgency::Normal && !scheduled_kind(e.kind) && suppressed
            ==> filter_decision(e, suppressed, decayed, count) == Some(SuppressionReason::Suppressed),
        e.urgency == Urgency::Normal && !suppressed && proactive_kind(e.kind) && count >= 5
            ==> filter_decision(e, suppressed, decayed, count) == Some(SuppressionReason::DailyCap),
        e.urgency == Urgency::Normal && !suppressed && proactive_kind(e.kind) && count < 5 && decayed
            ==> filter_decision(e, suppressed, decayed, count) == Some(SuppressionReason::FrequencyDecay),
        e.urgency == Urgency::Normal && !suppressed && proactive_kind(e.kind) && count < 5 && !decayed
            ==> filter_decision(e, suppressed, decayed, count) is None,
        !suppressed && !proactive_kind(e.kind) ==> filter_decision(e, suppressed, decayed, count) is None,
{
}

proof fn lemma_filter_fold_places(events: Seq<PlannerEvent>, n: int, suppressed: bool, decayed: bool, count0: nat)
    requires
        0 <= n <= events.len(),
    ensures
        forall|i: int| 0 <= i < n && (is_urgent((#[trigger] events[i]).urgency) || scheduled_kind(events[i].kind))
            ==> filter_fold(events, n, suppressed, decayed, count0).committed.contains(events[i]),
        suppressed ==> forall|i: int| 0 <= i < n && !is_urgent((#[trigger] events[i]).urgency) && !scheduled_kind(events[i].kind)
            ==> filter_fold(events, n, suppressed, decayed, count0).suppressed.contains(events[i]),
    decreases n,
{
    if n > 0 {
        lemma_filter_fold_places(events, n - 1, suppressed, decayed, count0);
        let m = filter_fold(events, n - 1, suppressed, decayed, count0);
        let r = filter_fold(events, n, suppressed, decayed, count0);
        let e = events[n - 1];
        assert forall|i: int| 0 <= i < n && (is_urgent((#[trigger] events[i]).urgency) || scheduled_kind(events[i].kind))
            implies r.committed.contains(events[i]) by {
            if i < n - 1 {
                let x = choose|x: int| 0 <= x < m.committed.len() && m.committed[x] == events[i];
                if filter_decision(e, suppressed, decayed, m.count) is None {
                    assert(r.committed[x] == m.committed[x]);
                }
            } else {
                assert(r.committed[m.committed.len() as int] == e);
            }
        }
        if suppressed {
            assert forall|i: int| 0 <= i < n && !is_urgent((#[trigger] events[i]).urgency) && !scheduled_kind(events[i].kind)
                implies r.suppressed.contains(events[i]) by {
                if i < n - 1 {
                    let x = choose|x: int| 0 <= x < m.suppressed.len() && m.suppressed[x] == events[i];
                    if filter_decision(e, suppressed, decayed, m.count) is Some {
                        assert(r.suppressed[x] == m.suppressed[x]);
                    }
                } else {
                    assert(r.suppressed[m.suppressed.len() as int] == e);
                }
            }
        }
    }
}

/// Filtering never drops an urgent event or a scheduled notification, and
/// during an active suppression it lets through nothing else.
pub proof fn lemma_filter_keeps_urgent_and_honours_suppression(events: Seq<PlannerEvent>, state: ContactPolicyState, now: i64)
    ensures
        forall|i: int| 0 <= i < events.len() && (is_urgent((#[trigger] events[i]).urgency) || scheduled_kind(events[i].kind))
            ==> filter_spec(events, state, now).committed.contains(events[i]),
        state.suppressed_at(now) ==> forall|i: int| 0 <= i < events.len()
            && !is_urgent((#[trigger] events[i]).urgency) && !scheduled_kind(events[i].kind)
            ==> filter_spec(events, state, now).suppressed.contains(events[i]),
{
    lemma_filter_fold_places(
        events,
        events.len() as int,
        state.suppressed_at(now),
        state.ignored_check_in_count_today >= IGNORED_DECAY_THRESHOLD,
        state.proactive_check_in_count_today as nat,
    );
}

} // verus!
