//! Quick-action capabilities: minting, the bounded in-memory store and the
//! authorization decisions around a one-shot action.
//!
//! Timestamps are Unix seconds.

use vstd::prelude::*;
use crate::clock::{hyphenated_uuid, in_timestamp_range, new_uuid_v7, now_seconds};
use crate::events::TaskStatus;
use crate::presentation::{Presentation, WorkTransition, WorkTransitionKind};
use crate::text::{append_str, i64_to_string, int_digits, str_eq, string_of};

verus! {

/// Default lifetime of a quick-action capability.
pub const CAPABILITY_TTL_MINUTES: i64 = 5;

/// Grace period after a scheduled notification's delivery time during which
/// its action capability stays valid.
pub const NOTIFICATION_GRACE_MINUTES: i64 = 30;

/// Maximum number of in-flight capabilities kept in memory.
pub const MAX_CAPABILITIES: usize = 256;

/// Largest quantity represented exactly in both JSON numbers and IEEE-754
/// doubles (`Number.MAX_SAFE_INTEGER`).
pub const MAX_SAFE_PROGRESS_QUANTITY: i64 = 9007199254740991;

/// Trusted input path for an action.
#[derive(Debug, Clone, Copy, PartialEq, Eq, Structural)]
pub enum InputPath {
    ScreenCapability,
    NotificationCapability,
    ExplicitVoiceSession,
    AmbientWakeWord,
    PlainText,
}

/// A quick action that a one-shot capability can authorize.
#[derive(Debug, Clone, Copy, PartialEq, Eq, Structural)]
pub enum QuickAction {
    Start,
    Pause,
    Progress,
    Complete,
    Delay,
}

/// A server-issued, one-shot action capability.
#[derive(Debug, Clone)]
pub struct ActionCapability {
    pub id: String,
    pub event_id: Option<String>,
    pub device_id: String,
    pub action: String,
    pub input_path: InputPath,
    pub expires_at: i64,
    pub one_shot: bool,
    /// The task this capability is authorized to act on.
    pub task_id: String,
    /// Snooze duration in minutes, present for `delay` capabilities.
    pub snooze_minutes: Option<i64>,
    /// Target `start_at` for `delay` capabilities.
    pub snooze_target: Option<i64>,
    /// Quantity completed, present for `progress` capabilities.
    pub quantity_done: Option<i64>,
    /// Note to attach with progress, present for `progress` capabilities.
    pub note: Option<String>,
    /// The scheduled delivery time for notification capabilities.
    pub scheduled_at: Option<i64>,
    /// The original request the capability was minted from.
    pub request: Option<CapabilityRequest>,
}

/// Request to mint a quick-action capability.
#[derive(Debug, Clone)]
pub struct CapabilityRequest {
    pub task_id: String,
    pub action: String,
    pub device_id: String,
    pub snooze_minutes: Option<i64>,
    pub snooze_target: Option<i64>,
    pub quantity_done: Option<i64>,
    pub note: Option<String>,
    pub scheduled_at: Option<i64>,
}

pub open spec fn quick_action_label(a: QuickAction) -> Seq<char> {
    match a {
        QuickAction::Start => "start"@,
        QuickAction::Pause => "pause"@,
        QuickAction::Progress => "progress"@,
        QuickAction::Complete => "complete"@,
        QuickAction::Delay => "delay"@,
    }
}

pub open spec fn parse_quick_action(s: Seq<char>) -> Option<QuickAction> {
    if s == "start"@ {
        Some(QuickAction::Start)
    } else if s == "pause"@ {
        Some(QuickAction::Pause)
    } else if s == "progress"@ {
        Some(QuickAction::Progress)
    } else if s == "complete"@ {
        Some(QuickAction::Complete)
    } else if s == "delay"@ {
        Some(QuickAction::Delay)
    } else {
        None
    }
}

impl QuickAction {
    /// The wire label.
    pub fn as_str(self) -> (s: &'static str)
        ensures
            s@ == quick_action_label(self),
    {
        match self {
            QuickAction::Start => "start",
            QuickAction::Pause => "pause",
            QuickAction::Progress => "progress",
            QuickAction::Complete => "complete",
            QuickAction::Delay => "delay",
        }
    }

    /// The wire label, as `Display` writes it.
    pub fn to_string(self) -> (s: String)
        ensures
            s@ == quick_action_label(self),
    {
        string_of(self.as_str())
    }

    /// Parse a wire label; `Err` for an unknown action.
    pub fn from_str(s: &str) -> (r: Result<QuickAction, &'static str>)
        ensures
            match parse_quick_action(s@) {
                Some(a) => r == Ok::<QuickAction, &'static str>(a),
                None => r is Err,
            },
    {
        if str_eq(s, "start") {
            Ok(QuickAction::Start)
        } else if str_eq(s, "pause") {
            Ok(QuickAction::Pause)
        } else if str_eq(s, "progress") {
            Ok(QuickAction::Progress)
        } else if str_eq(s, "complete") {
            Ok(QuickAction::Complete)
        } else if str_eq(s, "delay") {
            Ok(QuickAction::Delay)
        } else {
            Err("unknown quick action")
        }
    }
}

/// Why a quick action was refused.
#[derive(Debug, Clone, PartialEq, Eq, Structural)]
pub enum CapabilityError {
    Expired,
    Consumed,
    Mismatch,
    InvalidAction,
    InvalidTaskState,
    NoOpenWorkSession,
    NotScheduled,
    /// The quantity is larger than a progress record can carry.
    QuantityTooLarge(i64),
    MissingQuantity,
    MissingSnooze,
    InvalidSnooze,
}

pub open spec fn capability_error_text(e: CapabilityError) -> Seq<char> {
    match e {
        CapabilityError::Expired => "capability expired"@,
        CapabilityError::Consumed => "capability already consumed"@,
        CapabilityError::Mismatch => "capability mismatch"@,
        CapabilityError::InvalidAction => "invalid action"@,
        CapabilityError::InvalidTaskState => "task state does not allow this action"@,
        CapabilityError::NoOpenWorkSession => "no open work session for this "@ + "task"@,
        CapabilityError::NotScheduled => "task is not scheduled"@,
        CapabilityError::QuantityTooLarge(q) => "invalid quantity: quantity too large: "@ + int_digits(q as int),
        CapabilityError::MissingQuantity => "quantity not provided"@,
        CapabilityError::MissingSnooze => "snooze minutes not provided"@,
        CapabilityError::InvalidSnooze => "snooze minutes must be positive"@,
    }
}

impl CapabilityError {
    /// The error message.
    pub fn to_string(&self) -> (s: String)
        ensures
            s@ == capability_error_text(*self),
    {
        match self {
            CapabilityError::Expired => string_of("capability expired"),
            CapabilityError::Consumed => string_of("capability already consumed"),
            CapabilityError::Mismatch => string_of("capability mismatch"),
            CapabilityError::InvalidAction => string_of("invalid action"),
            CapabilityError::InvalidTaskState => string_of("task state does not allow this action"),
            CapabilityError::NoOpenWorkSession => {
                let mut m = string_of("no open work session for this ");
                append_str(&mut m, "task");
                m
            },
            CapabilityError::NotScheduled => string_of("task is not scheduled"),
            CapabilityError::QuantityTooLarge(q) => {
                let mut s = string_of("invalid quantity: quantity too large: ");
                let d = i64_to_string(*q);
                append_str(&mut s, d.as_str());
                s
            },
            CapabilityError::MissingQuantity => string_of("quantity not provided"),
            CapabilityError::MissingSnooze => string_of("snooze minutes not provided"),
            CapabilityError::InvalidSnooze => string_of("snooze minutes must be positive"),
        }
    }
}

/// Stored state of one capability.
#[derive(Debug, Clone)]
pub struct CapabilityRecord {
    pub request: CapabilityRequest,
    pub capability: ActionCapability,
    pub consumed: bool,
    pub result: Option<Presentation>,
    /// The action parsed on the first successful authorization.
    pub action: Option<QuickAction>,
    /// Target `start_at` captured on the first delay attempt, reused on
    /// retry so the move is idempotent.
    pub snooze_target: Option<i64>,
}

pub open spec fn opt_text_eq(a: Option<String>, b: Option<String>) -> bool {
    match (a, b) {
        (None, None) => true,
        (Some(x), Some(y)) => x@ == y@,
        _ => false,
    }
}

pub open spec fn request_eq(a: CapabilityRequest, b: CapabilityRequest) -> bool {
    &&& a.task_id@ == b.task_id@
    &&& a.action@ == b.action@
    &&& a.device_id@ == b.device_id@
    &&& a.snooze_minutes == b.snooze_minutes
    &&& a.snooze_target == b.snooze_target
    &&& a.quantity_done == b.quantity_done
    &&& opt_text_eq(a.note, b.note)
    &&& a.scheduled_at == b.scheduled_at
}

/// Field-by-field equality of two capabilities.
pub open spec fn capability_eq(a: ActionCapability, b: ActionCapability) -> bool {
    &&& a.id@ == b.id@
    &&& opt_text_eq(a.event_id, b.event_id)
    &&& a.device_id@ == b.device_id@
    &&& a.action@ == b.action@
    &&& a.input_path == b.input_path
    &&& a.expires_at == b.expires_at
    &&& a.one_shot == b.one_shot
    &&& a.task_id@ == b.task_id@
    &&& a.snooze_minutes == b.snooze_minutes
    &&& a.snooze_target == b.snooze_target
    &&& a.quantity_done == b.quantity_done
    &&& opt_text_eq(a.note, b.note)
    &&& a.scheduled_at == b.scheduled_at
    &&& match (a.request, b.request) {
        (None, None) => true,
        (Some(x), Some(y)) => request_eq(x, y),
        _ => false,
    }
}

/// Whether a client capability presents the stored one, letting the client
/// omit the server-computed `snooze_target`.
pub open spec fn presents(client: ActionCapability, stored: ActionCapability) -> bool {
    let target = if client.snooze_target is None { stored.snooze_target } else { client.snooze_target };
    capability_eq(ActionCapability { snooze_target: target, ..client }, stored)
}

/// Whether the request embedded in a capability disagrees with the
/// capability's own authoritative fields.
pub open spec fn request_tampered(c: ActionCapability) -> bool {
    c.request matches Some(r) && !(
        r.task_id@ == c.task_id@ && r.action@ == c.action@ && r.device_id@ == c.device_id@
            && r.snooze_minutes == c.snooze_minutes && r.quantity_done == c.quantity_done
            && opt_text_eq(r.note, c.note) && r.scheduled_at == c.scheduled_at
    )
}

fn opt_string_eq(a: &Option<String>, b: &Option<String>) -> (r: bool)
    ensures
        r == opt_text_eq(*a, *b),
{
    match (a, b) {
        (None, None) => true,
        (Some(x), Some(y)) => *x == *y,
        _ => false,
    }
}

fn requests_equal(a: &CapabilityRequest, b: &CapabilityRequest) -> (r: bool)
    ensures
        r == request_eq(*a, *b),
{
    a.task_id == b.task_id && a.action == b.action && a.device_id == b.device_id
        && a.snooze_minutes == b.snooze_minutes && a.snooze_target == b.snooze_target
        && a.quantity_done == b.quantity_done && opt_string_eq(&a.note, &b.note)
        && a.scheduled_at == b.scheduled_at
}

fn presents_stored(client: &ActionCapability, stored: &ActionCapability) -> (r: bool)
    ensures
        r == presents(*client, *stored),
{
    let target = if client.snooze_target.is_none() { stored.snooze_target } else { client.snooze_target };
    let requests = match (&client.request, &stored.request) {
        (None, None) => true,
        (Some(x), Some(y)) => requests_equal(x, y),
        _ => false,
    };
    client.id == stored.id && opt_string_eq(&client.event_id, &stored.event_id)
        && client.device_id == stored.device_id && client.action == stored.action
        && client.input_path == stored.input_path && client.expires_at == stored.expires_at
        && client.one_shot == stored.one_shot && client.task_id == stored.task_id
        && client.snooze_minutes == stored.snooze_minutes && target == stored.snooze_target
        && client.quantity_done == stored.quantity_done && opt_string_eq(&client.note, &stored.note)
        && client.scheduled_at == stored.scheduled_at && requests
}

fn is_request_tampered(c: &ActionCapability) -> (r: bool)
    ensures
        r == request_tampered(*c),
{
    match &c.request {
        Some(r) => !(r.task_id == c.task_id && r.action == c.action && r.device_id == c.device_id
            && r.snooze_minutes == c.snooze_minutes && r.quantity_done == c.quantity_done
            && opt_string_eq(&r.note, &c.note) && r.scheduled_at == c.scheduled_at),
        None => false,
    }
}

/// The outcome of the checks that precede any mutation.
#[derive(Debug, Clone, Copy, PartialEq, Eq, Structural)]
pub enum AuthorizeGate {
    /// The capability was already consumed: its stored result is replayed.
    Replay(QuickAction),
    /// The action may run.
    Proceed(QuickAction),
}

/// The action a capability names, as stored or parsed.
pub open spec fn gate_action(record: Option<CapabilityRecord>, c: ActionCapability) -> Option<QuickAction> {
    match record {
        Some(g) if g.action is Some => g.action,
        _ => parse_quick_action(c.action@),
    }
}

/// The stored capability after a delay capability gained its client-side
/// target.
pub open spec fn synced_capability(g: CapabilityRecord, c: ActionCapability, action: QuickAction) -> ActionCapability {
    if action == QuickAction::Delay && g.capability.snooze_target is None && c.snooze_target is Some {
        ActionCapability { snooze_target: c.snooze_target, ..g.capability }
    } else {
        g.capability
    }
}

/// The checks of a stored capability, in order: an unknown action, a replay
/// of a consumed one (or a mismatch with it), expiry, a mismatch with the
/// stored capability, and a tampered embedded request.
pub open spec fn gate_stored(g: CapabilityRecord, c: ActionCapability, now: i64) -> Result<AuthorizeGate, CapabilityError> {
    match gate_action(Some(g), c) {
        None => Err(CapabilityError::InvalidAction),
        Some(action) => if g.consumed {
            if !presents(c, g.capability) {
                Err(CapabilityError::Mismatch)
            } else if g.result is Some && g.action is Some {
                Ok(AuthorizeGate::Replay(g.action.unwrap()))
            } else {
                Err(CapabilityError::Consumed)
            }
        } else if c.expires_at < now {
            Err(CapabilityError::Expired)
        } else if !presents(c, synced_capability(g, c, action)) {
            Err(CapabilityError::Mismatch)
        } else if request_tampered(c) {
            Err(CapabilityError::Mismatch)
        } else {
            Ok(AuthorizeGate::Proceed(action))
        },
    }
}

/// The checks of a capability with no stored record.
pub open spec fn gate_unstored(c: ActionCapability, now: i64) -> Result<AuthorizeGate, CapabilityError> {
    match parse_quick_action(c.action@) {
        None => Err(CapabilityError::InvalidAction),
        Some(action) => if c.expires_at < now {
            Err(CapabilityError::Expired)
        } else if request_tampered(c) {
            Err(CapabilityError::Mismatch)
        } else {
            Ok(AuthorizeGate::Proceed(action))
        },
    }
}

/// Run the authorization checks of a stored capability at `now`. A delay
/// capability that gained its client-side target keeps it in the record;
/// nothing else in the record changes.
pub fn authorize_stored(record: &mut CapabilityRecord, capability: &ActionCapability, now: i64) -> (r: Result<AuthorizeGate, CapabilityError>)
    ensures
        r == gate_stored(*old(record), *capability, now),
        ({
            let g = *old(record);
            let synced = match gate_action(Some(g), *capability) {
                Some(action) => !g.consumed && capability.expires_at >= now
                    && action == QuickAction::Delay && g.capability.snooze_target is None
                    && capability.snooze_target is Some,
                None => false,
            };
            if synced {
                &&& final(record).capability == ActionCapability { snooze_target: capability.snooze_target, ..g.capability }
                &&& final(record).snooze_target == capability.snooze_target
                &&& final(record).request == g.request
                &&& final(record).consumed == g.consumed
                &&& final(record).result == g.result
                &&& final(record).action == g.action
            } else {
                *final(record) == g
            }
        }),
{
    let action = match record.action {
        Some(a) => a,
        None => match QuickAction::from_str(capability.action.as_str()) {
            Ok(a) => a,
            Err(_) => return Err(CapabilityError::InvalidAction),
        },
    };
    if record.consumed {
        if !presents_stored(capability, &record.capability) {
            return Err(CapabilityError::Mismatch);
        }
        if record.result.is_some() && record.action.is_some() {
            return Ok(AuthorizeGate::Replay(record.action.unwrap()));
        }
        return Err(CapabilityError::Consumed);
    }
    if capability.expires_at < now {
        return Err(CapabilityError::Expired);
    }
    if action == QuickAction::Delay && record.capability.snooze_target.is_none() && capability.snooze_target.is_some() {
        record.capability.snooze_target = capability.snooze_target;
        record.snooze_target = capability.snooze_target;
    }
    if !presents_stored(capability, &record.capability) {
        return Err(CapabilityError::Mismatch);
    }
    if is_request_tampered(capability) {
        return Err(CapabilityError::Mismatch);
    }
    Ok(AuthorizeGate::Proceed(action))
}

/// Run the authorization checks of a capability that has no stored record.
pub fn authorize_unstored(capability: &ActionCapability, now: i64) -> (r: Result<AuthorizeGate, CapabilityError>)
    ensures
        r == gate_unstored(*capability, now),
{
    let action = match QuickAction::from_str(capability.action.as_str()) {
        Ok(a) => a,
        Err(_) => return Err(CapabilityError::InvalidAction),
    };
    if capability.expires_at < now {
        return Err(CapabilityError::Expired);
    }
    if is_request_tampered(capability) {
        return Err(CapabilityError::Mismatch);
    }
    Ok(AuthorizeGate::Proceed(action))
}

/// The work a permitted action performs on the task.
#[derive(Debug, Clone, Copy, PartialEq, Eq, Structural)]
pub enum ActionPlan {
    Start,
    Pause,
    /// Record progress of `quantity` on the open work session.
    Progress { quantity: i64 },
    Complete,
    /// Move the task's entry to start at `target`.
    Delay { minutes: i64, target: i64 },
}

/// `now` moved by `minutes`, or `now` when that leaves the timestamp range.
pub open spec fn snooze_target_from(now: i64, minutes: i64) -> i64 {
    if in_timestamp_range(now + minutes * 60) { (now + minutes * 60) as i64 } else { now }
}

/// The plan for an action on a task with `status`, from the record's
/// capability, or the reason it is refused.
pub open spec fn plan_spec(action: QuickAction, g: CapabilityRecord, status: TaskStatus, now: i64) -> Result<ActionPlan, CapabilityError> {
    match action {
        QuickAction::Start => if status == TaskStatus::Scheduled || status == TaskStatus::Pending {
            Ok(ActionPlan::Start)
        } else {
            Err(CapabilityError::InvalidTaskState)
        },
        QuickAction::Pause => if status == TaskStatus::InProgress { Ok(ActionPlan::Pause) } else { Err(CapabilityError::InvalidTaskState) },
        QuickAction::Complete => if status == TaskStatus::InProgress { Ok(ActionPlan::Complete) } else { Err(CapabilityError::InvalidTaskState) },
        QuickAction::Progress => match g.capability.quantity_done {
            None => Err(CapabilityError::MissingQuantity),
            Some(q) => if q > MAX_SAFE_PROGRESS_QUANTITY {
                Err(CapabilityError::QuantityTooLarge(q))
            } else if status != TaskStatus::InProgress {
                Err(CapabilityError::InvalidTaskState)
            } else {
                Ok(ActionPlan::Progress { quantity: q })
            },
        },
        QuickAction::Delay => match g.capability.snooze_minutes {
            None => Err(CapabilityError::MissingSnooze),
            Some(m) => if m <= 0 {
                Err(CapabilityError::InvalidSnooze)
            } else {
                Ok(ActionPlan::Delay { minutes: m, target: delay_target_spec(g, m, now) })
            },
        },
    }
}

/// The delay target: the capability's own, else the one cached in the
/// record, else `minutes` from `now`.
pub open spec fn delay_target_spec(g: CapabilityRecord, minutes: i64, now: i64) -> i64 {
    match g.capability.snooze_target {
        Some(t) => t,
        None => match g.snooze_target {
            Some(t) => t,
            None => snooze_target_from(now, minutes),
        },
    }
}

/// Decide what a permitted action does to a task in `status`. A delay
/// computed from `now` caches its target in the record so a retry moves the
/// task to the same place; nothing else changes.
pub fn plan_action(action: QuickAction, record: &mut CapabilityRecord, status: TaskStatus, now: i64) -> (r: Result<ActionPlan, CapabilityError>)
    ensures
        r == plan_spec(action, *old(record), status, now),
        ({
            let g = *old(record);
            let computed = (r matches Ok(ActionPlan::Delay { .. })) && g.capability.snooze_target is None
                && g.snooze_target is None;
            let t = snooze_target_from(now, g.capability.snooze_minutes.unwrap());
            if computed {
                &&& final(record).snooze_target == Some(t)
                &&& final(record).capability == ActionCapability { snooze_target: Some(t), ..g.capability }
                &&& final(record).request == g.request
                &&& final(record).consumed == g.consumed
                &&& final(record).result == g.result
                &&& final(record).action == g.action
            } else {
                *final(record) == g
            }
        }),
{
    match action {
        QuickAction::Start => {
            if status == TaskStatus::Scheduled || status == TaskStatus::Pending {
                Ok(ActionPlan::Start)
            } else {
                Err(CapabilityError::InvalidTaskState)
            }
        },
        QuickAction::Pause => {
            if status == TaskStatus::InProgress { Ok(ActionPlan::Pause) } else { Err(CapabilityError::InvalidTaskState) }
        },
        QuickAction::Complete => {
            if status == TaskStatus::InProgress { Ok(ActionPlan::Complete) } else { Err(CapabilityError::InvalidTaskState) }
        },
        QuickAction::Progress => {
            let q = match record.capability.quantity_done {
                Some(q) => q,
                None => return Err(CapabilityError::MissingQuantity),
            };
            if q > MAX_SAFE_PROGRESS_QUANTITY {
                return Err(CapabilityError::QuantityTooLarge(q));
            }
            if status != TaskStatus::InProgress {
                return Err(CapabilityError::InvalidTaskState);
            }
            Ok(ActionPlan::Progress { quantity: q })
        },
        QuickAction::Delay => {
            let minutes = match record.capability.snooze_minutes {
                Some(m) => m,
                None => return Err(CapabilityError::MissingSnooze),
            };
            if minutes <= 0 {
                return Err(CapabilityError::InvalidSnooze);
            }
            let target = match record.capability.snooze_target {
                Some(t) => t,
                None => match record.snooze_target {
                    Some(t) => t,
                    None => {
                        let sum: i128 = now as i128 + minutes as i128 * 60;
                        let t = if -377705023201i128 <= sum && sum <= 253402207200i128 { sum as i64 } else { now };
                        record.snooze_target = Some(t);
                        record.capability.snooze_target = Some(t);
                        t
                    },
                },
            };
            Ok(ActionPlan::Delay { minutes, target })
        },
    }
}

pub open spec fn transition_kind(action: QuickAction) -> WorkTransitionKind {
    match action {
        QuickAction::Start => WorkTransitionKind::Start,
        QuickAction::Pause => WorkTransitionKind::Pause,
        QuickAction::Progress => WorkTransitionKind::Progress,
        QuickAction::Complete => WorkTransitionKind::Complete,
        QuickAction::Delay => WorkTransitionKind::Delay,
    }
}

/// The detail line of an executed plan: "{minutes}分後" for a delay.
pub open spec fn plan_detail(plan: ActionPlan) -> Seq<char> {
    match plan {
        ActionPlan::Delay { minutes, .. } => int_digits(minutes as int) + "分後"@,
        _ => Seq::empty(),
    }
}

pub open spec fn plan_action_kind(plan: ActionPlan) -> QuickAction {
    match plan {
        ActionPlan::Start => QuickAction::Start,
        ActionPlan::Pause => QuickAction::Pause,
        ActionPlan::Progress { .. } => QuickAction::Progress,
        ActionPlan::Complete => QuickAction::Complete,
        ActionPlan::Delay { .. } => QuickAction::Delay,
    }
}

/// The presentation of an executed plan on the task `#display_id` titled
/// `title`.
pub fn plan_result(plan: ActionPlan, display_id: i64, title: &str) -> (p: Presentation)
    ensures
        p matches Presentation::WorkTransition(t) && t.kind == transition_kind(plan_action_kind(plan))
            && t.reference@ == "#"@ + int_digits(display_id as int) && t.title@ == title@
            && t.detail@ == plan_detail(plan),
{
    let mut reference = string_of("#");
    let d = i64_to_string(display_id);
    append_str(&mut reference, d.as_str());
    let (kind, detail) = match plan {
        ActionPlan::Start => (WorkTransitionKind::Start, String::new()),
        ActionPlan::Pause => (WorkTransitionKind::Pause, String::new()),
        ActionPlan::Progress { .. } => (WorkTransitionKind::Progress, String::new()),
        ActionPlan::Complete => (WorkTransitionKind::Complete, String::new()),
        ActionPlan::Delay { minutes, .. } => {
            let mut detail = i64_to_string(minutes);
            append_str(&mut detail, "分後");
            (WorkTransitionKind::Delay, detail)
        },
    };
    Presentation::WorkTransition(WorkTransition { kind, reference, title: string_of(title), detail })
}

/// Record a successful execution: the capability is consumed and its result
/// and action are kept for replay.
pub fn record_success(record: &mut CapabilityRecord, result: Presentation, action: QuickAction)
    ensures
        final(record).consumed,
        final(record).result == Some(result),
        final(record).action == Some(action),
        final(record).capability == old(record).capability,
        final(record).request == old(record).request,
        final(record).snooze_target == old(record).snooze_target,
{
    record.consumed = true;
    record.result = Some(result);
    record.action = Some(action);
}

/// A replayed authorization returns the stored result with the stored
/// action, and only for a consumed record that the client presents
/// faithfully.
pub proof fn lemma_replay_needs_consumed_match(g: CapabilityRecord, c: ActionCapability, now: i64)
    ensures
        gate_stored(g, c, now) matches Ok(AuthorizeGate::Replay(a)) ==> {
            &&& g.consumed
            &&& presents(c, g.capability)
            &&& g.result is Some
            &&& g.action == Some(a)
        },
{
}

/// A capability that has not been consumed is refused once it has expired.
pub proof fn lemma_expired_is_refused(g: CapabilityRecord, c: ActionCapability, now: i64)
    requires
        !g.consumed,
        c.expires_at < now,
        gate_action(Some(g), c) is Some,
    ensures
        gate_stored(g, c, now) == Err::<AuthorizeGate, CapabilityError>(CapabilityError::Expired),
        parse_quick_action(c.action@) is Some ==> gate_unstored(c, now) == Err::<AuthorizeGate, CapabilityError>(CapabilityError::Expired),
{
}

impl Default for CapabilityRequest {
    fn default() -> (r: Self)
        ensures
            r.task_id@.len() == 0,
            r.action@.len() == 0,
            r.device_id@.len() == 0,
            r.snooze_minutes is None,
            r.snooze_target is None,
            r.quantity_done is None,
            r.note is None,
            r.scheduled_at is None,
    {
        CapabilityRequest {
            task_id: String::new(),
            action: String::new(),
            device_id: String::new(),
            snooze_minutes: None,
            snooze_target: None,
            quantity_done: None,
            note: None,
            scheduled_at: None,
        }
    }
}

/// Expiry of a capability minted at `now`: the scheduled delivery plus the
/// notification grace (or `now` when that is not representable), else the
/// default lifetime (clamped to the last representable second).
pub open spec fn mint_expiry(request: CapabilityRequest, now: i64) -> i64 {
    match request.scheduled_at {
        Some(s) => if in_timestamp_range(s + NOTIFICATION_GRACE_MINUTES * 60) {
            (s + NOTIFICATION_GRACE_MINUTES * 60) as i64
        } else {
            now
        },
        None => if in_timestamp_range(now + CAPABILITY_TTL_MINUTES * 60) {
            (now + CAPABILITY_TTL_MINUTES * 60) as i64
        } else {
            crate::clock::TIMESTAMP_MAX_SECOND
        },
    }
}

/// Whether a capability was minted from `request` with `id` at `now`.
pub open spec fn minted_from(c: ActionCapability, request: CapabilityRequest, input_path: InputPath, id: Seq<char>, now: i64) -> bool {
    &&& c.id@ == id
    &&& c.event_id is None
    &&& c.device_id@ == request.device_id@
    &&& c.action@ == request.action@
    &&& c.input_path == input_path
    &&& c.expires_at == mint_expiry(request, now)
    &&& c.one_shot
    &&& c.task_id@ == request.task_id@
    &&& c.snooze_minutes == request.snooze_minutes
    &&& c.snooze_target == request.snooze_target
    &&& c.quantity_done == request.quantity_done
    &&& opt_text_eq(c.note, request.note)
    &&& c.scheduled_at == request.scheduled_at
    &&& c.request == Some(request)
}

fn copy_opt_string(s: &Option<String>) -> (r: Option<String>)
    ensures
        opt_text_eq(r, *s),
{
    match s {
        Some(v) => Some(string_of(v.as_str())),
        None => None,
    }
}

/// Mint a capability with identifier `cap-{uuid}` at `now`.
pub fn mint_capability_with(request: CapabilityRequest, input_path: InputPath, uuid: &str, now: i64) -> (c: ActionCapability)
    ensures
        minted_from(c, request, input_path, "cap-"@ + uuid@, now),
{
    let mut id = string_of("cap-");
    append_str(&mut id, uuid);
    let expires_at = match request.scheduled_at {
        Some(s) => {
            let t: i128 = s as i128 + NOTIFICATION_GRACE_MINUTES as i128 * 60;
            if -377705023201i128 <= t && t <= 253402207200i128 { t as i64 } else { now }
        },
        None => {
            let t: i128 = now as i128 + CAPABILITY_TTL_MINUTES as i128 * 60;
            if -377705023201i128 <= t && t <= 253402207200i128 { t as i64 } else { crate::clock::TIMESTAMP_MAX_SECOND }
        },
    };
    ActionCapability {
        id,
        event_id: None,
        device_id: string_of(request.device_id.as_str()),
        action: string_of(request.action.as_str()),
        input_path,
        expires_at,
        one_shot: true,
        task_id: string_of(request.task_id.as_str()),
        snooze_minutes: request.snooze_minutes,
        snooze_target: request.snooze_target,
        quantity_done: request.quantity_done,
        note: copy_opt_string(&request.note),
        scheduled_at: request.scheduled_at,
        request: Some(request),
    }
}

/// Mint a new capability from a request, with a fresh time-ordered UUID and
/// the current time.
pub fn mint_capability(request: CapabilityRequest, input_path: InputPath) -> (c: ActionCapability)
    ensures
        exists|uuid: Seq<char>, now: i64| hyphenated_uuid(uuid) && #[trigger] minted_from(c, request, input_path, "cap-"@ + uuid, now),
{
    let uuid = new_uuid_v7();
    let now = now_seconds();
    mint_capability_with(request, input_path, uuid.as_str(), now)
}

/// A fresh record for a capability: not consumed, nothing cached.
pub open spec fn fresh_record(r: CapabilityRecord, request: CapabilityRequest, capability: ActionCapability) -> bool {
    &&& r.request == request
    &&& r.capability == capability
    &&& !r.consumed
    &&& r.result is None
    &&& r.action is None
    &&& r.snooze_target is None
}

/// The request a capability was minted from: its embedded copy, or one
/// rebuilt from its own fields.
pub open spec fn request_of(c: ActionCapability, r: CapabilityRequest) -> bool {
    match c.request {
        Some(req) => request_eq(r, req),
        None => {
            &&& r.task_id@ == c.task_id@
            &&& r.action@ == c.action@
            &&& r.device_id@ == c.device_id@
            &&& r.snooze_minutes == c.snooze_minutes
            &&& r.snooze_target == c.snooze_target
            &&& r.quantity_done == c.quantity_done
            &&& opt_text_eq(r.note, c.note)
            &&& r.scheduled_at == c.scheduled_at
        },
    }
}

fn request_from_capability(c: &ActionCapability) -> (r: CapabilityRequest)
    ensures
        request_of(*c, r),
{
    match &c.request {
        Some(req) => CapabilityRequest {
            task_id: string_of(req.task_id.as_str()),
            action: string_of(req.action.as_str()),
            device_id: string_of(req.device_id.as_str()),
            snooze_minutes: req.snooze_minutes,
            snooze_target: req.snooze_target,
            quantity_done: req.quantity_done,
            note: copy_opt_string(&req.note),
            scheduled_at: req.scheduled_at,
        },
        None => CapabilityRequest {
            task_id: string_of(c.task_id.as_str()),
            action: string_of(c.action.as_str()),
            device_id: string_of(c.device_id.as_str()),
            snooze_minutes: c.snooze_minutes,
            snooze_target: c.snooze_target,
            quantity_done: c.quantity_done,
            note: copy_opt_string(&c.note),
            scheduled_at: c.scheduled_at,
        },
    }
}

/// Whether two capability requests agree on every field.
pub open spec fn same_request(a: CapabilityRequest, b: CapabilityRequest) -> bool {
    request_eq(a, b)
}

/// A record a capability gets when it reaches the store without one.
pub open spec fn record_for(r: CapabilityRecord, c: ActionCapability) -> bool {
    &&& request_of(c, r.request)
    &&& capability_eq(r.capability, c)
    &&& !r.consumed
    &&& r.result is None
    &&& r.action is None
    &&& r.snooze_target is None
}

/// Whether a record may be evicted first: consumed or expired at `now`.
pub open spec fn evictable(r: CapabilityRecord, now: i64) -> bool {
    r.consumed || r.capability.expires_at <= now
}

/// Index of the first evictable record at or after `i`.
pub open spec fn first_evictable(rs: Seq<CapabilityRecord>, now: i64, i: int) -> Option<int>
    decreases rs.len() - i,
{
    if i < 0 || i >= rs.len() {
        None
    } else if evictable(rs[i], now) {
        Some(i)
    } else {
        first_evictable(rs, now, i + 1)
    }
}

/// The records after making room for one more: when full, the oldest
/// consumed or expired record goes, else the oldest record.
pub open spec fn after_evict(rs: Seq<CapabilityRecord>, now: i64) -> Seq<CapabilityRecord> {
    if rs.len() >= MAX_CAPABILITIES {
        match first_evictable(rs, now, 0) {
            Some(k) => rs.remove(k),
            None => rs.remove(0),
        }
    } else {
        rs
    }
}

/// Index of the record with capability id `id` at or after `i`.
pub open spec fn index_of(rs: Seq<CapabilityRecord>, id: Seq<char>, i: int) -> Option<int>
    decreases rs.len() - i,
{
    if i < 0 || i >= rs.len() {
        None
    } else if rs[i].capability.id@ == id {
        Some(i)
    } else {
        index_of(rs, id, i + 1)
    }
}

/// The records with `r` stored under its capability id: replaced in place
/// when the id is present, appended otherwise.
pub open spec fn with_record(rs: Seq<CapabilityRecord>, r: CapabilityRecord) -> Seq<CapabilityRecord> {
    match index_of(rs, r.capability.id@, 0) {
        Some(k) => rs.update(k, r),
        None => rs.push(r),
    }
}

pub open spec fn distinct_ids(rs: Seq<CapabilityRecord>) -> bool {
    forall|i: int, j: int| 0 <= i < j < rs.len() ==> (#[trigger] rs[i]).capability.id@ != (#[trigger] rs[j]).capability.id@
}

proof fn lemma_index_of(rs: Seq<CapabilityRecord>, id: Seq<char>, i: int)
    requires
        0 <= i,
    ensures
        index_of(rs, id, i) matches Some(k) ==> i <= k < rs.len() && rs[k].capability.id@ == id,
        index_of(rs, id, i) is None ==> forall|k: int| i <= k < rs.len() ==> (#[trigger] rs[k]).capability.id@ != id,
    decreases rs.len() - i,
{
    if i < rs.len() && rs[i].capability.id@ != id {
        lemma_index_of(rs, id, i + 1);
    }
}

proof fn lemma_first_evictable(rs: Seq<CapabilityRecord>, now: i64, i: int)
    requires
        0 <= i,
    ensures
        first_evictable(rs, now, i) matches Some(k) ==> i <= k < rs.len(),
    decreases rs.len() - i,
{
    if i < rs.len() && !evictable(rs[i], now) {
        lemma_first_evictable(rs, now, i + 1);
    }
}

proof fn lemma_remove_keeps_distinct(rs: Seq<CapabilityRecord>, k: int)
    requires
        distinct_ids(rs),
        0 <= k < rs.len(),
    ensures
        distinct_ids(rs.remove(k)),
{
    let r = rs.remove(k);
    assert forall|i: int, j: int| 0 <= i < j < r.len() implies (#[trigger] r[i]).capability.id@ != (#[trigger] r[j]).capability.id@ by {
        let a = if i < k { i } else { i + 1 };
        let b = if j < k { j } else { j + 1 };
        assert(r[i] == rs[a]);
        assert(r[j] == rs[b]);
    }
}

proof fn lemma_with_record_distinct(rs: Seq<CapabilityRecord>, rec: CapabilityRecord)
    requires
        distinct_ids(rs),
    ensures
        distinct_ids(with_record(rs, rec)),
        with_record(rs, rec).len() <= rs.len() + 1,
        index_of(rs, rec.capability.id@, 0) is Some ==> with_record(rs, rec).len() == rs.len(),
{
    lemma_index_of(rs, rec.capability.id@, 0);
    let w = with_record(rs, rec);
    assert forall|i: int, j: int| 0 <= i < j < w.len() implies (#[trigger] w[i]).capability.id@ != (#[trigger] w[j]).capability.id@ by {
        if index_of(rs, rec.capability.id@, 0) is None {
            if j == rs.len() {
                assert(w[i] == rs[i]);
            } else {
                assert(w[i] == rs[i] && w[j] == rs[j]);
            }
        }
    }
}

/// The records that are neither consumed nor expired at `now`, in order.
pub open spec fn retained(rs: Seq<CapabilityRecord>, now: i64) -> Seq<CapabilityRecord>
    decreases rs.len(),
{
    if rs.len() == 0 {
        rs
    } else {
        let prev = retained(rs.drop_last(), now);
        if !rs.last().consumed && rs.last().capability.expires_at > now { prev.push(rs.last()) } else { prev }
    }
}

/// Bounded in-memory store of capability records, in insertion order.
#[derive(Debug)]
pub struct CapabilityStore {
    records: Vec<CapabilityRecord>,
}

impl CapabilityStore {
    /// The stored records, oldest first.
    pub closed spec fn records_view(self) -> Seq<CapabilityRecord> {
        self.records@
    }

    /// At most [`MAX_CAPABILITIES`] records, with distinct capability ids.
    pub closed spec fn wf(self) -> bool {
        &&& self.records@.len() <= MAX_CAPABILITIES
        &&& distinct_ids(self.records@)
    }

    /// An empty store.
    pub fn new() -> (s: Self)
        ensures
            s.wf(),
            s.records_view().len() == 0,
    {
        CapabilityStore { records: Vec::new() }
    }

    /// Number of stored records.
    pub fn len(&self) -> (n: usize)
        ensures
            n == self.records_view().len(),
    {
        self.records.len()
    }

    fn evict_if_needed(&mut self, now: i64)
        requires
            old(self).wf(),
        ensures
            final(self).records@ == after_evict(old(self).records@, now),
            final(self).records@.len() < MAX_CAPABILITIES,
            distinct_ids(final(self).records@),
    {
        if self.records.len() >= MAX_CAPABILITIES {
            let mut k: usize = 0;
            while k < self.records.len() && !(self.records[k].consumed || self.records[k].capability.expires_at <= now)
                invariant
                    self.records@ == old(self).records@,
                    k <= self.records@.len(),
                    first_evictable(self.records@, now, 0) == first_evictable(self.records@, now, k as int),
                decreases self.records@.len() - k,
            {
                k += 1;
            }
            proof { lemma_first_evictable(self.records@, now, 0); }
            if k == self.records.len() {
                k = 0;
            }
            proof { lemma_remove_keeps_distinct(self.records@, k as int); }
            self.records.remove(k);
        }
    }

    fn find(&self, id: &String) -> (r: Option<usize>)
        ensures
            match r {
                Some(k) => index_of(self.records@, id@, 0) == Some(k as int) && k < self.records@.len(),
                None => index_of(self.records@, id@, 0) is None,
            },
    {
        let mut k: usize = 0;
        while k < self.records.len()
            invariant
                k <= self.records@.len(),
                index_of(self.records@, id@, 0) == index_of(self.records@, id@, k as int),
            decreases self.records@.len() - k,
        {
            if self.records[k].capability.id == *id {
                return Some(k);
            }
            k += 1;
        }
        None
    }

    fn store(&mut self, record: CapabilityRecord)
        requires
            old(self).records@.len() < MAX_CAPABILITIES,
            distinct_ids(old(self).records@),
        ensures
            final(self).records@ == with_record(old(self).records@, record),
            final(self).wf(),
    {
        proof { lemma_with_record_distinct(self.records@, record); }
        match self.find(&record.capability.id) {
            Some(k) => {
                self.records.set(k, record);
            },
            None => {
                self.records.push(record);
            },
        }
    }

    /// Store a freshly minted capability at `now`, making room first.
    pub fn insert_at(&mut self, request: CapabilityRequest, capability: ActionCapability, now: i64)
        requires
            old(self).wf(),
        ensures
            final(self).wf(),
            exists|r: CapabilityRecord| fresh_record(r, request, capability)
                && final(self).records_view() == with_record(after_evict(old(self).records_view(), now), r),
    {
        self.evict_if_needed(now);
        let record = CapabilityRecord {
            request,
            capability,
            consumed: false,
            result: None,
            action: None,
            snooze_target: None,
        };
        let ghost rec = record;
        self.store(record);
        assert(fresh_record(rec, request, capability));
    }

    /// Store a freshly minted capability, making room at the current time.
    pub fn insert(&mut self, request: CapabilityRequest, capability: ActionCapability)
        requires
            old(self).wf(),
        ensures
            final(self).wf(),
            exists|r: CapabilityRecord, now: i64| fresh_record(r, request, capability)
                && final(self).records_view() == with_record(after_evict(old(self).records_view(), now), r),
    {
        let now = now_seconds();
        self.insert_at(request, capability, now);
    }

    /// The record stored for capability `id`.
    pub fn get(&self, id: &String) -> (r: Option<&CapabilityRecord>)
        ensures
            match index_of(self.records_view(), id@, 0) {
                Some(k) => r == Some(&self.records_view()[k]),
                None => r is None,
            },
    {
        match self.find(id) {
            Some(k) => Some(&self.records[k]),
            None => None,
        }
    }

    /// Make sure the store holds a record for `capability`, adding one built
    /// from the capability's own fields when absent. Returns whether a
    /// record was already there.
    pub fn get_or_insert_at(&mut self, capability: &ActionCapability, now: i64) -> (existed: bool)
        requires
            old(self).wf(),
        ensures
            final(self).wf(),
            existed == (index_of(old(self).records_view(), capability.id@, 0) is Some),
            existed ==> final(self).records_view() == old(self).records_view(),
            !existed ==> exists|r: CapabilityRecord| record_for(r, *capability)
                && final(self).records_view() == with_record(after_evict(old(self).records_view(), now), r),
            index_of(final(self).records_view(), capability.id@, 0) is Some,
    {
        if self.find(&capability.id).is_some() {
            return true;
        }
        self.evict_if_needed(now);
        let record = CapabilityRecord {
            request: request_from_capability(capability),
            capability: copy_capability(capability),
            consumed: false,
            result: None,
            action: None,
            snooze_target: None,
        };
        let ghost rs = self.records@;
        let ghost rec = record;
        self.store(record);
        assert(record_for(rec, *capability));
        proof {
            lemma_index_of(rs, capability.id@, 0);
            lemma_index_of(self.records@, capability.id@, 0);
            if index_of(rs, capability.id@, 0) is None {
                assert(self.records@[rs.len() as int].capability.id@ == capability.id@);
            } else {
                let k = index_of(rs, capability.id@, 0).unwrap();
                assert(self.records@[k].capability.id@ == capability.id@);
            }
        }
        false
    }

    /// [`get_or_insert_at`](Self::get_or_insert_at) at the current time.
    pub fn get_or_insert(&mut self, capability: &ActionCapability) -> (existed: bool)
        requires
            old(self).wf(),
        ensures
            final(self).wf(),
            existed == (index_of(old(self).records_view(), capability.id@, 0) is Some),
            existed ==> final(self).records_view() == old(self).records_view(),
            index_of(final(self).records_view(), capability.id@, 0) is Some,
    {
        let now = now_seconds();
        self.get_or_insert_at(capability, now)
    }

    /// Write back a record that was authorized or executed: it overwrites
    /// the stored record with the same capability id, in place. Returns
    /// whether such a record was stored; otherwise nothing changes.
    pub fn replace(&mut self, record: CapabilityRecord) -> (replaced: bool)
        requires
            old(self).wf(),
        ensures
            final(self).wf(),
            replaced == (index_of(old(self).records_view(), record.capability.id@, 0) is Some),
            match index_of(old(self).records_view(), record.capability.id@, 0) {
                Some(k) => final(self).records_view() == old(self).records_view().update(k, record),
                None => final(self).records_view() == old(self).records_view(),
            },
    {
        match self.find(&record.capability.id) {
            Some(k) => {
                proof {
                    lemma_with_record_distinct(self.records@, record);
                }
                self.records.set(k, record);
                true
            },
            None => false,
        }
    }

    /// Drop consumed records and those expired at `now`, keeping the order
    /// of the rest.
    pub fn remove_expired_at(&mut self, now: i64)
        requires
            old(self).wf(),
        ensures
            final(self).wf(),
            final(self).records_view() == retained(old(self).records_view(), now),
    {
        let ghost rs = self.records@;
        let mut kept: Vec<CapabilityRecord> = Vec::new();
        let mut src = Vec::new();
        std::mem::swap(&mut src, &mut self.records);
        let n = src.len();
        let mut i: usize = 0;
        let ghost mut idx: Seq<int> = Seq::empty();
        while i < n
            invariant
                n == rs.len(),
                n <= MAX_CAPABILITIES,
                distinct_ids(rs),
                i <= n,
                src@ == rs.subrange(i as int, n as int),
                kept@ == retained(rs.subrange(0, i as int), now),
                idx.len() == kept@.len(),
                kept@.len() <= i,
                forall|a: int| 0 <= a < idx.len() ==> 0 <= #[trigger] idx[a] < i && kept@[a] == rs[idx[a]],
                forall|a: int, b: int| 0 <= a < b < idx.len() ==> #[trigger] idx[a] < #[trigger] idx[b],
            decreases n - i,
        {
            let r = src.remove(0);
            proof {
                assert(rs.subrange(0, i as int + 1).drop_last() =~= rs.subrange(0, i as int));
                assert(rs.subrange(0, i as int + 1).last() == r);
            }
            if !r.consumed && r.capability.expires_at > now {
                kept.push(r);
                proof { idx = idx.push(i as int); }
            }
            i += 1;
            proof { assert(src@ =~= rs.subrange(i as int, n as int)); }
        }
        proof {
            assert(rs.subrange(0, n as int) =~= rs);
            assert forall|a: int, b: int| 0 <= a < b < kept@.len() implies (#[trigger] kept@[a]).capability.id@ != (#[trigger] kept@[b]).capability.id@ by {
                assert(idx[a] < idx[b]);
            }
        }
        self.records = kept;
    }

    /// [`remove_expired_at`](Self::remove_expired_at) at the current time.
    pub fn remove_expired(&mut self)
        requires
            old(self).wf(),
        ensures
            final(self).wf(),
            exists|now: i64| final(self).records_view() == retained(old(self).records_view(), now),
    {
        let now = now_seconds();
        self.remove_expired_at(now);
    }
}

pub(crate) fn copy_capability(c: &ActionCapability) -> (r: ActionCapability)
    ensures
        capability_eq(r, *c),
{
    let request = match &c.request {
        Some(req) => Some(CapabilityRequest {
            task_id: string_of(req.task_id.as_str()),
            action: string_of(req.action.as_str()),
            device_id: string_of(req.device_id.as_str()),
            snooze_minutes: req.snooze_minutes,
            snooze_target: req.snooze_target,
            quantity_done: req.quantity_done,
            note: copy_opt_string(&req.note),
            scheduled_at: req.scheduled_at,
        }),
        None => None,
    };
    ActionCapability {
        id: string_of(c.id.as_str()),
        event_id: copy_opt_string(&c.event_id),
        device_id: string_of(c.device_id.as_str()),
        action: string_of(c.action.as_str()),
        input_path: c.input_path,
        expires_at: c.expires_at,
        one_shot: c.one_shot,
        task_id: string_of(c.task_id.as_str()),
        snooze_minutes: c.snooze_minutes,
        snooze_target: c.snooze_target,
        quantity_done: c.quantity_done,
        note: copy_opt_string(&c.note),
        scheduled_at: c.scheduled_at,
        request,
    }
}

/// The store never holds more than [`MAX_CAPABILITIES`] records, whatever
/// is inserted: insertion first makes room.
pub proof fn lemma_store_stays_bounded(rs: Seq<CapabilityRecord>, now: i64, r: CapabilityRecord)
    requires
        rs.len() <= MAX_CAPABILITIES,
        distinct_ids(rs),
    ensures
        with_record(after_evict(rs, now), r).len() <= MAX_CAPABILITIES,
{
    lemma_first_evictable(rs, now, 0);
    let e = after_evict(rs, now);
    if rs.len() >= MAX_CAPABILITIES {
        let k = match first_evictable(rs, now, 0) { Some(k) => k, None => 0 };
        lemma_remove_keeps_distinct(rs, k);
    }
    lemma_with_record_distinct(e, r);
}

/// When the store is full and some record is consumed or expired, making
/// room drops the oldest such record and keeps every unexpired, unconsumed
/// one.
pub proof fn lemma_eviction_prefers_spent_records(rs: Seq<CapabilityRecord>, now: i64, k: int)
    requires
        rs.len() >= MAX_CAPABILITIES,
        0 <= k < rs.len(),
        evictable(rs[k], now),
    ensures
        first_evictable(rs, now, 0) matches Some(f) && f <= k && evictable(rs[f], now)
            && after_evict(rs, now) == rs.remove(f),
{
    lemma_first_evictable_finds(rs, now, 0, k);
}

proof fn lemma_first_evictable_finds(rs: Seq<CapabilityRecord>, now: i64, i: int, k: int)
    requires
        0 <= i <= k < rs.len(),
        evictable(rs[k], now),
    ensures
        first_evictable(rs, now, i) matches Some(f) && i <= f <= k && evictable(rs[f], now),
    decreases k - i,
{
    if !evictable(rs[i], now) {
        lemma_first_evictable_finds(rs, now, i + 1, k);
    }
}

} // verus!
