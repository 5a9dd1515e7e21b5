//! Start-time notifications: the next scheduled task starts, each with a
//! check-in whose immediate actions carry one-shot capabilities.
//!
//! The host reads the schedule, resolves each entry's task and renders its
//! start time in the user's time zone; the selection and the cards are
//! built here. Timestamps are Unix seconds.

use vstd::prelude::*;
use vstd::string::*;
use crate::capability::{
    ActionCapability, CapabilityRequest, InputPath, capability_eq, copy_capability, mint_capability, minted_from,
};
use crate::presentation::{
    Action, ActionGroup, ActionKind, CheckInCard, CheckInKind, Presentation, pair_action_group,
    single_action_group,
};
use crate::text::{append_str, nat_digits, string_of, u64_to_string};

verus! {

/// A local notification to post at a task's start time.
#[derive(Debug, Clone)]
pub struct StartTimeNotification {
    pub task_id: String,
    /// Title of the notification.
    pub title: String,
    /// Body of the notification.
    pub body: String,
    /// When the notification should be delivered.
    pub scheduled_at: i64,
    /// The check-in card rendered for the task.
    pub check_in: Presentation,
}

/// The notifications to post.
#[derive(Debug, Clone)]
pub struct StartTimeNotificationList {
    pub notifications: Vec<StartTimeNotification>,
}

/// Request for start-time notifications.
#[derive(Debug, Clone)]
pub struct StartTimeNotificationRequest {
    /// Maximum number of upcoming start-time notifications to return.
    pub limit: usize,
    /// Device identifier bound into the issued capabilities.
    pub device_id: String,
    /// IANA or fixed-offset time zone used to format wall-clock times.
    pub tz: Option<String>,
}

impl Default for StartTimeNotificationRequest {
    fn default() -> (r: Self)
        ensures
            r.limit == 10,
            r.device_id@ == "mobile"@,
            r.tz is None,
    {
        StartTimeNotificationRequest { limit: default_limit(), device_id: default_device_id(), tz: None }
    }
}

/// The device a request binds capabilities to by default.
pub fn default_device_id() -> (r: String)
    ensures
        r@ == "mobile"@,
{
    string_of("mobile")
}

/// How many notifications a request asks for by default.
pub fn default_limit() -> (r: usize)
    ensures
        r == 10,
{
    10
}

/// A schedule entry as the host resolved it.
#[derive(Debug, Clone)]
pub struct UpcomingEntry {
    pub task_id: String,
    pub title: String,
    pub start_at: i64,
    /// The start time as `HH:MM` in the user's time zone.
    pub start_label: String,
    /// Whether the start falls today or tomorrow in the user's time zone.
    pub in_window: bool,
    /// Whether the entry's task exists and is scheduled.
    pub scheduled: bool,
}

/// A calendar date in the user's time zone.
#[derive(Debug, Clone, Copy, PartialEq, Eq, Structural)]
pub struct CivilDate {
    pub year: i16,
    pub month: i8,
    pub day: i8,
}

/// A number written with at least two digits, as `{:02}` writes it.
pub open spec fn two_digits(n: u8) -> Seq<char> {
    if n < 10 { "0"@ + nat_digits(n as nat) } else { nat_digits(n as nat) }
}

/// The wall-clock label `HH:MM` of an hour and a minute.
pub fn start_label(hour: u8, minute: u8) -> (r: String)
    ensures
        r@ == two_digits(hour) + ":"@ + two_digits(minute),
{
    let mut r = String::new();
    if hour < 10 {
        append_str(&mut r, "0");
    }
    let h = u64_to_string(hour as u64);
    append_str(&mut r, h.as_str());
    append_str(&mut r, ":");
    if minute < 10 {
        append_str(&mut r, "0");
    }
    let m = u64_to_string(minute as u64);
    append_str(&mut r, m.as_str());
    proof {
        reveal_strlit("");
        reveal_strlit("0");
        reveal_strlit(":");
        assert(r@ =~= two_digits(hour) + ":"@ + two_digits(minute));
    }
    r
}

/// Whether a start falls in the notification window: today or tomorrow in
/// the user's time zone (`tomorrow` is none when the calendar ends today).
pub fn in_notification_window(start: CivilDate, today: CivilDate, tomorrow: Option<CivilDate>) -> (r: bool)
    ensures
        r == (start == today || tomorrow == Some(start)),
{
    start == today || match tomorrow {
        Some(t) => t == start,
        None => false,
    }
}

/// A schedule entry as the notification selection reads it: its start as
/// Unix seconds and, in the user's time zone, its date and wall-clock time;
/// today's and tomorrow's dates in that zone.
pub fn upcoming_entry(
    task_id: &str,
    title: &str,
    start_at: i64,
    scheduled: bool,
    start_date: CivilDate,
    start_hour: u8,
    start_minute: u8,
    today: CivilDate,
    tomorrow: Option<CivilDate>,
) -> (r: UpcomingEntry)
    ensures
        r.task_id@ == task_id@,
        r.title@ == title@,
        r.start_at == start_at,
        r.start_label@ == two_digits(start_hour) + ":"@ + two_digits(start_minute),
        r.in_window == (start_date == today || tomorrow == Some(start_date)),
        r.scheduled == scheduled,
{
    UpcomingEntry {
        task_id: string_of(task_id),
        title: string_of(title),
        start_at,
        start_label: start_label(start_hour, start_minute),
        in_window: in_notification_window(start_date, today, tomorrow),
        scheduled,
    }
}

/// Whether an entry gets a notification at `now`.
pub open spec fn is_upcoming(e: UpcomingEntry, now: i64) -> bool {
    e.start_at > now && e.in_window && e.scheduled
}

pub open spec fn upcoming(es: Seq<UpcomingEntry>, now: i64, n: int) -> Seq<UpcomingEntry>
    decreases n,
{
    if n <= 0 {
        Seq::empty()
    } else if is_upcoming(es[n - 1], now) {
        upcoming(es, now, n - 1).push(es[n - 1])
    } else {
        upcoming(es, now, n - 1)
    }
}

/// Where a stable insertion puts an entry starting at `t` into `order`.
pub open spec fn time_insert_pos(es: Seq<UpcomingEntry>, order: Seq<int>, t: i64) -> int
    decreases order.len(),
{
    if order.len() == 0 || !(es[order.last()].start_at > t) {
        order.len() as int
    } else {
        time_insert_pos(es, order.drop_last(), t)
    }
}

/// The stable order of the first `n` entries by start time, as indices.
pub open spec fn time_order(es: Seq<UpcomingEntry>, n: int) -> Seq<int>
    decreases n,
{
    if n <= 0 {
        Seq::empty()
    } else {
        let o = time_order(es, n - 1);
        o.insert(time_insert_pos(es, o, es[n - 1].start_at), n - 1)
    }
}

/// The entries that get a notification, by start time (ties in their given
/// order), at most `limit` of them.
pub open spec fn selected(es: Seq<UpcomingEntry>, now: i64, limit: usize) -> Seq<UpcomingEntry> {
    let u = upcoming(es, now, es.len() as int);
    let sorted = time_order(u, u.len() as int).map_values(|k: int| u[k]);
    if sorted.len() > limit { sorted.subrange(0, limit as int) } else { sorted }
}

proof fn lemma_time_insert_pos(es: Seq<UpcomingEntry>, order: Seq<int>, t: i64)
    ensures
        0 <= time_insert_pos(es, order, t) <= order.len(),
    decreases order.len(),
{
    if order.len() > 0 && es[order.last()].start_at > t {
        lemma_time_insert_pos(es, order.drop_last(), t);
    }
}

proof fn lemma_time_order_shape(es: Seq<UpcomingEntry>, n: int)
    requires
        0 <= n,
    ensures
        time_order(es, n).len() == n,
        forall|j: int| 0 <= j < n ==> 0 <= #[trigger] time_order(es, n)[j] < n,
    decreases n,
{
    if n > 0 {
        lemma_time_order_shape(es, n - 1);
        let o = time_order(es, n - 1);
        lemma_time_insert_pos(es, o, es[n - 1].start_at);
        let p = time_insert_pos(es, o, es[n - 1].start_at);
        assert forall|j: int| 0 <= j < n implies 0 <= #[trigger] time_order(es, n)[j] < n by {
            if j < p {
                assert(time_order(es, n)[j] == o[j]);
            } else if j > p {
                assert(time_order(es, n)[j] == o[j - 1]);
            }
        }
    }
}

fn filter_upcoming(entries: Vec<UpcomingEntry>, now: i64) -> (r: Vec<UpcomingEntry>)
    ensures
        r@ == upcoming(entries@, now, entries@.len() as int),
{
    let ghost orig = entries@;
    let n = entries.len();
    let mut src = entries;
    let mut out: Vec<UpcomingEntry> = Vec::new();
    let mut i: usize = 0;
    while i < n
        invariant
            n == orig.len(),
            i <= n,
            src@ == orig.subrange(i as int, n as int),
            out@ == upcoming(orig, now, i as int),
        decreases n - i,
    {
        let e = src.remove(0);
        assert(e == orig[i as int]);
        if e.start_at > now && e.in_window && e.scheduled {
            out.push(e);
        }
        i += 1;
        assert(src@ =~= orig.subrange(i as int, n as int));
    }
    out
}

fn sort_by_start(entries: Vec<UpcomingEntry>) -> (out: Vec<UpcomingEntry>)
    ensures
        out@ == time_order(entries@, entries@.len() as int).map_values(|k: int| entries@[k]),
{
    let ghost orig = entries@;
    let n = entries.len();
    let mut src = entries;
    let mut out: Vec<UpcomingEntry> = Vec::new();
    let ghost mut order: Seq<int> = Seq::empty();
    let mut i: usize = 0;
    while i < n
        invariant
            n == orig.len(),
            i <= n,
            src@ == orig.subrange(i as int, n as int),
            order == time_order(orig, i as int),
            out@.len() == order.len(),
            forall|j: int| 0 <= j < order.len() ==> 0 <= #[trigger] order[j] < i,
            forall|j: int| 0 <= j < order.len() ==> out@[j] == orig[#[trigger] order[j]],
        decreases n - i,
    {
        proof { lemma_time_order_shape(orig, i as int); }
        let e = src.remove(0);
        assert(e == orig[i as int]);
        let mut j: usize = out.len();
        assert(order.subrange(0, j as int) =~= order);
        while j > 0 && out[j - 1].start_at > e.start_at
            invariant
                j <= out@.len(),
                out@.len() == order.len(),
                forall|m: int| 0 <= m < order.len() ==> 0 <= #[trigger] order[m] < i,
                forall|m: int| 0 <= m < order.len() ==> out@[m] == orig[#[trigger] order[m]],
                i < n,
                n == orig.len(),
                e == orig[i as int],
                time_insert_pos(orig, order, e.start_at) == time_insert_pos(orig, order.subrange(0, j as int), e.start_at),
            decreases j,
        {
            proof {
                assert(order.subrange(0, j as int).drop_last() =~= order.subrange(0, j - 1));
                assert(out@[j - 1] == orig[order[j - 1]]);
            }
            j -= 1;
        }
        proof {
            if j > 0 {
                assert(out@[j - 1] == orig[order[j - 1]]);
            }
        }
        let ghost old_out = out@;
        out.insert(j, e);
        proof {
            order = order.insert(j as int, i as int);
            assert forall|m: int| 0 <= m < order.len() implies out@[m] == orig[#[trigger] order[m]] by {
                if m < j {
                    assert(out@[m] == old_out[m]);
                } else if m > j {
                    assert(out@[m] == old_out[m - 1]);
                }
            }
        }
        i += 1;
        proof {
            assert(src@ =~= orig.subrange(i as int, n as int));
        }
    }
    proof {
        lemma_time_order_shape(orig, n as int);
        assert(out@ =~= time_order(orig, n as int).map_values(|k: int| orig[k]));
    }
    out
}

/// The entries that get a notification at `now`: upcoming, in the window,
/// with a scheduled task; earliest first (stable), at most `limit`.
pub fn select_upcoming(entries: Vec<UpcomingEntry>, now: i64, limit: usize) -> (r: Vec<UpcomingEntry>)
    ensures
        r@ == selected(entries@, now, limit),
{
    let kept = filter_upcoming(entries, now);
    let mut sorted = sort_by_start(kept);
    if sorted.len() > limit {
        sorted.truncate(limit);
    }
    sorted
}

/// Whether an action carries a copy of the capability under its id.
pub open spec fn capability_action(a: Action, c: ActionCapability, label: Seq<char>) -> bool {
    &&& a.id@ == c.id@
    &&& a.label@ == label
    &&& a.kind == ActionKind::Immediate
    &&& a.capability matches Some(x) && capability_eq(x, c)
}

/// The check-in of a start-time notification: 「行動」 starts the task with
/// the start capability; 「ズラす」 snoozes it ten minutes with the snooze
/// capability or opens the task's replanning panel.
pub open spec fn notification_card(card: CheckInCard, question: Seq<char>, start: ActionCapability, snooze: ActionCapability, task_id: Seq<char>, title: Seq<char>) -> bool {
    &&& card.question@ == question + " ("@ + title + ")"@
    &&& card.kind == CheckInKind::Default
    &&& card.act.title@ == "行動"@
    &&& card.act.actions.items_view().len() == 1
    &&& capability_action(card.act.actions.items_view()[0], start, "着手"@)
    &&& card.shift.title@ == "ズラす"@
    &&& card.shift.actions.items_view().len() == 2
    &&& capability_action(card.shift.actions.items_view()[0], snooze, "10分後"@)
    &&& crate::presentation::plain_action(card.shift.actions.items_view()[1], task_id, "組み直す"@, ActionKind::Panel)
}

/// Build the check-in card of a start-time notification.
pub fn build_check_in(question: &str, start_cap: &ActionCapability, snooze_cap: &ActionCapability, task_id: &str, title: &str) -> (r: CheckInCard)
    ensures
        notification_card(r, question@, *start_cap, *snooze_cap, task_id@, title@),
{
    let start = Action {
        id: string_of(start_cap.id.as_str()),
        label: string_of("着手"),
        kind: ActionKind::Immediate,
        capability: Some(copy_capability(start_cap)),
    };
    let act = single_action_group("行動", start);
    let snooze = Action {
        id: string_of(snooze_cap.id.as_str()),
        label: string_of("10分後"),
        kind: ActionKind::Immediate,
        capability: Some(copy_capability(snooze_cap)),
    };
    let replan = crate::presentation::make_action(task_id, "組み直す", ActionKind::Panel);
    let shift = pair_action_group("ズラす", snooze, replan);
    let mut q = string_of(question);
    append_str(&mut q, " (");
    append_str(&mut q, title);
    append_str(&mut q, ")");
    CheckInCard { question: q, act, shift, kind: CheckInKind::Default }
}

/// The request a start capability is minted from.
pub open spec fn start_request(r: CapabilityRequest, device_id: Seq<char>, e: UpcomingEntry) -> bool {
    &&& r.task_id@ == e.task_id@
    &&& r.action@ == "start"@
    &&& r.device_id@ == device_id
    &&& r.snooze_minutes is None
    &&& r.snooze_target is None
    &&& r.quantity_done is None
    &&& r.note is None
    &&& r.scheduled_at == Some(e.start_at)
}

/// The request a snooze capability is minted from.
pub open spec fn snooze_request(r: CapabilityRequest, device_id: Seq<char>, e: UpcomingEntry) -> bool {
    &&& r.task_id@ == e.task_id@
    &&& r.action@ == "delay"@
    &&& r.device_id@ == device_id
    &&& r.snooze_minutes == Some(10i64)
    &&& r.snooze_target is None
    &&& r.quantity_done is None
    &&& r.note is None
    &&& r.scheduled_at == Some(e.start_at)
}

/// Whether a notification announces the entry, with capabilities minted by
/// the notification path for `device_id`.
pub open spec fn notification_for_entry(n: StartTimeNotification, e: UpcomingEntry, device_id: Seq<char>) -> bool {
    let question = "「"@ + e.title@ + "」の開始時刻です"@;
    &&& n.task_id@ == e.task_id@
    &&& n.title@ == question
    &&& n.body@ == e.title@ + " ("@ + e.start_label@ + ")"@
    &&& n.scheduled_at == e.start_at
    &&& exists|start: ActionCapability, snooze: ActionCapability, rs: CapabilityRequest, rz: CapabilityRequest, us: Seq<char>, uz: Seq<char>, ts: i64, tz: i64|
        start_request(rs, device_id, e) && snooze_request(rz, device_id, e)
        && minted_from(start, rs, InputPath::NotificationCapability, "cap-"@ + us, ts)
        && minted_from(snooze, rz, InputPath::NotificationCapability, "cap-"@ + uz, tz)
        && (n.check_in matches Presentation::CheckIn(card)
            && notification_card(card, question, start, snooze, e.task_id@, e.title@))
}

fn notification_for(e: &UpcomingEntry, device_id: &str) -> (r: StartTimeNotification)
    ensures
        notification_for_entry(r, *e, device_id@),
{
    let mut question = string_of("「");
    append_str(&mut question, e.title.as_str());
    append_str(&mut question, "」の開始時刻です");
    let start_req = CapabilityRequest {
        task_id: string_of(e.task_id.as_str()),
        action: string_of("start"),
        device_id: string_of(device_id),
        snooze_minutes: None,
        snooze_target: None,
        quantity_done: None,
        note: None,
        scheduled_at: Some(e.start_at),
    };
    let ghost rs = start_req;
    let start_cap = mint_capability(start_req, InputPath::NotificationCapability);
    let snooze_req = CapabilityRequest {
        task_id: string_of(e.task_id.as_str()),
        action: string_of("delay"),
        device_id: string_of(device_id),
        snooze_minutes: Some(10),
        snooze_target: None,
        quantity_done: None,
        note: None,
        scheduled_at: Some(e.start_at),
    };
    let ghost rz = snooze_req;
    let snooze_cap = mint_capability(snooze_req, InputPath::NotificationCapability);
    let card = build_check_in(question.as_str(), &start_cap, &snooze_cap, e.task_id.as_str(), e.title.as_str());
    let mut body = string_of(e.title.as_str());
    append_str(&mut body, " (");
    append_str(&mut body, e.start_label.as_str());
    append_str(&mut body, ")");
    let r = StartTimeNotification {
        task_id: string_of(e.task_id.as_str()),
        title: question,
        body,
        scheduled_at: e.start_at,
        check_in: Presentation::CheckIn(card),
    };
    proof {
        let (us, ts) = choose|us: Seq<char>, ts: i64| minted_from(start_cap, rs, InputPath::NotificationCapability, "cap-"@ + us, ts);
        let (uz, tz) = choose|uz: Seq<char>, tz: i64| minted_from(snooze_cap, rz, InputPath::NotificationCapability, "cap-"@ + uz, tz);
        assert(start_request(rs, device_id@, *e));
        assert(snooze_request(rz, device_id@, *e));
    }
    r
}

/// The start-time notifications at `now` for the resolved schedule entries.
pub fn start_time_notifications(entries: Vec<UpcomingEntry>, now: i64, request: &StartTimeNotificationRequest) -> (r: StartTimeNotificationList)
    ensures
        r.notifications@.len() == selected(entries@, now, request.limit).len(),
        forall|i: int| 0 <= i < r.notifications@.len() ==>
            notification_for_entry(#[trigger] r.notifications@[i], selected(entries@, now, request.limit)[i], request.device_id@),
{
    let chosen = select_upcoming(entries, now, request.limit);
    let mut notifications: Vec<StartTimeNotification> = Vec::new();
    let mut i: usize = 0;
    while i < chosen.len()
        invariant
            i <= chosen@.len(),
            notifications@.len() == i,
            forall|j: int| 0 <= j < i ==> notification_for_entry(#[trigger] notifications@[j], chosen@[j], request.device_id@),
        decreases chosen@.len() - i,
    {
        let n = notification_for(&chosen[i], request.device_id.as_str());
        notifications.push(n);
        i += 1;
    }
    StartTimeNotificationList { notifications }
}

} // verus!
