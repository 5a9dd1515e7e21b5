//! Typed presentation model for the resident planner.
//!
//! Every variant carries a deterministic voice/notification template.

use vstd::prelude::*;
use crate::capability::ActionCapability;
use crate::session::ApprovalRequest;
use crate::text::{append_str, chars_of, push_char, string_from_range, string_of, u64_to_string, nat_digits};

verus! {

/// A non-empty collection of items.
#[derive(Debug)]
pub struct NonEmptyVec<T> {
    items: Vec<T>,
}

impl<T: Clone> Clone for NonEmptyVec<T> {
    fn clone(&self) -> (r: Self)
        ensures
            r.items_view().len() == self.items_view().len(),
    {
        proof { use_type_invariant(self); }
        NonEmptyVec { items: self.items.clone() }
    }
}

impl<T> NonEmptyVec<T> {
    #[verifier::type_invariant]
    spec fn inv(self) -> bool {
        self.items@.len() > 0
    }

    /// The items, in order.
    pub closed spec fn items_view(self) -> Seq<T> {
        self.items@
    }

    /// Build a non-empty collection; fails if `items` is empty.
    pub fn new(items: Vec<T>) -> (r: Result<Self, &'static str>)
        ensures
            items@.len() == 0 <==> r is Err,
            r matches Ok(v) ==> v.items_view() == items@,
            r matches Err(e) ==> e@ == "collection must not be empty"@,
    {
        if items.len() == 0 {
            return Err("collection must not be empty");
        }
        Ok(NonEmptyVec { items })
    }

    pub fn as_slice(&self) -> (r: &[T])
        ensures
            r@ == self.items_view(),
            r@.len() > 0,
    {
        proof { use_type_invariant(self); }
        self.items.as_slice()
    }

    pub fn len(&self) -> (r: usize)
        ensures
            r == self.items_view().len(),
            r > 0,
    {
        proof { use_type_invariant(self); }
        self.items.len()
    }

    /// Always `false`: the collection is never empty.
    pub fn is_empty(&self) -> (r: bool)
        ensures
            r == (self.items_view().len() == 0),
            !r,
    {
        proof { use_type_invariant(self); }
        self.items.len() == 0
    }

    /// An iterator over the items, in order.
    pub fn iter(&self) -> (r: std::slice::Iter<'_, T>)
        ensures
            vstd::std_specs::slice::into_iter_elts(r) == self.items_view(),
    {
        let s = self.as_slice();
        let it = s.iter();
        proof {
            broadcast use vstd::std_specs::slice::axiom_spec_slice_iter;
            assert(vstd::std_specs::iter::IteratorSpec::remaining(&it).unref() =~= s@);
        }
        it
    }
}

/// Coverage authority attached to a current-task card.
#[derive(Debug, Clone, Copy, PartialEq, Eq, Structural)]
pub enum TaskAuthority {
    /// Present as a candidate for the user to accept.
    Candidate,
    /// Authoritative 「今やること」 because today is covered.
    TodayCovered,
}

/// State of a task's work session shown on a card.
#[derive(Debug, Clone, Copy, PartialEq, Eq, Structural)]
pub enum WorkState {
    NotStarted,
    InProgress,
    Overdue,
}

/// Settlement prompt shown ahead of the current task when coverage is stale.
#[derive(Debug, Clone)]
pub struct SettlementPrompt {
    pub question: String,
    pub act: ActionGroup,
    pub shift: ActionGroup,
}

/// Current + next task card with quick actions.
#[derive(Debug, Clone)]
pub struct TaskCard {
    pub title: String,
    pub reference: String,
    pub start_at: Option<String>,
    pub end_at: Option<String>,
    pub work_state: WorkState,
    pub authority: TaskAuthority,
    pub next_task: Option<String>,
    pub settlement: Option<SettlementPrompt>,
}

/// Kind of a recorded work transition.
#[derive(Debug, Clone, Copy, PartialEq, Eq, Structural)]
pub enum WorkTransitionKind {
    Start,
    Pause,
    Progress,
    Complete,
    Delay,
    Split,
    Undo,
}

/// Result of a start / pause / progress / complete / delay / split mutation.
#[derive(Debug, Clone)]
pub struct WorkTransition {
    pub kind: WorkTransitionKind,
    pub reference: String,
    pub title: String,
    /// Human-readable detail (e.g. new quantity, total active minutes).
    pub detail: String,
}

/// A scheduled slot in a schedule summary.
#[derive(Debug, Clone)]
pub struct ScheduleEntry {
    pub reference: String,
    pub title: String,
    pub start_at: Option<String>,
    pub end_at: Option<String>,
}

/// Concise summary of the active schedule.
#[derive(Debug, Clone)]
pub struct ScheduleSummary {
    pub next: Option<ScheduleEntry>,
    pub entries: Vec<ScheduleEntry>,
}

/// Aggregated progress counts from a task read.
#[derive(Debug, Clone)]
pub struct ProgressSummary {
    pub done: usize,
    pub in_progress: usize,
    pub scheduled: usize,
}

/// Kind of a schedule alert.
#[derive(Debug, Clone, Copy, PartialEq, Eq, Structural)]
pub enum ScheduleAlertKind {
    Conflict,
    Overdue,
    GenerationFailure,
}

/// A planner error surfaced to the user (never a check-in).
#[derive(Debug, Clone)]
pub struct ScheduleAlert {
    pub kind: ScheduleAlertKind,
    pub message: String,
}

/// Kind of a quick action.
#[derive(Debug, Clone, Copy, PartialEq, Eq, Structural)]
pub enum ActionKind {
    Immediate,
    Approval,
    Panel,
}

/// A single quick action on a check-in or card.
#[derive(Debug, Clone)]
pub struct Action {
    pub id: String,
    pub label: String,
    pub kind: ActionKind,
    /// The server-issued one-shot capability for an immediate action.
    pub capability: Option<ActionCapability>,
}

/// One labelled group of actions. Never empty.
#[derive(Debug, Clone)]
pub struct ActionGroup {
    pub title: String,
    pub actions: NonEmptyVec<Action>,
}

/// Kind of a check-in.
#[derive(Debug, Clone, Copy, PartialEq, Eq, Structural)]
pub enum CheckInKind {
    /// Generic act/shift check-in.
    Default,
    /// Classification card for an unclassified gap capture.
    GapCapture,
}

/// A one-round-trip check-in that always offers 「行動」 and 「ズラす」.
#[derive(Debug, Clone)]
pub struct CheckInCard {
    pub question: String,
    /// 「行動」 group.
    pub act: ActionGroup,
    /// 「ズラす」 group.
    pub shift: ActionGroup,
    /// Internal hint for voice rendering.
    pub kind: CheckInKind,
}

/// A focused clarification question instead of a full interview.
#[derive(Debug, Clone)]
pub struct FocusedQuestion {
    pub message: String,
    pub choices: Vec<String>,
}

/// The typed presentation payload carried on a turn result or event.
#[derive(Debug, Clone)]
pub enum Presentation {
    CurrentTask(TaskCard),
    WorkTransition(WorkTransition),
    ScheduleSummary(ScheduleSummary),
    ProgressSummary(ProgressSummary),
    ScheduleAlert(ScheduleAlert),
    CheckIn(CheckInCard),
    ChangeProposal(ApprovalRequest),
    Clarification(FocusedQuestion),
    Text { text: String },
}


/// Position of the first `{}` placeholder at or after `i` in `t`.
pub open spec fn placeholder_from(t: Seq<char>, i: int) -> Option<int>
    decreases t.len() - i,
{
    if i < 0 || i + 1 >= t.len() {
        None
    } else if t[i] == '{' && t[i + 1] == '}' {
        Some(i)
    } else {
        placeholder_from(t, i + 1)
    }
}

/// `template` with its first `{}` replaced by `arg`; unchanged when it has
/// none.
pub open spec fn strfmt_spec(template: Seq<char>, arg: Seq<char>) -> Seq<char> {
    match placeholder_from(template, 0) {
        Some(p) => template.subrange(0, p) + arg + template.subrange(p + 2, template.len() as int),
        None => template,
    }
}

/// Replace the first `{}` placeholder of `template` by `arg`.
pub fn strfmt(template: &str, arg: &str) -> (r: String)
    ensures
        r@ == strfmt_spec(template@, arg@),
{
    let t = chars_of(template);
    let n = t.len();
    let mut i: usize = 0;
    while n > 0 && i < n - 1
        invariant
            n == t@.len(),
            t@ == template@,
            0 <= i <= n,
            placeholder_from(t@, 0) == placeholder_from(t@, i as int),
        decreases n - i,
    {
        if t[i] == '{' && t[i + 1] == '}' {
            assert(placeholder_from(t@, i as int) == Some(i as int));
            let mut r = string_from_range(&t, 0, i);
            append_str(&mut r, arg);
            let rest = string_from_range(&t, i + 2, n);
            append_str(&mut r, rest.as_str());
            return r;
        }
        i += 1;
    }
    assert(placeholder_from(t@, i as int) is None);
    string_of(template)
}

/// The spoken line for a work transition.
pub open spec fn work_transition_template(kind: WorkTransitionKind) -> Seq<char> {
    match kind {
        WorkTransitionKind::Start => "「{}」の作業を開始しました"@,
        WorkTransitionKind::Pause => "「{}」の作業を一時停止しました"@,
        WorkTransitionKind::Progress => "「{}」の進捗を記録しました"@,
        WorkTransitionKind::Complete => "「{}」の作業を完了しました"@,
        WorkTransitionKind::Delay => "「{}」の開始をずらしました"@,
        WorkTransitionKind::Split => "「{}」を分割しました"@,
        WorkTransitionKind::Undo => "「{}」を元に戻しました"@,
    }
}

pub open spec fn work_transition_voice(t: WorkTransition) -> Seq<char> {
    let base = strfmt_spec(work_transition_template(t.kind), t.title@);
    if t.detail@.len() == 0 { base } else { base + " "@ + t.detail@ }
}

impl WorkTransition {
    /// The deterministic voice/notification line.
    pub fn voice_template(&self) -> (r: String)
        ensures
            r@ == work_transition_voice(*self),
    {
        let prefix = match self.kind {
            WorkTransitionKind::Start => "「{}」の作業を開始しました",
            WorkTransitionKind::Pause => "「{}」の作業を一時停止しました",
            WorkTransitionKind::Progress => "「{}」の進捗を記録しました",
            WorkTransitionKind::Complete => "「{}」の作業を完了しました",
            WorkTransitionKind::Delay => "「{}」の開始をずらしました",
            WorkTransitionKind::Split => "「{}」を分割しました",
            WorkTransitionKind::Undo => "「{}」を元に戻しました",
        };
        let mut base = strfmt(prefix, self.title.as_str());
        if self.detail.as_str().is_empty() {
            base
        } else {
            append_str(&mut base, " ");
            append_str(&mut base, self.detail.as_str());
            base
        }
    }
}

pub open spec fn opt_text_or(s: Option<String>, fallback: Seq<char>) -> Seq<char> {
    match s {
        Some(v) => v@,
        None => fallback,
    }
}

pub open spec fn schedule_summary_voice(s: ScheduleSummary) -> Seq<char> {
    match s.next {
        Some(next) => "スケジュールを確認しました。次の予定は "@ + next.title@ + "、"@
            + opt_text_or(next.start_at, "未定"@) + " からです"@,
        None => "スケジュールを確認しました。次の予定はありません"@,
    }
}

impl ScheduleSummary {
    /// The deterministic voice/notification line.
    pub fn voice_template(&self) -> (r: String)
        ensures
            r@ == schedule_summary_voice(*self),
    {
        match &self.next {
            Some(next) => {
                let mut r = string_of("スケジュールを確認しました。次の予定は ");
                append_str(&mut r, next.title.as_str());
                append_str(&mut r, "、");
                match &next.start_at {
                    Some(s) => append_str(&mut r, s.as_str()),
                    None => append_str(&mut r, "未定"),
                }
                append_str(&mut r, " からです");
                r
            },
            None => string_of("スケジュールを確認しました。次の予定はありません"),
        }
    }
}

pub open spec fn progress_summary_voice(p: ProgressSummary) -> Seq<char> {
    "現在の状況です。完了 "@ + nat_digits(p.done as nat) + " 件、作業中 "@
        + nat_digits(p.in_progress as nat) + " 件、予定 "@ + nat_digits(p.scheduled as nat) + " 件です"@
}

impl ProgressSummary {
    /// The deterministic voice/notification line.
    pub fn voice_template(&self) -> (r: String)
        ensures
            r@ == progress_summary_voice(*self),
    {
        let mut r = string_of("現在の状況です。完了 ");
        let d = u64_to_string(self.done as u64);
        append_str(&mut r, d.as_str());
        append_str(&mut r, " 件、作業中 ");
        let w = u64_to_string(self.in_progress as u64);
        append_str(&mut r, w.as_str());
        append_str(&mut r, " 件、予定 ");
        let s = u64_to_string(self.scheduled as u64);
        append_str(&mut r, s.as_str());
        append_str(&mut r, " 件です");
        r
    }
}

impl ScheduleAlert {
    /// The deterministic voice/notification line: the alert message.
    pub fn voice_template(&self) -> (r: String)
        ensures
            r@ == self.message@,
    {
        string_of(self.message.as_str())
    }
}

impl FocusedQuestion {
    /// The deterministic voice/notification line: the question itself.
    pub fn voice_template(&self) -> (r: String)
        ensures
            r@ == self.message@,
    {
        string_of(self.message.as_str())
    }
}

impl ActionGroup {
    /// A labelled action group; fails when `actions` is empty.
    pub fn new(title: &str, actions: Vec<Action>) -> (r: Result<Self, &'static str>)
        ensures
            actions@.len() == 0 <==> r is Err,
            r matches Ok(g) ==> g.title@ == title@ && g.actions.items_view() == actions@,
    {
        match NonEmptyVec::new(actions) {
            Ok(items) => Ok(ActionGroup { title: string_of(title), actions: items }),
            Err(e) => Err(e),
        }
    }
}

/// The suffix a default check-in adds to its question when spoken.
pub open spec fn check_in_prompt() -> Seq<char> {
    " どうしますか。行動するか、ずらすかを選んでください"@
}

pub open spec fn check_in_voice(c: CheckInCard) -> Seq<char> {
    match c.kind {
        CheckInKind::GapCapture => c.question@,
        CheckInKind::Default => c.question@ + check_in_prompt(),
    }
}

impl CheckInCard {
    /// A check-in offering both 「行動」 and 「ズラす」. Both groups are
    /// non-empty by construction, so this always succeeds.
    pub fn new(question: &str, act: ActionGroup, shift: ActionGroup) -> (r: Result<Self, &'static str>)
        ensures
            r matches Ok(c) && c.question@ == question@ && c.act == act && c.shift == shift
                && c.kind == CheckInKind::Default,
    {
        if act.actions.is_empty() || shift.actions.is_empty() {
            return Err("check-in card requires both 行動 and ズラす action groups");
        }
        Ok(CheckInCard { question: string_of(question), act, shift, kind: CheckInKind::Default })
    }

    /// The deterministic voice/notification line.
    pub fn voice_template(&self) -> (r: String)
        ensures
            r@ == check_in_voice(*self),
    {
        match self.kind {
            CheckInKind::GapCapture => string_of(self.question.as_str()),
            CheckInKind::Default => {
                let mut r = string_of(self.question.as_str());
                append_str(&mut r, " どうしますか。行動するか、ずらすかを選んでください");
                r
            },
        }
    }
}

/// An action without a capability.
pub open spec fn plain_action(a: Action, id: Seq<char>, label: Seq<char>, kind: ActionKind) -> bool {
    a.id@ == id && a.label@ == label && a.kind == kind && a.capability is None
}

pub(crate) fn make_action(id: &str, label: &str, kind: ActionKind) -> (a: Action)
    ensures
        plain_action(a, id@, label@, kind),
{
    Action { id: string_of(id), label: string_of(label), kind, capability: None }
}

/// A group holding exactly one action.
pub(crate) fn single_action_group(title: &str, action: Action) -> (g: ActionGroup)
    ensures
        g.title@ == title@,
        g.actions.items_view() == seq![action],
{
    let v = vec![action];
    match ActionGroup::new(title, v) {
        Ok(g) => g,
        Err(_) => vstd::pervasive::unreached(),
    }
}

/// A group holding exactly two actions.
pub(crate) fn pair_action_group(title: &str, first: Action, second: Action) -> (g: ActionGroup)
    ensures
        g.title@ == title@,
        g.actions.items_view() == seq![first, second],
{
    let v = vec![first, second];
    match ActionGroup::new(title, v) {
        Ok(g) => g,
        Err(_) => vstd::pervasive::unreached(),
    }
}

/// The question of a gap-capture card for `activity`.
pub open spec fn gap_capture_question(activity: Seq<char>) -> Seq<char> {
    "「"@ + activity + "」を、今回だけ、毎週、自由時間、ルーティンのどれとして登録しますか"@
}

/// The classification card for an unclassified gap: 「行動」 offers
/// 今回だけ / 毎週 and 「ズラす」 offers 自由時間 / ルーティン, all as panels.
pub fn gap_capture_check_in(activity: &str) -> (c: CheckInCard)
    ensures
        c.question@ == gap_capture_question(activity@),
        c.kind == CheckInKind::GapCapture,
        c.act.title@ == "行動"@,
        c.act.actions.items_view().len() == 2,
        plain_action(c.act.actions.items_view()[0], "one_off"@, "今回だけ"@, ActionKind::Panel),
        plain_action(c.act.actions.items_view()[1], "recurring"@, "毎週"@, ActionKind::Panel),
        c.shift.title@ == "ズラす"@,
        c.shift.actions.items_view().len() == 2,
        plain_action(c.shift.actions.items_view()[0], "free_time"@, "自由時間"@, ActionKind::Panel),
        plain_action(c.shift.actions.items_view()[1], "routine"@, "ルーティン"@, ActionKind::Panel),
{
    let mut question = string_of("「");
    append_str(&mut question, activity);
    append_str(&mut question, "」を、今回だけ、毎週、自由時間、ルーティンのどれとして登録しますか");
    let act = pair_action_group(
        "行動",
        make_action("one_off", "今回だけ", ActionKind::Panel),
        make_action("recurring", "毎週", ActionKind::Panel),
    );
    let shift = pair_action_group(
        "ズラす",
        make_action("free_time", "自由時間", ActionKind::Panel),
        make_action("routine", "ルーティン", ActionKind::Panel),
    );
    CheckInCard { question, act, shift, kind: CheckInKind::GapCapture }
}

pub open spec fn work_state_word(w: WorkState) -> Seq<char> {
    match w {
        WorkState::InProgress => "作業中"@,
        WorkState::Overdue => "期限超過"@,
        WorkState::NotStarted => "未着手"@,
    }
}

/// The spoken line of a current-task card: its settlement question when it
/// has one, else the task, its state and its time window.
pub open spec fn task_card_voice(card: TaskCard) -> Seq<char> {
    match card.settlement {
        Some(s) => s.question@ + check_in_prompt(),
        None => "今やるのは「"@ + card.title@ + "」"@
            + (if card.authority == TaskAuthority::Candidate { "（候補）"@ } else { Seq::empty() })
            + " "@ + work_state_word(card.work_state) + "です。"@
            + opt_text_or(card.start_at, "未定"@) + "～"@ + opt_text_or(card.end_at, "未定"@),
    }
}

/// The spoken line of a presentation, given the formatted dates of a
/// change proposal's changes.
pub open spec fn presentation_voice(p: Presentation, ds: Seq<crate::readback::ChangeDates>) -> Seq<char> {
    match p {
        Presentation::CurrentTask(card) => task_card_voice(card),
        Presentation::WorkTransition(t) => work_transition_voice(t),
        Presentation::ScheduleSummary(s) => schedule_summary_voice(s),
        Presentation::ProgressSummary(p) => progress_summary_voice(p),
        Presentation::ScheduleAlert(a) => a.message@,
        Presentation::CheckIn(c) => check_in_voice(c),
        Presentation::ChangeProposal(r) => crate::readback::readback_spec(r, ds),
        Presentation::Clarification(q) => q.message@,
        Presentation::Text { text } => text@,
    }
}

fn task_card_voice_of(card: &TaskCard) -> (r: String)
    ensures
        r@ == task_card_voice(*card),
{
    match &card.settlement {
        Some(s) => {
            let mut r = string_of(s.question.as_str());
            append_str(&mut r, " どうしますか。行動するか、ずらすかを選んでください");
            r
        },
        None => {
            let mut r = string_of("今やるのは「");
            append_str(&mut r, card.title.as_str());
            append_str(&mut r, "」");
            if card.authority == TaskAuthority::Candidate {
                append_str(&mut r, "（候補）");
            } else {
                proof { reveal_strlit(""); }
            }
            append_str(&mut r, " ");
            let action = match card.work_state {
                WorkState::InProgress => "作業中",
                WorkState::Overdue => "期限超過",
                WorkState::NotStarted => "未着手",
            };
            append_str(&mut r, action);
            append_str(&mut r, "です。");
            match &card.start_at {
                Some(t) => append_str(&mut r, t.as_str()),
                None => append_str(&mut r, "未定"),
            }
            append_str(&mut r, "～");
            match &card.end_at {
                Some(t) => append_str(&mut r, t.as_str()),
                None => append_str(&mut r, "未定"),
            }
            r
        },
    }
}

impl Presentation {
    /// The deterministic voice/notification line. A change proposal reads
    /// back its changes, with dates as [`crate::readback::format_datetime_for_voice`]
    /// gives them.
    pub fn voice_template(&self) -> (r: String)
        ensures
            exists|ds: Seq<crate::readback::ChangeDates>|
                (self matches Presentation::ChangeProposal(req) ==> crate::readback::dates_voiced(req.changes@, ds))
                && r@ == presentation_voice(*self, ds),
    {
        let ghost none: Seq<crate::readback::ChangeDates> = Seq::empty();
        match self {
            Presentation::CurrentTask(card) => {
                let r = task_card_voice_of(card);
                assert(r@ == presentation_voice(*self, none));
                r
            },
            Presentation::WorkTransition(t) => {
                let r = t.voice_template();
                assert(r@ == presentation_voice(*self, none));
                r
            },
            Presentation::ScheduleSummary(s) => {
                let r = s.voice_template();
                assert(r@ == presentation_voice(*self, none));
                r
            },
            Presentation::ProgressSummary(p) => {
                let r = p.voice_template();
                assert(r@ == presentation_voice(*self, none));
                r
            },
            Presentation::ScheduleAlert(a) => {
                let r = a.voice_template();
                assert(r@ == presentation_voice(*self, none));
                r
            },
            Presentation::CheckIn(c) => {
                let r = c.voice_template();
                assert(r@ == presentation_voice(*self, none));
                r
            },
            Presentation::ChangeProposal(req) => {
                let r = crate::readback::build_change_proposal_readback(req);
                proof {
                    let ds = choose|ds: Seq<crate::readback::ChangeDates>|
                        crate::readback::dates_voiced(req.changes@, ds) && r@ == crate::readback::readback_spec(*req, ds);
                    assert(r@ == presentation_voice(*self, ds));
                }
                r
            },
            Presentation::Clarification(q) => {
                let r = q.voice_template();
                assert(r@ == presentation_voice(*self, none));
                r
            },
            Presentation::Text { text } => {
                let r = string_of(text.as_str());
                assert(r@ == presentation_voice(*self, none));
                r
            },
        }
    }
}

} // verus!
