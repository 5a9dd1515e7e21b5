//! Mapping tool results and change receipts onto the typed presentation
//! model. The model chooses which tool to call; the rendering is fixed here.

use vstd::prelude::*;
use crate::json::{
    json_array_items, json_i64_at, json_i64_field, json_items, json_member, json_member_at, json_str_at,
    json_str_field,
};
use crate::labels::{ChangeOperation, TargetKind};
use crate::presentation::{
    gap_capture_check_in, gap_capture_question, FocusedQuestion, Presentation, ProgressSummary, ScheduleEntry,
    ScheduleSummary, WorkTransition, WorkTransitionKind,
};
use crate::readback::{format_datetime_for_voice, join_with, opt_text, opt_view, views, voice_datetime};
use crate::text::{append_str, chars_of, find_char, i64_to_string, int_digits, occurs_in, str_eq, string_from_range, string_of};
use crate::tool::{ChangeReceipt, Target, ToolOutput};

verus! {

/// The work transition a change operation reports, if any.
pub open spec fn transition_of(op: ChangeOperation) -> Option<WorkTransitionKind> {
    match op {
        ChangeOperation::Start => Some(WorkTransitionKind::Start),
        ChangeOperation::Pause => Some(WorkTransitionKind::Pause),
        ChangeOperation::Progress => Some(WorkTransitionKind::Progress),
        ChangeOperation::Complete => Some(WorkTransitionKind::Complete),
        ChangeOperation::Snooze => Some(WorkTransitionKind::Delay),
        ChangeOperation::Move => Some(WorkTransitionKind::Delay),
        ChangeOperation::Split => Some(WorkTransitionKind::Split),
        ChangeOperation::Undo => Some(WorkTransitionKind::Undo),
        _ => None,
    }
}

fn transition_for(op: ChangeOperation) -> (r: Option<WorkTransitionKind>)
    ensures
        r == transition_of(op),
{
    match op {
        ChangeOperation::Start => Some(WorkTransitionKind::Start),
        ChangeOperation::Pause => Some(WorkTransitionKind::Pause),
        ChangeOperation::Progress => Some(WorkTransitionKind::Progress),
        ChangeOperation::Complete => Some(WorkTransitionKind::Complete),
        ChangeOperation::Snooze => Some(WorkTransitionKind::Delay),
        ChangeOperation::Move => Some(WorkTransitionKind::Delay),
        ChangeOperation::Split => Some(WorkTransitionKind::Split),
        ChangeOperation::Undo => Some(WorkTransitionKind::Undo),
        _ => None,
    }
}

pub open spec fn ref_view(v: Option<&String>) -> Option<Seq<char>> {
    match v {
        Some(t) => Some(t@),
        None => None,
    }
}

pub open spec fn str_in(v: Option<Seq<char>>, key: Seq<char>) -> Option<Seq<char>> {
    match v {
        Some(t) => json_str_at(t, key),
        None => None,
    }
}

/// The title (「タスク」 when absent) and reference (empty when absent) a
/// JSON task value carries.
pub open spec fn title_ref(v: Option<Seq<char>>) -> (Seq<char>, Seq<char>) {
    (opt_text(str_in(v, "title"@), "タスク"@), opt_text(str_in(v, "reference"@), Seq::empty()))
}

/// Whether a delay detail formats the start time: the operation moves the
/// task and its value has a non-empty `start_at`.
pub open spec fn formats_start(op: ChangeOperation, v: Option<Seq<char>>) -> bool {
    (op == ChangeOperation::Snooze || op == ChangeOperation::Move)
        && (str_in(v, "start_at"@) matches Some(s) && s.len() > 0)
}

/// Whether `f` is what formatting the start time gave, present exactly when
/// it was formatted.
pub open spec fn start_fits(op: ChangeOperation, v: Option<Seq<char>>, f: Option<Seq<char>>) -> bool {
    &&& (f is Some <==> formats_start(op, v))
    &&& (f matches Some(x) ==> exists|z: Option<Seq<char>>| x == #[trigger] voice_datetime(str_in(v, "start_at"@).unwrap(), z))
}

/// The detail of a work transition: `done / total` or `done` for progress,
/// the formatted new start for a delay, nothing otherwise.
pub open spec fn detail_spec(op: ChangeOperation, v: Option<Seq<char>>, f: Option<Seq<char>>) -> Seq<char> {
    if op == ChangeOperation::Progress {
        match v {
            None => Seq::empty(),
            Some(t) => match (json_i64_at(t, "quantity_done"@), json_i64_at(t, "quantity_total"@)) {
                (Some(done), Some(total)) if total > 0 => int_digits(done as int) + " / "@ + int_digits(total as int),
                (Some(done), _) => if done > 0 { int_digits(done as int) } else { Seq::empty() },
                _ => Seq::empty(),
            },
        }
    } else if formats_start(op, v) {
        f.unwrap()
    } else {
        Seq::empty()
    }
}

fn str_of(v: Option<&String>, key: &str) -> (r: Option<String>)
    ensures
        opt_view(r) == str_in(match v { Some(t) => Some(t@), None => None }, key@),
{
    match v {
        Some(t) => json_str_field(t.as_str(), key),
        None => None,
    }
}

fn title_ref_of(v: Option<&String>) -> (r: (String, String))
    ensures
        (r.0@, r.1@) == title_ref(match v { Some(t) => Some(t@), None => None }),
{
    let title = match str_of(v, "title") {
        Some(t) => t,
        None => string_of("タスク"),
    };
    let reference = match str_of(v, "reference") {
        Some(r) => r,
        None => String::new(),
    };
    (title, reference)
}

fn detail_of(op: ChangeOperation, v: Option<&String>) -> (r: String)
    ensures
        exists|f: Option<Seq<char>>| #[trigger] start_fits(op, ref_view(v), f) && r@ == detail_spec(op, ref_view(v), f),
{
    let ghost vv = ref_view(v);
    let ghost none: Option<Seq<char>> = None;
    if op == ChangeOperation::Progress {
        let t = match v {
            Some(t) => t,
            None => {
                let r = String::new();
                assert(start_fits(op, vv, none) && r@ == detail_spec(op, vv, none));
                return r;
            },
        };
        let done = json_i64_field(t.as_str(), "quantity_done");
        let total = json_i64_field(t.as_str(), "quantity_total");
        let r = match (done, total) {
            (Some(d), Some(n)) if n > 0 => {
                let mut s = i64_to_string(d);
                append_str(&mut s, " / ");
                let ns = i64_to_string(n);
                append_str(&mut s, ns.as_str());
                s
            },
            (Some(d), _) => if d > 0 { i64_to_string(d) } else { String::new() },
            _ => String::new(),
        };
        assert(start_fits(op, vv, none) && r@ == detail_spec(op, vv, none));
        return r;
    }
    if op == ChangeOperation::Snooze || op == ChangeOperation::Move {
        match str_of(v, "start_at") {
            Some(s) => {
                if !s.as_str().is_empty() {
                    let r = format_datetime_for_voice(s.as_str());
                    proof {
                        let z = choose|z: Option<Seq<char>>| r@ == voice_datetime(s@, z);
                        assert(r@ == voice_datetime(str_in(vv, "start_at"@).unwrap(), z));
                        let f = Some(r@);
                        assert(start_fits(op, vv, f));
                        assert(r@ == detail_spec(op, vv, f));
                    }
                    return r;
                }
            },
            None => {},
        }
    }
    let r = String::new();
    assert(start_fits(op, vv, none) && r@ == detail_spec(op, vv, none));
    r
}

pub open spec fn receipt_value(r: ChangeReceipt) -> Option<Seq<char>> {
    match r.after {
        Some(a) => Some(a@),
        None => match r.before {
            Some(b) => Some(b@),
            None => None,
        },
    }
}

/// Whether a receipt reports a work transition of a recognisable task.
pub open spec fn reports_transition(r: ChangeReceipt) -> bool {
    &&& r.target.target_type == TargetKind::Task
    &&& transition_of(r.operation) is Some
    &&& !(title_ref(receipt_value(r)).0 == "タスク"@ && title_ref(receipt_value(r)).1.len() == 0)
}

/// Index of the first receipt at or after `i` that reports a transition.
pub open spec fn first_transition(rs: Seq<ChangeReceipt>, i: int) -> Option<int>
    decreases rs.len() - i,
{
    if i < 0 || i >= rs.len() {
        None
    } else if reports_transition(rs[i]) {
        Some(i)
    } else {
        first_transition(rs, i + 1)
    }
}

/// Whether `t` is the work transition reported by an operation on a value
/// with the given title and reference.
pub open spec fn transition_matches(t: WorkTransition, op: ChangeOperation, title: Seq<char>, reference: Seq<char>, v: Option<Seq<char>>) -> bool {
    &&& Some(t.kind) == transition_of(op)
    &&& t.title@ == title
    &&& t.reference@ == reference
    &&& exists|f: Option<Seq<char>>| #[trigger] start_fits(op, v, f) && t.detail@ == detail_spec(op, v, f)
}

fn receipt_value_of(r: &ChangeReceipt) -> (v: Option<&String>)
    ensures
        (match v { Some(t) => Some(t@), None => None }) == receipt_value(*r),
{
    match &r.after {
        Some(a) => Some(a),
        None => match &r.before {
            Some(b) => Some(b),
            None => None,
        },
    }
}

impl Presentation {
    /// The work transition reported by the first receipt of a recognisable
    /// task whose operation is a work transition.
    pub fn from_change_receipts(receipts: &[ChangeReceipt]) -> (p: Option<Presentation>)
        ensures
            match first_transition(receipts@, 0) {
                Some(k) => p matches Some(Presentation::WorkTransition(t)) && transition_matches(
                    t,
                    receipts@[k].operation,
                    title_ref(receipt_value(receipts@[k])).0,
                    title_ref(receipt_value(receipts@[k])).1,
                    receipt_value(receipts@[k]),
                ),
                None => p is None,
            },
    {
        let mut i: usize = 0;
        while i < receipts.len()
            invariant
                i <= receipts@.len(),
                first_transition(receipts@, 0) == first_transition(receipts@, i as int),
            decreases receipts@.len() - i,
        {
            let receipt = &receipts[i];
            if receipt.target.target_type == TargetKind::Task {
                match transition_for(receipt.operation) {
                    Some(kind) => {
                        let v = receipt_value_of(receipt);
                        let (title, reference) = title_ref_of(v);
                        if !(str_eq(title.as_str(), "タスク") && reference.as_str().is_empty()) {
                            let detail = detail_of(receipt.operation, v);
                            return Some(Presentation::WorkTransition(WorkTransition { kind, title, reference, detail }));
                        }
                    },
                    None => {},
                }
            }
            i += 1;
        }
        None
    }
}

/// What the user is shown once an approval has been executed: the work
/// transition its receipts report, else the plain acknowledgement
/// 「承認しました。」.
pub fn approved_presentation(receipts: &[ChangeReceipt]) -> (p: Option<Presentation>)
    ensures
        match first_transition(receipts@, 0) {
            Some(k) => p matches Some(Presentation::WorkTransition(t)) && transition_matches(
                t,
                receipts@[k].operation,
                title_ref(receipt_value(receipts@[k])).0,
                title_ref(receipt_value(receipts@[k])).1,
                receipt_value(receipts@[k]),
            ),
            None => p matches Some(Presentation::Text { text }) && text@ == "承認しました。"@,
        },
{
    match Presentation::from_change_receipts(receipts) {
        Some(p) => Some(p),
        None => Some(Presentation::Text { text: string_of("承認しました。") }),
    }
}

// ---------------------------------------------------------------------------
// Tool outputs
// ---------------------------------------------------------------------------

/// The text between the first 「 and the first 」 after it.
pub open spec fn title_in_description(d: Seq<char>) -> Option<Seq<char>> {
    if occurs_in(d, '「') {
        let open = choose|i: int| 0 <= i < d.len() && d[i] == '「' && !occurs_in(d.subrange(0, i), '「');
        let rest = d.subrange(open + 1, d.len() as int);
        if occurs_in(rest, '」') {
            let close = choose|j: int| 0 <= j < rest.len() && rest[j] == '」' && !occurs_in(rest.subrange(0, j), '」');
            Some(rest.subrange(0, close))
        } else {
            None
        }
    } else {
        None
    }
}

/// Title and reference of a proposed change: from its `after` value, else
/// from the description's 「…」 and the target's display id.
pub open spec fn extracted_title_ref(after: Option<Seq<char>>, target: Target, description: Seq<char>) -> (Seq<char>, Seq<char>) {
    let (title, reference) = title_ref(after);
    if title != "タスク"@ {
        (title, reference)
    } else {
        let t = opt_text(title_in_description(description), "タスク"@);
        let r = if reference.len() > 0 { reference } else { target.display_id@ };
        (t, r)
    }
}

proof fn lemma_first_index_unique(s: Seq<char>, c: char, i: int, j: int)
    requires
        0 <= i < s.len() && s[i] == c && !occurs_in(s.subrange(0, i), c),
        0 <= j < s.len() && s[j] == c && !occurs_in(s.subrange(0, j), c),
    ensures
        i == j,
{
    if i < j {
        assert(s.subrange(0, j)[i] == c);
    } else if j < i {
        assert(s.subrange(0, i)[j] == c);
    }
}

fn title_from_description(description: &str) -> (r: Option<String>)
    ensures
        opt_view(r) == title_in_description(description@),
{
    let d = chars_of(description);
    let open = match find_char(&d, '「') {
        Some(i) => i,
        None => return None,
    };
    let n = d.len();
    assert(open < n);
    let after_open: usize = open + 1;
    let rest = string_from_range(&d, after_open, n);
    proof {
        let o = choose|i: int| 0 <= i < d@.len() && d@[i] == '「' && !occurs_in(d@.subrange(0, i), '「');
        lemma_first_index_unique(d@, '「', o, open as int);
    }
    let rc = chars_of(rest.as_str());
    let close = match find_char(&rc, '」') {
        Some(j) => j,
        None => return None,
    };
    proof {
        let c = choose|j: int| 0 <= j < rc@.len() && rc@[j] == '」' && !occurs_in(rc@.subrange(0, j), '」');
        lemma_first_index_unique(rc@, '」', c, close as int);
    }
    Some(string_from_range(&rc, 0, close))
}

fn extract_title_ref(after: Option<&String>, target: &Target, description: &str) -> (r: (String, String))
    ensures
        (r.0@, r.1@) == extracted_title_ref(match after { Some(t) => Some(t@), None => None }, *target, description@),
{
    let (title, reference) = title_ref_of(after);
    if !str_eq(title.as_str(), "タスク") {
        return (title, reference);
    }
    let t = match title_from_description(description) {
        Some(t) => t,
        None => string_of("タスク"),
    };
    let r = if !reference.as_str().is_empty() {
        reference
    } else {
        string_of(target.display_id.as_str())
    };
    (t, r)
}

pub open spec fn is_progress_tool(name: Seq<char>) -> bool {
    name == "task_start"@ || name == "task_pause"@ || name == "task_progress"@ || name == "task_complete"@
        || name == "task_split"@ || name == "task_undo"@ || name == "move_task"@
}

/// The non-empty focused clarification a progress tool returned.
pub open spec fn focused_message(content: Seq<char>) -> Option<Seq<char>> {
    match json_str_at(content, "focused_clarification"@) {
        Some(m) => if m.len() > 0 { Some(m) } else { None },
        None => None,
    }
}

pub open spec fn entry_matches(e: ScheduleEntry, item: Seq<char>) -> bool {
    &&& json_str_at(item, "reference"@) == Some(e.reference@)
    &&& json_str_at(item, "title"@) == Some(e.title@)
    &&& opt_view(e.start_at) == json_str_at(item, "start_at"@)
    &&& opt_view(e.end_at) == json_str_at(item, "end_at"@)
}

pub open spec fn is_entry(item: Seq<char>) -> bool {
    json_str_at(item, "reference"@) is Some && json_str_at(item, "title"@) is Some
}

/// The items among the first `n` that are schedule entries, in order.
pub open spec fn entry_items(items: Seq<Seq<char>>, n: int) -> Seq<Seq<char>>
    decreases n,
{
    if n <= 0 {
        Seq::empty()
    } else if is_entry(items[n - 1]) {
        entry_items(items, n - 1).push(items[n - 1])
    } else {
        entry_items(items, n - 1)
    }
}

pub open spec fn schedule_items(content: Seq<char>) -> Option<Seq<Seq<char>>> {
    match json_member_at(content, "entries"@) {
        Some(e) => match json_items(e) {
            Some(items) => Some(entry_items(items, items.len() as int)),
            None => None,
        },
        None => None,
    }
}

pub open spec fn entries_match(es: Seq<ScheduleEntry>, items: Seq<Seq<char>>) -> bool {
    &&& es.len() == items.len()
    &&& forall|i: int| 0 <= i < es.len() ==> entry_matches(#[trigger] es[i], items[i])
}

/// The tasks of a task read: the `tasks` array, or the content itself as an
/// array.
pub open spec fn task_items(content: Seq<char>) -> Option<Seq<Seq<char>>> {
    match json_member_at(content, "tasks"@) {
        Some(t) if json_items(t) is Some => json_items(t),
        _ => json_items(content),
    }
}

pub open spec fn status_of(task: Seq<char>) -> Seq<char> {
    opt_text(json_str_at(task, "status"@), Seq::empty())
}

pub open spec fn is_done_status(s: Seq<char>) -> bool {
    s == "completed"@ || s == "skipped"@
}

/// (done, in progress, scheduled) among the first `n` tasks.
pub open spec fn status_counts(tasks: Seq<Seq<char>>, n: int) -> (nat, nat, nat)
    decreases n,
{
    if n <= 0 {
        (0, 0, 0)
    } else {
        let (d, p, s) = status_counts(tasks, n - 1);
        let st = status_of(tasks[n - 1]);
        if is_done_status(st) {
            (d + 1, p, s)
        } else if st == "in_progress"@ {
            (d, p + 1, s)
        } else {
            (d, p, s + 1)
        }
    }
}

/// The corrected texts of a speech-recognition correction: every answer
/// must carry a `text`.
pub open spec fn answer_texts(content: Seq<char>) -> Option<Seq<Seq<char>>> {
    match json_items(content) {
        Some(items) => if forall|i: int| 0 <= i < items.len() ==> json_str_at(#[trigger] items[i], "text"@) is Some {
            Some(items.map_values(|it: Seq<char>| json_str_at(it, "text"@).unwrap()))
        } else {
            None
        },
        None => None,
    }
}

fn focused_clarification(output: &ToolOutput) -> (r: Option<Presentation>)
    ensures
        match focused_message(output.content@) {
            Some(m) => r matches Some(Presentation::Clarification(q)) && q.message@ == m && q.choices@.len() == 0,
            None => r is None,
        },
{
    match json_str_field(output.content.as_str(), "focused_clarification") {
        Some(m) => {
            if m.as_str().is_empty() {
                None
            } else {
                Some(Presentation::Clarification(FocusedQuestion { message: m, choices: Vec::new() }))
            }
        },
        None => None,
    }
}

fn copy_entry(e: &ScheduleEntry) -> (r: ScheduleEntry)
    ensures
        r.reference@ == e.reference@,
        r.title@ == e.title@,
        opt_view(r.start_at) == opt_view(e.start_at),
        opt_view(r.end_at) == opt_view(e.end_at),
{
    ScheduleEntry {
        reference: string_of(e.reference.as_str()),
        title: string_of(e.title.as_str()),
        start_at: match &e.start_at { Some(s) => Some(string_of(s.as_str())), None => None },
        end_at: match &e.end_at { Some(s) => Some(string_of(s.as_str())), None => None },
    }
}

fn schedule_summary(output: &ToolOutput) -> (r: Option<Presentation>)
    ensures
        match schedule_items(output.content@) {
            Some(items) => r matches Some(Presentation::ScheduleSummary(s)) && entries_match(s.entries@, items)
                && (items.len() == 0 ==> s.next is None)
                && (items.len() > 0 ==> (s.next matches Some(n) && entry_matches(n, items[0]))),
            None => r is None,
        },
{
    let e = match json_member(output.content.as_str(), "entries") {
        Some(e) => e,
        None => return None,
    };
    let items = match json_array_items(e.as_str()) {
        Some(items) => items,
        None => return None,
    };
    let ghost all = views(items@);
    assert(all =~= json_items(e@).unwrap());
    let mut entries: Vec<ScheduleEntry> = Vec::new();
    let mut i: usize = 0;
    while i < items.len()
        invariant
            i <= items@.len(),
            all == views(items@),
            entries_match(entries@, entry_items(all, i as int)),
        decreases items@.len() - i,
    {
        let item = items[i].as_str();
        assert(all[i as int] == items@[i as int]@);
        let reference = json_str_field(item, "reference");
        let title = json_str_field(item, "title");
        match (reference, title) {
            (Some(reference), Some(title)) => {
                let start_at = json_str_field(item, "start_at");
                let end_at = json_str_field(item, "end_at");
                let ghost before = entries@;
                entries.push(ScheduleEntry { reference, title, start_at, end_at });
                proof {
                    let target = entry_items(all, i as int + 1);
                    assert forall|k: int| 0 <= k < entries@.len() implies entry_matches(#[trigger] entries@[k], target[k]) by {
                        if k < before.len() {
                            assert(entries@[k] == before[k]);
                        }
                    }
                }
            },
            _ => {},
        }
        i += 1;
    }
    let next = if entries.len() > 0 { Some(copy_entry(&entries[0])) } else { None };
    proof {
        if entries@.len() > 0 {
            assert(entry_matches(entries@[0], entry_items(all, all.len() as int)[0]));
        }
    }
    Some(Presentation::ScheduleSummary(ScheduleSummary { next, entries }))
}

fn progress_summary_from_tasks(output: &ToolOutput) -> (r: Option<Presentation>)
    ensures
        match task_items(output.content@) {
            Some(tasks) => r matches Some(Presentation::ProgressSummary(p))
                && (p.done as nat, p.in_progress as nat, p.scheduled as nat) == status_counts(tasks, tasks.len() as int),
            None => r is None,
        },
{
    let content = output.content.as_str();
    let from_tasks = match json_member(content, "tasks") {
        Some(t) => json_array_items(t.as_str()),
        None => None,
    };
    let arr = match from_tasks {
        Some(a) => a,
        None => match json_array_items(content) {
            Some(a) => a,
            None => return None,
        },
    };
    let ghost tasks = views(arr@);
    assert(Some(tasks) == task_items(output.content@));
    let mut done: usize = 0;
    let mut in_progress: usize = 0;
    let mut scheduled: usize = 0;
    let mut i: usize = 0;
    while i < arr.len()
        invariant
            i <= arr@.len(),
            tasks == views(arr@),
            (done as nat, in_progress as nat, scheduled as nat) == status_counts(tasks, i as int),
            done + in_progress + scheduled == i,
        decreases arr@.len() - i,
    {
        assert(tasks[i as int] == arr@[i as int]@);
        let status = match json_str_field(arr[i].as_str(), "status") {
            Some(s) => s,
            None => String::new(),
        };
        if str_eq(status.as_str(), "completed") || str_eq(status.as_str(), "skipped") {
            done += 1;
        } else if str_eq(status.as_str(), "in_progress") {
            in_progress += 1;
        } else {
            scheduled += 1;
        }
        i += 1;
    }
    Some(Presentation::ProgressSummary(ProgressSummary { done, in_progress, scheduled }))
}

fn correct_asr_clarification(output: &ToolOutput) -> (r: Option<Presentation>)
    ensures
        match answer_texts(output.content@) {
            Some(texts) => if texts.len() == 0 {
                r is None
            } else {
                r matches Some(Presentation::Clarification(q))
                    && q.message@ == "認識を修正しました："@ + join_with(texts, "、"@) && q.choices@.len() == 0
            },
            None => r is None,
        },
{
    let items = match json_array_items(output.content.as_str()) {
        Some(items) => items,
        None => return None,
    };
    let ghost all = views(items@);
    assert(all =~= json_items(output.content@).unwrap());
    let mut texts: Vec<String> = Vec::new();
    let mut i: usize = 0;
    while i < items.len()
        invariant
            i <= items@.len(),
            all == views(items@),
            json_items(output.content@) == Some(all),
            texts@.len() == i,
            forall|k: int| 0 <= k < i ==> json_str_at(#[trigger] all[k], "text"@) == Some(texts@[k]@),
        decreases items@.len() - i,
    {
        assert(all[i as int] == items@[i as int]@);
        match json_str_field(items[i].as_str(), "text") {
            Some(t) => {
                texts.push(t);
            },
            None => {
                assert(json_str_at(all[i as int], "text"@) is None);
                assert(!(forall|k: int| 0 <= k < all.len() ==> json_str_at(#[trigger] all[k], "text"@) is Some));
                return None;
            },
        }
        i += 1;
    }
    proof {
        assert(forall|k: int| 0 <= k < all.len() ==> json_str_at(#[trigger] all[k], "text"@) is Some);
        assert(views(texts@) =~= all.map_values(|it: Seq<char>| json_str_at(it, "text"@).unwrap()));
    }
    if texts.len() == 0 {
        return None;
    }
    let mut message = string_of("認識を修正しました：");
    let joined = crate::readback::join_strings_pub(&texts, "、");
    append_str(&mut message, joined.as_str());
    Some(Presentation::Clarification(FocusedQuestion { message, choices: Vec::new() }))
}

fn gap_capture_from_output(output: &ToolOutput) -> (r: Option<Presentation>)
    ensures
        match json_str_at(output.content@, "activity"@) {
            Some(a) => r matches Some(Presentation::CheckIn(c)) && c.question@ == gap_capture_question(a),
            None => r is None,
        },
{
    match json_str_field(output.content.as_str(), "activity") {
        Some(a) => Some(Presentation::CheckIn(gap_capture_check_in(a.as_str()))),
        None => None,
    }
}

pub open spec fn change_after(c: crate::tool::ProposedChange) -> Option<Seq<char>> {
    match c.after {
        Some(a) => Some(a@),
        None => None,
    }
}

impl Presentation {
    /// The presentation of a tool call's output, for the tools that have
    /// one: progress tools report a work transition (or their focused
    /// clarification), schedule reads a summary, task reads progress
    /// counts, speech corrections a clarification and gap capture a
    /// classification card.
    pub fn from_tool_output(name: &str, output: &ToolOutput) -> (p: Option<Presentation>)
        ensures
            if is_progress_tool(name@) {
                if output.proposed_changes@.len() > 0 {
                    let c = output.proposed_changes@[0];
                    match transition_of(c.operation) {
                        Some(_) => p matches Some(Presentation::WorkTransition(t)) && transition_matches(
                            t,
                            c.operation,
                            extracted_title_ref(change_after(c), c.target, c.description@).0,
                            extracted_title_ref(change_after(c), c.target, c.description@).1,
                            change_after(c),
                        ),
                        None => p is None,
                    }
                } else {
                    match focused_message(output.content@) {
                        Some(m) => p matches Some(Presentation::Clarification(q)) && q.message@ == m && q.choices@.len() == 0,
                        None => p is None,
                    }
                }
            } else if name@ == "get_schedule"@ || name@ == "preview_schedule"@ {
                match schedule_items(output.content@) {
                    Some(items) => p matches Some(Presentation::ScheduleSummary(s)) && entries_match(s.entries@, items)
                        && (items.len() == 0 ==> s.next is None)
                        && (items.len() > 0 ==> (s.next matches Some(n) && entry_matches(n, items[0]))),
                    None => p is None,
                }
            } else if name@ == "list_tasks"@ || name@ == "get_task"@ {
                match task_items(output.content@) {
                    Some(tasks) => p matches Some(Presentation::ProgressSummary(s))
                        && (s.done as nat, s.in_progress as nat, s.scheduled as nat) == status_counts(tasks, tasks.len() as int),
                    None => p is None,
                }
            } else if name@ == "correct_asr"@ {
                match answer_texts(output.content@) {
                    Some(texts) => if texts.len() == 0 {
                        p is None
                    } else {
                        p matches Some(Presentation::Clarification(q))
                            && q.message@ == "認識を修正しました："@ + join_with(texts, "、"@) && q.choices@.len() == 0
                    },
                    None => p is None,
                }
            } else if name@ == "gap_capture_check_in"@ {
                match json_str_at(output.content@, "activity"@) {
                    Some(a) => p matches Some(Presentation::CheckIn(c)) && c.question@ == gap_capture_question(a),
                    None => p is None,
                }
            } else {
                p is None
            },
    {
        let progress = str_eq(name, "task_start") || str_eq(name, "task_pause") || str_eq(name, "task_progress")
            || str_eq(name, "task_complete") || str_eq(name, "task_split") || str_eq(name, "task_undo")
            || str_eq(name, "move_task");
        if progress {
            if output.proposed_changes.len() > 0 {
                let change = &output.proposed_changes[0];
                let kind = match transition_for(change.operation) {
                    Some(k) => k,
                    None => return None,
                };
                let after: Option<&String> = match &change.after {
                    Some(a) => Some(a),
                    None => None,
                };
                let (title, reference) = extract_title_ref(after, &change.target, change.description.as_str());
                let detail = detail_of(change.operation, after);
                return Some(Presentation::WorkTransition(WorkTransition { kind, title, reference, detail }));
            }
            return focused_clarification(output);
        }
        if str_eq(name, "get_schedule") || str_eq(name, "preview_schedule") {
            return schedule_summary(output);
        }
        if str_eq(name, "list_tasks") || str_eq(name, "get_task") {
            return progress_summary_from_tasks(output);
        }
        if str_eq(name, "correct_asr") {
            return correct_asr_clarification(output);
        }
        if str_eq(name, "gap_capture_check_in") {
            return gap_capture_from_output(output);
        }
        None
    }
}

} // verus!
