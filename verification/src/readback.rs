//! Spoken readback of a change proposal.
//!
//! The readback reads the concrete fields out of each proposed change's
//! `after` value so the user hears what will actually be written: task
//! title, estimate, deadline, quantity, and schedule knock-on effects
//! (displaced tasks from a `_preview` block). It always ends with the
//! confirmation prompt 「よろしいですか」.

use vstd::prelude::*;
use crate::json::{
    json_array_items, json_as_str, json_i64_at, json_i64_field, json_is_null, json_items, json_member,
    json_member_at, json_null, json_str_at, json_str_field, json_string_value,
};
use crate::labels::{ChangeOperation, TargetKind};
use crate::session::{ApprovalRequest, DEFAULT_APPROVAL_WHY};
use crate::text::{
    append_str, chars_of, char_is_whitespace, i64_to_string, int_digits, is_whitespace_char, push_char,
    str_eq, string_from_range, string_of,
};
use crate::tool::{InferredField, ProposedChange};

verus! {

// ---------------------------------------------------------------------------
// Date formatting
// ---------------------------------------------------------------------------

/// The pattern a datetime is read aloud with, such as 「2026年08月28日
/// 23時59分」.
pub const VOICE_DATETIME_PATTERN: &'static str = "%Y年%m月%d日 %H時%M分";

/// The offset from UTC, in seconds, at which timestamps and civil datetimes
/// are read aloud: they are read as UTC.
pub const VOICE_OFFSET_SECONDS: i32 = 0;

/// The text `jiff` writes with `pattern` for a timestamp text, read at the
/// fixed offset of `offset_seconds` from UTC: `None` when the text is not a
/// timestamp, the offset is out of range or the pattern does not format.
pub uninterp spec fn timestamp_voice(pattern: Seq<char>, offset_seconds: i32, s: Seq<char>) -> Option<Seq<char>>;

/// `jiff::Timestamp::from_str`, `to_zoned` at `Offset::from_seconds`, then
/// `jiff::fmt::strtime::format` with `pattern`. The result is named; it
/// depends on the pattern, the offset and the text alone.
#[verifier::external_body]
fn timestamp_voice_text(pattern: &str, offset_seconds: i32, s: &str) -> (r: Option<String>)
    ensures
        match r {
            Some(v) => timestamp_voice(pattern@, offset_seconds, s@) == Some(v@),
            None => timestamp_voice(pattern@, offset_seconds, s@) is None,
        },
{
    let ts: jiff::Timestamp = s.parse().ok()?;
    let tz = jiff::tz::TimeZone::fixed(jiff::tz::Offset::from_seconds(offset_seconds).ok()?);
    jiff::fmt::strtime::format(pattern, &ts.to_zoned(tz)).ok()
}

/// The text `jiff` writes with `pattern` for a civil datetime text in
/// `format`, read at the fixed offset of `offset_seconds` from UTC: `None`
/// when the text does not match, the offset is out of range, the datetime
/// cannot be placed at that offset, or the pattern does not format.
pub uninterp spec fn civil_voice(format: Seq<char>, pattern: Seq<char>, offset_seconds: i32, s: Seq<char>) -> Option<Seq<char>>;

/// `jiff::civil::DateTime::strptime(format, s)`, `to_zoned` at
/// `Offset::from_seconds`, then `jiff::fmt::strtime::format` with `pattern`.
/// The result is named; it depends on its arguments alone.
#[verifier::external_body]
fn civil_voice_text(format: &str, pattern: &str, offset_seconds: i32, s: &str) -> (r: Option<String>)
    ensures
        match r {
            Some(v) => civil_voice(format@, pattern@, offset_seconds, s@) == Some(v@),
            None => civil_voice(format@, pattern@, offset_seconds, s@) is None,
        },
{
    let dt = jiff::civil::DateTime::strptime(format, s).ok()?;
    let tz = jiff::tz::TimeZone::fixed(jiff::tz::Offset::from_seconds(offset_seconds).ok()?);
    let zoned = dt.to_zoned(tz).ok()?;
    jiff::fmt::strtime::format(pattern, &zoned).ok()
}

/// `jiff::Zoned::from_str` followed by `jiff::fmt::strtime::format` with
/// `pattern`. A zoned text names its time zone, which `jiff` looks up in
/// the machine's time zone database, so nothing is promised of the result.
#[verifier::external_body]
fn zoned_voice_text(pattern: &str, s: &str) -> (r: Option<String>)
{
    let zoned: jiff::Zoned = s.parse().ok()?;
    jiff::fmt::strtime::format(pattern, &zoned).ok()
}

/// The civil formats tried, in order, after a timestamp.
pub open spec fn civil_formats() -> Seq<Seq<char>> {
    seq!["%Y-%m-%d %H:%M:%S"@, "%Y-%m-%dT%H:%M:%S"@, "%Y-%m-%dT%H:%M"@]
}

/// The voice text of a datetime, given what the zoned reading gave: empty
/// text stays empty; then the zoned reading, a UTC timestamp, each civil
/// format in turn, and finally the text itself.
pub open spec fn voice_datetime(s: Seq<char>, zoned: Option<Seq<char>>) -> Seq<char> {
    if s.len() == 0 {
        s
    } else if zoned is Some {
        zoned.unwrap()
    } else if timestamp_voice(VOICE_DATETIME_PATTERN@, VOICE_OFFSET_SECONDS, s) is Some {
        timestamp_voice(VOICE_DATETIME_PATTERN@, VOICE_OFFSET_SECONDS, s).unwrap()
    } else if civil_voice(civil_formats()[0], VOICE_DATETIME_PATTERN@, VOICE_OFFSET_SECONDS, s) is Some {
        civil_voice(civil_formats()[0], VOICE_DATETIME_PATTERN@, VOICE_OFFSET_SECONDS, s).unwrap()
    } else if civil_voice(civil_formats()[1], VOICE_DATETIME_PATTERN@, VOICE_OFFSET_SECONDS, s) is Some {
        civil_voice(civil_formats()[1], VOICE_DATETIME_PATTERN@, VOICE_OFFSET_SECONDS, s).unwrap()
    } else if civil_voice(civil_formats()[2], VOICE_DATETIME_PATTERN@, VOICE_OFFSET_SECONDS, s) is Some {
        civil_voice(civil_formats()[2], VOICE_DATETIME_PATTERN@, VOICE_OFFSET_SECONDS, s).unwrap()
    } else {
        s
    }
}

/// Format a datetime text for voice, given the zoned reading's result.
pub fn format_voice_with(s: &str, zoned: Option<String>) -> (r: String)
    ensures
        r@ == voice_datetime(s@, match zoned { Some(z) => Some(z@), None => None }),
{
    if s.is_empty() {
        return string_of(s);
    }
    if let Some(z) = zoned {
        return z;
    }
    if let Some(t) = timestamp_voice_text(VOICE_DATETIME_PATTERN, VOICE_OFFSET_SECONDS, s) {
        return t;
    }
    proof { reveal_strlit("%Y-%m-%d %H:%M:%S"); reveal_strlit("%Y-%m-%dT%H:%M:%S"); reveal_strlit("%Y-%m-%dT%H:%M"); }
    if let Some(t) = civil_voice_text("%Y-%m-%d %H:%M:%S", VOICE_DATETIME_PATTERN, VOICE_OFFSET_SECONDS, s) {
        return t;
    }
    if let Some(t) = civil_voice_text("%Y-%m-%dT%H:%M:%S", VOICE_DATETIME_PATTERN, VOICE_OFFSET_SECONDS, s) {
        return t;
    }
    if let Some(t) = civil_voice_text("%Y-%m-%dT%H:%M", VOICE_DATETIME_PATTERN, VOICE_OFFSET_SECONDS, s) {
        return t;
    }
    string_of(s)
}

/// Format a stored datetime text for voice, such as 「2026年08月28日
/// 23時59分」, falling back to the text itself when it does not parse.
pub fn format_datetime_for_voice(s: &str) -> (r: String)
    ensures
        exists|zoned: Option<Seq<char>>| r@ == voice_datetime(s@, zoned),
{
    let zoned = zoned_voice_text(VOICE_DATETIME_PATTERN, s);
    let ghost z = opt_view(zoned);
    let r = format_voice_with(s, zoned);
    assert(r@ == voice_datetime(s@, z));
    r
}

// ---------------------------------------------------------------------------
// Joining
// ---------------------------------------------------------------------------

/// The parts joined with `sep`.
pub open spec fn join_with(parts: Seq<Seq<char>>, sep: Seq<char>) -> Seq<char>
    decreases parts.len(),
{
    if parts.len() == 0 {
        Seq::empty()
    } else if parts.len() == 1 {
        parts[0]
    } else {
        join_with(parts.drop_last(), sep) + sep + parts.last()
    }
}

pub open spec fn views(ps: Seq<String>) -> Seq<Seq<char>> {
    ps.map_values(|s: String| s@)
}

/// The strings joined with `sep`.
pub fn join_strings_pub(parts: &Vec<String>, sep: &str) -> (r: String)
    ensures
        r@ == join_with(views(parts@), sep@),
{
    join_strings(parts, sep)
}

fn join_strings(parts: &Vec<String>, sep: &str) -> (r: String)
    ensures
        r@ == join_with(views(parts@), sep@),
{
    let mut out = String::new();
    let mut i: usize = 0;
    while i < parts.len()
        invariant
            i <= parts@.len(),
            out@ == join_with(views(parts@.subrange(0, i as int)), sep@),
        decreases parts@.len() - i,
    {
        if i > 0 {
            append_str(&mut out, sep);
        }
        append_str(&mut out, parts[i].as_str());
        proof {
            let v = views(parts@.subrange(0, i as int + 1));
            assert(v.drop_last() =~= views(parts@.subrange(0, i as int)));
            if i == 0 {
                assert(out@ =~= v[0]);
            }
        }
        i += 1;
    }
    assert(parts@.subrange(0, parts@.len() as int) =~= parts@);
    out
}

// ---------------------------------------------------------------------------
// Parts of the readback
// ---------------------------------------------------------------------------

/// The formatted start and end of a change's `after` value, present exactly
/// when that value has a string `start_at` / `end_at`.
pub type ChangeDates = (Option<Seq<char>>, Option<Seq<char>>);

pub open spec fn opt_text(s: Option<Seq<char>>, d: Seq<char>) -> Seq<char> {
    match s {
        Some(v) => v,
        None => d,
    }
}

pub open spec fn quantity_part(after: Seq<char>) -> Option<Seq<char>> {
    match json_i64_at(after, "quantity_total"@) {
        Some(q) => if q > 0 {
            let unit = opt_text(json_str_at(after, "quantity_unit"@), Seq::empty());
            Some("数量"@ + int_digits(q as int) + unit)
        } else {
            None
        },
        None => None,
    }
}

pub open spec fn push_opt(parts: Seq<Seq<char>>, p: Option<Seq<char>>) -> Seq<Seq<char>> {
    match p {
        Some(v) => parts.push(v),
        None => parts,
    }
}

pub open spec fn estimate_part(after: Seq<char>) -> Option<Seq<char>> {
    match json_i64_at(after, "avg_minutes"@) {
        Some(avg) => Some("見積もり"@ + int_digits(avg as int) + "分"@),
        None => None,
    }
}

pub open spec fn deadline_part(after: Seq<char>, d: ChangeDates) -> Option<Seq<char>> {
    if json_str_at(after, "end_at"@) is Some { Some("期限"@ + d.1.unwrap() + "まで"@) } else { None }
}

pub open spec fn start_part(after: Seq<char>, d: ChangeDates) -> Option<Seq<char>> {
    if json_str_at(after, "start_at"@) matches Some(s) && s.len() > 0 { Some("開始"@ + d.0.unwrap() + "から"@) } else { None }
}

/// A task-create proposal in spoken Japanese.
pub open spec fn task_create_text(after: Seq<char>, d: ChangeDates) -> Seq<char> {
    let title = opt_text(json_str_at(after, "title"@), "タスク"@);
    let parts = seq!["「"@ + title + "」を作成"@];
    let parts = push_opt(parts, estimate_part(after));
    let parts = push_opt(parts, quantity_part(after));
    let parts = push_opt(parts, deadline_part(after, d));
    let parts = push_opt(parts, start_part(after, d));
    join_with(parts, "、"@)
}

/// A task-update proposal in spoken Japanese; the description when the
/// update names no title.
pub open spec fn task_update_text(after: Seq<char>, description: Seq<char>, d: ChangeDates) -> Seq<char> {
    let title = opt_text(json_str_at(after, "title"@), Seq::empty());
    if title.len() == 0 {
        description
    } else {
        let parts = seq!["「"@ + title + "」を更新"@];
        let parts = push_opt(parts, deadline_part(after, d));
        let parts = push_opt(parts, start_part(after, d));
        let parts = push_opt(parts, estimate_part(after));
        let parts = push_opt(parts, quantity_part(after));
        join_with(parts, "、"@)
    }
}

/// The preview block of a schedule proposal.
pub open spec fn preview_of(after: Seq<char>) -> Option<Seq<char>> {
    match json_member_at(after, "_preview"@) {
        Some(p) => Some(p),
        None => json_member_at(after, "_preview_entries"@),
    }
}

/// The entries of a preview, when they form an array.
pub open spec fn preview_entries(preview: Option<Seq<char>>) -> Option<Seq<Seq<char>>> {
    match preview {
        Some(p) => match json_member_at(p, "entries"@) {
            Some(e) => json_items(e),
            None => None,
        },
        None => None,
    }
}

/// The title of the first entry, when it has a non-empty one.
pub open spec fn first_entry_title(entries: Option<Seq<Seq<char>>>) -> Option<Seq<char>> {
    match entries {
        Some(es) => if es.len() > 0 {
            let t = opt_text(json_str_at(es[0], "title"@), Seq::empty());
            if t.len() > 0 { Some(t) } else { None }
        } else {
            None
        },
        None => None,
    }
}

/// The title recorded for `reference` among the first `n` entries: the
/// last entry with that non-empty reference and a non-empty title.
pub open spec fn title_for(entries: Seq<Seq<char>>, reference: Seq<char>, n: int) -> Option<Seq<char>>
    decreases n,
{
    if n <= 0 {
        None
    } else {
        let e = entries[n - 1];
        let r = opt_text(json_str_at(e, "reference"@), Seq::empty());
        let t = opt_text(json_str_at(e, "title"@), Seq::empty());
        if r.len() > 0 && t.len() > 0 && r == reference {
            Some(t)
        } else {
            title_for(entries, reference, n - 1)
        }
    }
}

/// Whether a displaced-task reference names a task at all.
pub open spec fn names_task(r: Seq<char>) -> bool {
    &&& r.len() > 0
    &&& r != "unknown"@
    &&& !(r.len() >= 8 && r.subrange(0, 8) == "unknown "@)
}

/// The distinct titles of the first `n` displaced references, in order of
/// first appearance.
pub open spec fn displaced_titles(ids: Seq<Seq<char>>, entries: Seq<Seq<char>>, n: int) -> Seq<Seq<char>>
    decreases n,
{
    if n <= 0 {
        Seq::empty()
    } else {
        let prev = displaced_titles(ids, entries, n - 1);
        match json_string_value(ids[n - 1]) {
            Some(r) => if names_task(r) {
                let t = opt_text(title_for(entries, r, entries.len() as int), "unknown task"@);
                if prev.contains(t) { prev } else { prev.push(t) }
            } else {
                prev
            },
            None => prev,
        }
    }
}

pub open spec fn displaced_ids(preview: Option<Seq<char>>) -> Option<Seq<Seq<char>>> {
    match preview {
        Some(p) => match json_member_at(p, "displaced_task_ids"@) {
            Some(d) => json_items(d),
            None => None,
        },
        None => None,
    }
}

/// The knock-on schedule impact of a generate or reschedule proposal: the
/// nearest entry and the displaced tasks.
pub open spec fn schedule_impact_text(after: Option<Seq<char>>, op: ChangeOperation, description: Seq<char>) -> Seq<char> {
    match after {
        None => description,
        Some(a) => {
            let base = if op == ChangeOperation::Reschedule { "スケジュールを再調整"@ } else { "スケジュールを生成"@ };
            let preview = preview_of(a);
            let entries = preview_entries(preview);
            let with_first = match first_entry_title(entries) {
                Some(first) => base + "。直近は"@ + first + "から"@,
                None => base,
            };
            let known = match entries { Some(es) => es, None => Seq::empty() };
            match displaced_ids(preview) {
                Some(ids) => {
                    let titles = displaced_titles(ids, known, ids.len() as int);
                    if titles.len() > 0 { with_first + "。"@ + join_with(titles, "、"@) + "がずれます"@ } else { with_first }
                },
                None => with_first,
            }
        },
    }
}

/// A settlement proposal: its description, the settled interval and the
/// nearest entry of the new schedule.
pub open spec fn settlement_text(after: Option<Seq<char>>, description: Seq<char>, d: ChangeDates) -> Seq<char> {
    match after {
        None => description,
        Some(a) => {
            let parts = seq![description];
            let parts = if json_str_at(a, "start_at"@) is Some && json_str_at(a, "end_at"@) is Some {
                parts.push(d.0.unwrap() + "から"@ + d.1.unwrap() + "を精算"@)
            } else {
                parts
            };
            let parts = match first_entry_title(preview_entries(preview_of(a))) {
                Some(first) => parts.push("直近は"@ + first + "から"@),
                None => parts,
            };
            join_with(parts, "。"@)
        },
    }
}

/// Which list a change's part goes to: 0 tasks, 1 schedule, 2 other.
pub open spec fn part_group(c: ProposedChange) -> int {
    if c.target.kind == TargetKind::Task
        && (c.operation == ChangeOperation::Create || c.operation == ChangeOperation::Update || c.operation == ChangeOperation::Delete) {
        0
    } else if c.target.kind == TargetKind::Schedule
        && (c.operation == ChangeOperation::Generate || c.operation == ChangeOperation::Reschedule || c.operation == ChangeOperation::Settle) {
        1
    } else {
        2
    }
}

pub open spec fn after_text(c: ProposedChange) -> Option<Seq<char>> {
    match c.after {
        Some(a) => Some(a@),
        None => None,
    }
}

/// The `after` value when it is present and not JSON `null`.
pub open spec fn live_after(c: ProposedChange) -> Option<Seq<char>> {
    match c.after {
        Some(a) => if json_null(a@) { None } else { Some(a@) },
        None => None,
    }
}

/// The spoken part of one change.
pub open spec fn change_part(c: ProposedChange, d: ChangeDates) -> Seq<char> {
    if c.target.kind == TargetKind::Task && c.operation == ChangeOperation::Create {
        match live_after(c) {
            Some(a) => task_create_text(a, d),
            None => c.description@,
        }
    } else if c.target.kind == TargetKind::Task && c.operation == ChangeOperation::Update {
        match live_after(c) {
            Some(a) => task_update_text(a, c.description@, d),
            None => c.description@,
        }
    } else if c.target.kind == TargetKind::Schedule && c.operation == ChangeOperation::Settle {
        settlement_text(after_text(c), c.description@, d)
    } else if part_group(c) == 1 {
        schedule_impact_text(after_text(c), c.operation, c.description@)
    } else {
        c.description@
    }
}

/// The parts of group `g` among the first `n` changes, in order.
pub open spec fn group_parts(cs: Seq<ProposedChange>, ds: Seq<ChangeDates>, g: int, n: int) -> Seq<Seq<char>>
    decreases n,
{
    if n <= 0 {
        Seq::empty()
    } else {
        let prev = group_parts(cs, ds, g, n - 1);
        if part_group(cs[n - 1]) == g { prev.push(change_part(cs[n - 1], ds[n - 1])) } else { prev }
    }
}

pub open spec fn inferred_label(field: Seq<char>) -> Seq<char> {
    if field == "title"@ {
        "タイトル"@
    } else if field == "quantity_total"@ {
        "数量"@
    } else if field == "quantity_unit"@ {
        "単位"@
    } else if field == "avg_minutes"@ {
        "見積もり時間"@
    } else if field == "sigma_minutes"@ {
        "標準偏差"@
    } else if field == "end_at"@ {
        "期限"@
    } else if field == "start_at"@ {
        "開始時間"@
    } else {
        field
    }
}

pub open spec fn all_whitespace(s: Seq<char>) -> bool {
    forall|i: int| 0 <= i < s.len() ==> is_whitespace_char(#[trigger] s[i])
}

/// `s` without its trailing 「。」 characters.
pub open spec fn trim_end_periods(s: Seq<char>) -> Seq<char>
    decreases s.len(),
{
    if s.len() > 0 && s.last() == '。' { trim_end_periods(s.drop_last()) } else { s }
}

pub open spec fn inferred_parts(fs: Seq<InferredField>, n: int) -> Seq<Seq<char>>
    decreases n,
{
    if n <= 0 {
        Seq::empty()
    } else {
        let prev = inferred_parts(fs, n - 1);
        let f = fs[n - 1];
        if all_whitespace(f.reason@) {
            prev
        } else {
            prev.push(inferred_label(f.field@) + "は"@ + trim_end_periods(f.reason@))
        }
    }
}

/// 「なお、…。」 listing the inferred fields with a reason, or nothing.
pub open spec fn inferred_summary(fs: Seq<InferredField>) -> Seq<char> {
    let parts = inferred_parts(fs, fs.len() as int);
    if parts.len() == 0 { Seq::empty() } else { "なお、"@ + join_with(parts, "、"@) + "。"@ }
}

pub open spec fn ends_with_period(s: Seq<char>) -> bool {
    s.len() > 0 && s.last() == '。'
}

/// `body` followed by a group's parts joined by 「。」 and closed with 「。」,
/// separated by a space from what came before.
pub open spec fn add_group(body: Seq<char>, parts: Seq<Seq<char>>) -> Seq<char> {
    if parts.len() == 0 {
        body
    } else {
        let sep = if body.len() > 0 { " "@ } else { Seq::empty() };
        body + sep + join_with(parts, "。"@) + "。"@
    }
}

/// The readback of a request, given the formatted dates of each change.
pub open spec fn readback_spec(req: ApprovalRequest, ds: Seq<ChangeDates>) -> Seq<char> {
    let cs = req.changes@;
    let n = cs.len() as int;
    let body = add_group(add_group(add_group(Seq::empty(), group_parts(cs, ds, 0, n)), group_parts(cs, ds, 1, n)), group_parts(cs, ds, 2, n));
    let why = req.why@;
    let body = if why.len() > 0 && why != DEFAULT_APPROVAL_WHY@ {
        let b = body + (if body.len() > 0 { " "@ } else { Seq::empty() }) + why;
        if ends_with_period(b) { b } else { b.push('。') }
    } else {
        body
    };
    let summary = inferred_summary(req.inferred_fields@);
    let body = if summary.len() > 0 {
        (if body.len() > 0 && !ends_with_period(body) { body.push('。') } else { body }) + summary
    } else {
        body
    };
    let body = if body.len() == 0 { why } else { body };
    let body = if body.len() == 0 { "変更を提案しました"@ } else { body };
    let body = if ends_with_period(body) { body.drop_last() } else { body };
    body + "。よろしいですか"@
}

/// Whether the dates fit the changes: a formatted start (end) exactly when
/// the change's `after` has a string `start_at` (`end_at`).
pub open spec fn dates_fit(cs: Seq<ProposedChange>, ds: Seq<ChangeDates>) -> bool {
    &&& ds.len() == cs.len()
    &&& forall|i: int| 0 <= i < cs.len() ==> {
        let a = after_text(#[trigger] cs[i]);
        &&& (ds[i].0 is Some <==> (a matches Some(t) && json_str_at(t, "start_at"@) is Some))
        &&& (ds[i].1 is Some <==> (a matches Some(t) && json_str_at(t, "end_at"@) is Some))
    }
}

/// Whether `v` is a voice reading of the datetime text `s`, for some result
/// of the zoned reading.
pub open spec fn voiced(v: Seq<char>, s: Seq<char>) -> bool {
    exists|z: Option<Seq<char>>| v == #[trigger] voice_datetime(s, z)
}

/// Whether each formatted date of one change reads its `after` text's
/// `start_at` (`end_at`) for voice.
pub open spec fn date_voiced(after: Option<Seq<char>>, d: ChangeDates) -> bool {
    &&& (d.0 matches Some(v) ==> (after matches Some(t) && json_str_at(t, "start_at"@) matches Some(s) && voiced(v, s)))
    &&& (d.1 matches Some(v) ==> (after matches Some(t) && json_str_at(t, "end_at"@) matches Some(s) && voiced(v, s)))
}

/// The dates fit the changes, and each is the voice reading of the
/// change's own `start_at` or `end_at`.
pub open spec fn dates_voiced(cs: Seq<ProposedChange>, ds: Seq<ChangeDates>) -> bool {
    &&& dates_fit(cs, ds)
    &&& forall|i: int| 0 <= i < cs.len() ==> date_voiced(after_text(#[trigger] cs[i]), ds[i])
}

// ---------------------------------------------------------------------------
// Building the readback
// ---------------------------------------------------------------------------

pub open spec fn opt_view(o: Option<String>) -> Option<Seq<char>> {
    match o {
        Some(s) => Some(s@),
        None => None,
    }
}

pub open spec fn date_view(d: (Option<String>, Option<String>)) -> ChangeDates {
    (opt_view(d.0), opt_view(d.1))
}

pub open spec fn dates_view(ds: Seq<(Option<String>, Option<String>)>) -> Seq<ChangeDates> {
    ds.map_values(|d: (Option<String>, Option<String>)| date_view(d))
}

/// Whether the dates fit one `after` text.
pub open spec fn date_fits(after: Seq<char>, d: ChangeDates) -> bool {
    &&& (d.0 is Some <==> json_str_at(after, "start_at"@) is Some)
    &&& (d.1 is Some <==> json_str_at(after, "end_at"@) is Some)
}

fn push_part(parts: &mut Vec<String>, p: String)
    ensures
        views(final(parts)@) == views(old(parts)@).push(p@),
{
    let ghost before = parts@;
    parts.push(p);
    assert(views(parts@) =~= views(before).push(p@));
}

fn estimate_part_of(after: &str) -> (r: Option<String>)
    ensures
        opt_view(r) == estimate_part(after@),
{
    match json_i64_field(after, "avg_minutes") {
        Some(avg) => {
            let mut t = string_of("見積もり");
            let d = i64_to_string(avg);
            append_str(&mut t, d.as_str());
            append_str(&mut t, "分");
            Some(t)
        },
        None => None,
    }
}

fn quantity_part_of(after: &str) -> (r: Option<String>)
    ensures
        opt_view(r) == quantity_part(after@),
{
    match json_i64_field(after, "quantity_total") {
        Some(q) => {
            if q > 0 {
                let mut t = string_of("数量");
                let d = i64_to_string(q);
                append_str(&mut t, d.as_str());
                match json_str_field(after, "quantity_unit") {
                    Some(u) => append_str(&mut t, u.as_str()),
                    None => {
                        proof { reveal_strlit(""); }
                    },
                }
                proof {
                    assert(opt_text(json_str_at(after@, "quantity_unit"@), Seq::empty()) == (match json_str_at(after@, "quantity_unit"@) { Some(u) => u, None => Seq::<char>::empty() }));
                }
                Some(t)
            } else {
                None
            }
        },
        None => None,
    }
}

fn deadline_part_of(after: &str, d: &(Option<String>, Option<String>)) -> (r: Option<String>)
    requires
        date_fits(after@, date_view(*d)),
    ensures
        opt_view(r) == deadline_part(after@, date_view(*d)),
{
    match &d.1 {
        Some(end) => {
            let mut t = string_of("期限");
            append_str(&mut t, end.as_str());
            append_str(&mut t, "まで");
            Some(t)
        },
        None => None,
    }
}

fn start_part_of(after: &str, d: &(Option<String>, Option<String>)) -> (r: Option<String>)
    requires
        date_fits(after@, date_view(*d)),
    ensures
        opt_view(r) == start_part(after@, date_view(*d)),
{
    match json_str_field(after, "start_at") {
        Some(s) => {
            if s.as_str().is_empty() {
                return None;
            }
            match &d.0 {
                Some(start) => {
                    let mut t = string_of("開始");
                    append_str(&mut t, start.as_str());
                    append_str(&mut t, "から");
                    Some(t)
                },
                None => None,
            }
        },
        None => None,
    }
}

fn push_opt_part(parts: &mut Vec<String>, p: Option<String>)
    ensures
        views(final(parts)@) == push_opt(views(old(parts)@), opt_view(p)),
{
    match p {
        Some(v) => push_part(parts, v),
        None => {},
    }
}

fn quoted_title(title: &str, rest: &str) -> (r: String)
    ensures
        r@ == "「"@ + title@ + rest@,
{
    let mut t = string_of("「");
    append_str(&mut t, title);
    append_str(&mut t, rest);
    t
}

fn task_create_of(after: &str, d: &(Option<String>, Option<String>)) -> (r: String)
    requires
        date_fits(after@, date_view(*d)),
    ensures
        r@ == task_create_text(after@, date_view(*d)),
{
    let title = match json_str_field(after, "title") {
        Some(t) => t,
        None => string_of("タスク"),
    };
    let mut parts: Vec<String> = Vec::new();
    push_part(&mut parts, quoted_title(title.as_str(), "」を作成"));
    assert(views(parts@) =~= seq!["「"@ + title@ + "」を作成"@]);
    push_opt_part(&mut parts, estimate_part_of(after));
    push_opt_part(&mut parts, quantity_part_of(after));
    push_opt_part(&mut parts, deadline_part_of(after, d));
    push_opt_part(&mut parts, start_part_of(after, d));
    join_strings(&parts, "、")
}

fn task_update_of(after: &str, description: &str, d: &(Option<String>, Option<String>)) -> (r: String)
    requires
        date_fits(after@, date_view(*d)),
    ensures
        r@ == task_update_text(after@, description@, date_view(*d)),
{
    let title = match json_str_field(after, "title") {
        Some(t) => t,
        None => String::new(),
    };
    if title.as_str().is_empty() {
        return string_of(description);
    }
    let mut parts: Vec<String> = Vec::new();
    push_part(&mut parts, quoted_title(title.as_str(), "」を更新"));
    assert(views(parts@) =~= seq!["「"@ + title@ + "」を更新"@]);
    push_opt_part(&mut parts, deadline_part_of(after, d));
    push_opt_part(&mut parts, start_part_of(after, d));
    push_opt_part(&mut parts, estimate_part_of(after));
    push_opt_part(&mut parts, quantity_part_of(after));
    join_strings(&parts, "、")
}

fn preview_text(after: &str) -> (r: Option<String>)
    ensures
        opt_view(r) == preview_of(after@),
{
    match json_member(after, "_preview") {
        Some(p) => Some(p),
        None => json_member(after, "_preview_entries"),
    }
}

fn entries_of(preview: &Option<String>) -> (r: Option<Vec<String>>)
    ensures
        match r {
            Some(v) => preview_entries(opt_view(*preview)) == Some(views(v@)),
            None => preview_entries(opt_view(*preview)) is None,
        },
{
    match preview {
        Some(p) => match json_member(p.as_str(), "entries") {
            Some(e) => {
                let items = json_array_items(e.as_str());
                proof {
                    if items is Some {
                        assert(views(items.unwrap()@) =~= json_items(e@).unwrap());
                    }
                }
                items
            },
            None => None,
        },
        None => None,
    }
}

fn first_title_of(entries: &Option<Vec<String>>) -> (r: Option<String>)
    ensures
        opt_view(r) == first_entry_title(match entries { Some(v) => Some(views(v@)), None => None }),
{
    match entries {
        Some(es) => {
            if es.len() > 0 {
                let t = match json_str_field(es[0].as_str(), "title") {
                    Some(t) => t,
                    None => String::new(),
                };
                if t.as_str().is_empty() { None } else { Some(t) }
            } else {
                None
            }
        },
        None => None,
    }
}

fn lookup_title(entries: &Vec<String>, reference: &String) -> (r: Option<String>)
    ensures
        opt_view(r) == title_for(views(entries@), reference@, entries@.len() as int),
{
    let mut n = entries.len();
    while n > 0
        invariant
            n <= entries@.len(),
            title_for(views(entries@), reference@, entries@.len() as int) == title_for(views(entries@), reference@, n as int),
        decreases n,
    {
        let e = &entries[n - 1];
        let r = match json_str_field(e.as_str(), "reference") {
            Some(r) => r,
            None => String::new(),
        };
        let t = match json_str_field(e.as_str(), "title") {
            Some(t) => t,
            None => String::new(),
        };
        if !r.as_str().is_empty() && !t.as_str().is_empty() && r == *reference {
            return Some(t);
        }
        n -= 1;
    }
    None
}

fn names_task_exec(r: &String) -> (b: bool)
    ensures
        b == names_task(r@),
{
    if r.as_str().is_empty() || str_eq(r.as_str(), "unknown") {
        return false;
    }
    let cs = chars_of(r.as_str());
    if cs.len() >= 8 {
        let prefix = string_from_range(&cs, 0, 8);
        if str_eq(prefix.as_str(), "unknown ") {
            return false;
        }
    }
    true
}

fn contains_text(v: &Vec<String>, t: &String) -> (r: bool)
    ensures
        r == views(v@).contains(t@),
{
    let mut i: usize = 0;
    while i < v.len()
        invariant
            i <= v@.len(),
            forall|j: int| 0 <= j < i ==> (#[trigger] v@[j])@ != t@,
        decreases v@.len() - i,
    {
        if v[i] == *t {
            assert(views(v@)[i as int] == t@);
            return true;
        }
        i += 1;
    }
    proof {
        if views(v@).contains(t@) {
            let j = choose|j: int| 0 <= j < views(v@).len() && views(v@)[j] == t@;
            assert(v@[j]@ == t@);
        }
    }
    false
}

fn schedule_impact_of(after: &Option<String>, op: ChangeOperation, description: &str) -> (r: String)
    ensures
        r@ == schedule_impact_text(opt_view(*after), op, description@),
{
    let a = match after {
        Some(a) => a,
        None => return string_of(description),
    };
    let mut summary = if op == ChangeOperation::Reschedule { string_of("スケジュールを再調整") } else { string_of("スケジュールを生成") };
    let preview = preview_text(a.as_str());
    let entries = entries_of(&preview);
    match first_title_of(&entries) {
        Some(first) => {
            append_str(&mut summary, "。直近は");
            append_str(&mut summary, first.as_str());
            append_str(&mut summary, "から");
        },
        None => {},
    }
    let known: Vec<String> = match entries {
        Some(es) => es,
        None => Vec::new(),
    };
    let ghost known_v = views(known@);
    proof {
        assert(known_v == (match preview_entries(preview_of(a@)) { Some(es) => es, None => Seq::<Seq<char>>::empty() }));
    }
    let ids = match &preview {
        Some(p) => match json_member(p.as_str(), "displaced_task_ids") {
            Some(d) => json_array_items(d.as_str()),
            None => None,
        },
        None => None,
    };
    let ids = match ids {
        Some(ids) => ids,
        None => return summary,
    };
    proof {
        assert(views(ids@) =~= displaced_ids(preview_of(a@)).unwrap());
    }
    let mut titles: Vec<String> = Vec::new();
    let mut i: usize = 0;
    while i < ids.len()
        invariant
            i <= ids@.len(),
            known_v == views(known@),
            views(titles@) == displaced_titles(views(ids@), known_v, i as int),
        decreases ids@.len() - i,
    {
        match json_as_str(ids[i].as_str()) {
            Some(r) => {
                if names_task_exec(&r) {
                    let t = match lookup_title(&known, &r) {
                        Some(t) => t,
                        None => string_of("unknown task"),
                    };
                    if !contains_text(&titles, &t) {
                        push_part(&mut titles, t);
                    }
                }
            },
            None => {},
        }
        i += 1;
    }
    if titles.len() > 0 {
        append_str(&mut summary, "。");
        let joined = join_strings(&titles, "、");
        append_str(&mut summary, joined.as_str());
        append_str(&mut summary, "がずれます");
    }
    summary
}

fn settlement_of(after: &Option<String>, description: &str, d: &(Option<String>, Option<String>)) -> (r: String)
    requires
        after matches Some(a) ==> date_fits(a@, date_view(*d)),
    ensures
        r@ == settlement_text(opt_view(*after), description@, date_view(*d)),
{
    let a = match after {
        Some(a) => a,
        None => return string_of(description),
    };
    let mut parts: Vec<String> = Vec::new();
    push_part(&mut parts, string_of(description));
    assert(views(parts@) =~= seq![description@]);
    match (&d.0, &d.1) {
        (Some(start), Some(end)) => {
            let mut t = string_of(start.as_str());
            append_str(&mut t, "から");
            append_str(&mut t, end.as_str());
            append_str(&mut t, "を精算");
            push_part(&mut parts, t);
        },
        _ => {},
    }
    let preview = preview_text(a.as_str());
    let entries = entries_of(&preview);
    match first_title_of(&entries) {
        Some(first) => {
            let mut t = string_of("直近は");
            append_str(&mut t, first.as_str());
            append_str(&mut t, "から");
            push_part(&mut parts, t);
        },
        None => {},
    }
    join_strings(&parts, "。")
}

fn live_after_of(c: &ProposedChange) -> (r: Option<&String>)
    ensures
        match r {
            Some(a) => live_after(*c) == Some(a@),
            None => live_after(*c) is None,
        },
{
    match &c.after {
        Some(a) => if json_is_null(a.as_str()) { None } else { Some(a) },
        None => None,
    }
}

fn change_part_of(c: &ProposedChange, d: &(Option<String>, Option<String>)) -> (r: String)
    requires
        after_text(*c) matches Some(a) ==> date_fits(a, date_view(*d)),
    ensures
        r@ == change_part(*c, date_view(*d)),
{
    let task = c.target.kind == TargetKind::Task;
    let schedule = c.target.kind == TargetKind::Schedule;
    if task && c.operation == ChangeOperation::Create {
        match live_after_of(c) {
            Some(a) => task_create_of(a.as_str(), d),
            None => string_of(c.description.as_str()),
        }
    } else if task && c.operation == ChangeOperation::Update {
        match live_after_of(c) {
            Some(a) => task_update_of(a.as_str(), c.description.as_str(), d),
            None => string_of(c.description.as_str()),
        }
    } else if schedule && c.operation == ChangeOperation::Settle {
        settlement_of(&c.after, c.description.as_str(), d)
    } else if schedule && (c.operation == ChangeOperation::Generate || c.operation == ChangeOperation::Reschedule) {
        schedule_impact_of(&c.after, c.operation, c.description.as_str())
    } else {
        string_of(c.description.as_str())
    }
}

fn inferred_label_of(field: &str) -> (r: String)
    ensures
        r@ == inferred_label(field@),
{
    if str_eq(field, "title") {
        string_of("タイトル")
    } else if str_eq(field, "quantity_total") {
        string_of("数量")
    } else if str_eq(field, "quantity_unit") {
        string_of("単位")
    } else if str_eq(field, "avg_minutes") {
        string_of("見積もり時間")
    } else if str_eq(field, "sigma_minutes") {
        string_of("標準偏差")
    } else if str_eq(field, "end_at") {
        string_of("期限")
    } else if str_eq(field, "start_at") {
        string_of("開始時間")
    } else {
        string_of(field)
    }
}

fn is_blank(s: &str) -> (r: bool)
    ensures
        r == all_whitespace(s@),
{
    let cs = chars_of(s);
    let mut i: usize = 0;
    while i < cs.len()
        invariant
            cs@ == s@,
            i <= cs@.len(),
            forall|j: int| 0 <= j < i ==> is_whitespace_char(#[trigger] cs@[j]),
        decreases cs@.len() - i,
    {
        if !char_is_whitespace(cs[i]) {
            return false;
        }
        i += 1;
    }
    true
}

fn trim_periods(s: &str) -> (r: String)
    ensures
        r@ == trim_end_periods(s@),
{
    let cs = chars_of(s);
    let mut n = cs.len();
    assert(cs@.subrange(0, n as int) =~= cs@);
    while n > 0 && cs[n - 1] == '。'
        invariant
            cs@ == s@,
            n <= cs@.len(),
            trim_end_periods(s@) == trim_end_periods(cs@.subrange(0, n as int)),
        decreases n,
    {
        assert(cs@.subrange(0, n as int).drop_last() =~= cs@.subrange(0, n - 1));
        n -= 1;
    }
    string_from_range(&cs, 0, n)
}

fn inferred_summary_of(fields: &Vec<InferredField>) -> (r: String)
    ensures
        r@ == inferred_summary(fields@),
{
    let mut parts: Vec<String> = Vec::new();
    let mut i: usize = 0;
    while i < fields.len()
        invariant
            i <= fields@.len(),
            views(parts@) == inferred_parts(fields@, i as int),
        decreases fields@.len() - i,
    {
        let f = &fields[i];
        if !is_blank(f.reason.as_str()) {
            let mut t = inferred_label_of(f.field.as_str());
            append_str(&mut t, "は");
            let reason = trim_periods(f.reason.as_str());
            append_str(&mut t, reason.as_str());
            push_part(&mut parts, t);
        }
        i += 1;
    }
    if parts.len() == 0 {
        return String::new();
    }
    let mut r = string_of("なお、");
    let joined = join_strings(&parts, "、");
    append_str(&mut r, joined.as_str());
    append_str(&mut r, "。");
    r
}

fn ends_with_period_exec(s: &String) -> (r: bool)
    ensures
        r == ends_with_period(s@),
{
    let cs = chars_of(s.as_str());
    cs.len() > 0 && cs[cs.len() - 1] == '。'
}

fn add_group_to(body: &mut String, parts: &Vec<String>)
    ensures
        final(body)@ == add_group(old(body)@, views(parts@)),
{
    if parts.len() == 0 {
        return;
    }
    if !body.as_str().is_empty() {
        append_str(body, " ");
    } else {
        proof { reveal_strlit(""); }
    }
    let joined = join_strings(parts, "。");
    append_str(body, joined.as_str());
    append_str(body, "。");
}

/// The readback of a request, given each change's formatted dates.
pub fn readback_with_dates(request: &ApprovalRequest, dates: &Vec<(Option<String>, Option<String>)>) -> (r: String)
    requires
        dates_fit(request.changes@, dates_view(dates@)),
    ensures
        r@ == readback_spec(*request, dates_view(dates@)),
{
    let ghost cs = request.changes@;
    let ghost ds = dates_view(dates@);
    let mut task_parts: Vec<String> = Vec::new();
    let mut schedule_parts: Vec<String> = Vec::new();
    let mut other_parts: Vec<String> = Vec::new();
    let mut i: usize = 0;
    while i < request.changes.len()
        invariant
            cs == request.changes@,
            ds == dates_view(dates@),
            dates_fit(cs, ds),
            i <= cs.len(),
            views(task_parts@) == group_parts(cs, ds, 0, i as int),
            views(schedule_parts@) == group_parts(cs, ds, 1, i as int),
            views(other_parts@) == group_parts(cs, ds, 2, i as int),
        decreases cs.len() - i,
    {
        let c = &request.changes[i];
        assert(date_view(dates@[i as int]) == ds[i as int]);
        let part = change_part_of(c, &dates[i]);
        let task = c.target.kind == TargetKind::Task
            && (c.operation == ChangeOperation::Create || c.operation == ChangeOperation::Update || c.operation == ChangeOperation::Delete);
        let schedule = c.target.kind == TargetKind::Schedule
            && (c.operation == ChangeOperation::Generate || c.operation == ChangeOperation::Reschedule || c.operation == ChangeOperation::Settle);
        if task {
            push_part(&mut task_parts, part);
        } else if schedule {
            push_part(&mut schedule_parts, part);
        } else {
            push_part(&mut other_parts, part);
        }
        i += 1;
    }
    let mut body = String::new();
    add_group_to(&mut body, &task_parts);
    add_group_to(&mut body, &schedule_parts);
    add_group_to(&mut body, &other_parts);
    let why = request.why.as_str();
    if !why.is_empty() && !str_eq(why, DEFAULT_APPROVAL_WHY) {
        if !body.as_str().is_empty() {
            append_str(&mut body, " ");
        } else {
            proof { reveal_strlit(""); }
        }
        append_str(&mut body, why);
        if !ends_with_period_exec(&body) {
            push_char(&mut body, '。');
        }
    }
    let summary = inferred_summary_of(&request.inferred_fields);
    if !summary.as_str().is_empty() {
        if !body.as_str().is_empty() && !ends_with_period_exec(&body) {
            push_char(&mut body, '。');
        }
        append_str(&mut body, summary.as_str());
    }
    if body.as_str().is_empty() {
        body = string_of(why);
    }
    if body.as_str().is_empty() {
        body = string_of("変更を提案しました");
    }
    if ends_with_period_exec(&body) {
        let cs = chars_of(body.as_str());
        body = string_from_range(&cs, 0, cs.len() - 1);
        assert(body@ =~= cs@.drop_last());
    }
    append_str(&mut body, "。よろしいですか");
    body
}

fn dates_of(c: &ProposedChange) -> (d: (Option<String>, Option<String>))
    ensures
        after_text(*c) matches Some(a) ==> date_fits(a, date_view(d)),
        after_text(*c) is None ==> d.0 is None && d.1 is None,
        date_voiced(after_text(*c), date_view(d)),
{
    match &c.after {
        Some(a) => {
            let start = match json_str_field(a.as_str(), "start_at") {
                Some(s) => Some(format_datetime_for_voice(s.as_str())),
                None => None,
            };
            let end = match json_str_field(a.as_str(), "end_at") {
                Some(e) => Some(format_datetime_for_voice(e.as_str())),
                None => None,
            };
            (start, end)
        },
        None => (None, None),
    }
}

/// Build the deterministic Japanese readback of a change proposal. The
/// dates in it are formatted by [`format_datetime_for_voice`]; everything
/// else is fixed by the request.
pub fn build_change_proposal_readback(request: &ApprovalRequest) -> (r: String)
    ensures
        exists|ds: Seq<ChangeDates>| dates_voiced(request.changes@, ds) && r@ == readback_spec(*request, ds),
{
    let mut dates: Vec<(Option<String>, Option<String>)> = Vec::new();
    let mut i: usize = 0;
    while i < request.changes.len()
        invariant
            i <= request.changes@.len(),
            dates@.len() == i,
            forall|j: int| 0 <= j < i ==> {
                let a = after_text(#[trigger] request.changes@[j]);
                &&& (dates_view(dates@)[j].0 is Some <==> (a matches Some(t) && json_str_at(t, "start_at"@) is Some))
                &&& (dates_view(dates@)[j].1 is Some <==> (a matches Some(t) && json_str_at(t, "end_at"@) is Some))
            },
            forall|j: int| 0 <= j < i ==> date_voiced(after_text(#[trigger] request.changes@[j]), dates_view(dates@)[j]),
        decreases request.changes@.len() - i,
    {
        let d = dates_of(&request.changes[i]);
        let ghost before = dates@;
        dates.push(d);
        proof {
            assert forall|j: int| 0 <= j < i + 1 implies {
                let a = after_text(#[trigger] request.changes@[j]);
                &&& (dates_view(dates@)[j].0 is Some <==> (a matches Some(t) && json_str_at(t, "start_at"@) is Some))
                &&& (dates_view(dates@)[j].1 is Some <==> (a matches Some(t) && json_str_at(t, "end_at"@) is Some))
            } by {
                if j < i {
                    assert(dates@[j] == before[j]);
                    assert(dates_view(dates@)[j] == dates_view(before)[j]);
                }
            }
            assert forall|j: int| 0 <= j < i + 1 implies
                date_voiced(after_text(#[trigger] request.changes@[j]), dates_view(dates@)[j]) by {
                if j < i {
                    assert(dates@[j] == before[j]);
                    assert(dates_view(dates@)[j] == dates_view(before)[j]);
                }
            }
        }
        i += 1;
    }
    let r = readback_with_dates(request, &dates);
    assert(dates_voiced(request.changes@, dates_view(dates@)));
    r
}

} // verus!
