//! The version-tolerant decoding rule of presentations.
//!
//! An encoded presentation is a JSON object tagged by its `type` member.
//! A client that receives a tag it does not know, or a known kind whose body
//! does not decode, shows the object's `text` member instead of failing.

use vstd::prelude::*;
use crate::json_schema::Json;
use crate::presentation::Presentation;
use crate::text::{str_eq, string_of};

verus! {

/// The kinds of presentation with a body of their own.
#[derive(Debug, Clone, Copy, PartialEq, Eq, Structural)]
pub enum PresentationKind {
    CurrentTask,
    WorkTransition,
    ScheduleSummary,
    ProgressSummary,
    ScheduleAlert,
    CheckIn,
    ChangeProposal,
    Clarification,
}

/// The kind a `type` tag names; `text` and unknown tags name none.
pub open spec fn kind_of_tag(tag: Seq<char>) -> Option<PresentationKind> {
    if tag == "current_task"@ {
        Some(PresentationKind::CurrentTask)
    } else if tag == "work_transition"@ {
        Some(PresentationKind::WorkTransition)
    } else if tag == "schedule_summary"@ {
        Some(PresentationKind::ScheduleSummary)
    } else if tag == "progress_summary"@ {
        Some(PresentationKind::ProgressSummary)
    } else if tag == "schedule_alert"@ {
        Some(PresentationKind::ScheduleAlert)
    } else if tag == "check_in"@ {
        Some(PresentationKind::CheckIn)
    } else if tag == "change_proposal"@ {
        Some(PresentationKind::ChangeProposal)
    } else if tag == "clarification"@ {
        Some(PresentationKind::Clarification)
    } else {
        None
    }
}

/// The kind of a presentation; text has none.
pub open spec fn kind_of(p: Presentation) -> Option<PresentationKind> {
    match p {
        Presentation::CurrentTask(_) => Some(PresentationKind::CurrentTask),
        Presentation::WorkTransition(_) => Some(PresentationKind::WorkTransition),
        Presentation::ScheduleSummary(_) => Some(PresentationKind::ScheduleSummary),
        Presentation::ProgressSummary(_) => Some(PresentationKind::ProgressSummary),
        Presentation::ScheduleAlert(_) => Some(PresentationKind::ScheduleAlert),
        Presentation::CheckIn(_) => Some(PresentationKind::CheckIn),
        Presentation::ChangeProposal(_) => Some(PresentationKind::ChangeProposal),
        Presentation::Clarification(_) => Some(PresentationKind::Clarification),
        Presentation::Text { .. } => None,
    }
}

/// The kind a `type` tag names.
pub fn presentation_kind(tag: &str) -> (r: Option<PresentationKind>)
    ensures
        r == kind_of_tag(tag@),
{
    if str_eq(tag, "current_task") {
        Some(PresentationKind::CurrentTask)
    } else if str_eq(tag, "work_transition") {
        Some(PresentationKind::WorkTransition)
    } else if str_eq(tag, "schedule_summary") {
        Some(PresentationKind::ScheduleSummary)
    } else if str_eq(tag, "progress_summary") {
        Some(PresentationKind::ProgressSummary)
    } else if str_eq(tag, "schedule_alert") {
        Some(PresentationKind::ScheduleAlert)
    } else if str_eq(tag, "check_in") {
        Some(PresentationKind::CheckIn)
    } else if str_eq(tag, "change_proposal") {
        Some(PresentationKind::ChangeProposal)
    } else if str_eq(tag, "clarification") {
        Some(PresentationKind::Clarification)
    } else {
        None
    }
}

/// The position of the first member of `fs` from `i` on with key `key`.
pub open spec fn member_index(fs: Seq<(String, Json)>, key: Seq<char>, i: int) -> Option<int>
    decreases fs.len() - i,
{
    if i < 0 || i >= fs.len() {
        None
    } else if fs[i].0@ == key {
        Some(i)
    } else {
        member_index(fs, key, i + 1)
    }
}

/// The string value of member `key` of an object: none when the value is
/// not an object, has no such member, or its value is not a string.
pub open spec fn str_member(v: Json, key: Seq<char>) -> Option<Seq<char>> {
    match v {
        Json::Object(fs) => match member_index(fs@, key, 0) {
            Some(k) => match fs@[k].1 {
                Json::Str(s) => Some(s@),
                _ => None,
            },
            None => None,
        },
        _ => None,
    }
}

/// The tag of an encoded presentation: its `type` string, `text` when it
/// has none.
pub open spec fn envelope_tag(v: Json) -> Seq<char> {
    match str_member(v, "type"@) {
        Some(t) => t,
        None => "text"@,
    }
}

/// The fallback text of an encoded presentation: its `text` string, empty
/// when it has none.
pub open spec fn envelope_fallback(v: Json) -> Seq<char> {
    match str_member(v, "text"@) {
        Some(t) => t,
        None => Seq::empty(),
    }
}

fn string_member(v: &Json, key: &str) -> (r: Option<String>)
    ensures
        match r {
            Some(s) => str_member(*v, key@) == Some(s@),
            None => str_member(*v, key@) is None,
        },
{
    match v {
        Json::Object(fs) => {
            let mut i: usize = 0;
            while i < fs.len()
                invariant
                    i <= fs@.len(),
                    *v === Json::Object(*fs),
                    member_index(fs@, key@, 0) == member_index(fs@, key@, i as int),
                decreases fs@.len() - i,
            {
                if str_eq(fs[i].0.as_str(), key) {
                    assert(member_index(fs@, key@, i as int) == Some(i as int));
                    return match &fs[i].1 {
                        Json::Str(s) => {
                            let r = string_of(s.as_str());
                            Some(r)
                        },
                        _ => None,
                    };
                }
                i += 1;
            }
            None
        },
        _ => None,
    }
}

/// The tag and the fallback text of an encoded presentation.
pub fn envelope(v: &Json) -> (r: (String, String))
    ensures
        r.0@ == envelope_tag(*v),
        r.1@ == envelope_fallback(*v),
{
    let tag = match string_member(v, "type") {
        Some(t) => t,
        None => string_of("text"),
    };
    let fallback = match string_member(v, "text") {
        Some(t) => t,
        None => String::new(),
    };
    (tag, fallback)
}

/// What an encoded presentation decodes to, given its tag, its fallback
/// text and what decoding its body as the tagged kind gave: that body when
/// the tag names its kind; the fallback text for a `text` or unknown tag,
/// or a body that did not decode.
pub fn decoded_presentation(tag: &str, fallback: String, body: Option<Presentation>) -> (r: Presentation)
    ensures
        (kind_of_tag(tag@) matches Some(k) && body matches Some(p) && kind_of(p) == Some(k)) ==> r == body->0,
        !(kind_of_tag(tag@) matches Some(k) && body matches Some(p) && kind_of(p) == Some(k)) ==>
            (r matches Presentation::Text { text } && text@ == fallback@),
{
    let kind = presentation_kind(tag);
    match (kind, body) {
        (Some(k), Some(p)) => {
            let matches_kind = match &p {
                Presentation::CurrentTask(_) => k == PresentationKind::CurrentTask,
                Presentation::WorkTransition(_) => k == PresentationKind::WorkTransition,
                Presentation::ScheduleSummary(_) => k == PresentationKind::ScheduleSummary,
                Presentation::ProgressSummary(_) => k == PresentationKind::ProgressSummary,
                Presentation::ScheduleAlert(_) => k == PresentationKind::ScheduleAlert,
                Presentation::CheckIn(_) => k == PresentationKind::CheckIn,
                Presentation::ChangeProposal(_) => k == PresentationKind::ChangeProposal,
                Presentation::Clarification(_) => k == PresentationKind::Clarification,
                Presentation::Text { .. } => false,
            };
            if matches_kind {
                p
            } else {
                Presentation::Text { text: fallback }
            }
        },
        _ => Presentation::Text { text: fallback },
    }
}

} // verus!
