//! Operation and target kinds of proposed changes, with their wire labels.

use vstd::prelude::*;
use crate::text::{str_eq, string_of};

verus! {

/// Operation kind for a proposed or applied change.
#[derive(Debug, Clone, Copy, PartialEq, Eq, Structural)]
pub enum ChangeOperation {
    Create,
    Update,
    Delete,
    Generate,
    Reschedule,
    Move,
    Start,
    Pause,
    Progress,
    Complete,
    Split,
    CreateScheduledSpan,
    DeleteScheduledSpan,
    Snooze,
    Undo,
    Settle,
    Confirm,
}

/// Target kind for a proposed or applied change.
#[derive(Debug, Clone, Copy, PartialEq, Eq, Structural)]
pub enum TargetKind {
    Task,
    Habit,
    Skill,
    Memory,
    Schedule,
    Coverage,
}

impl Default for ChangeOperation {
    fn default() -> (r: Self)
        ensures
            r == ChangeOperation::Create,
    {
        ChangeOperation::Create
    }
}

impl Default for TargetKind {
    fn default() -> (r: Self)
        ensures
            r == TargetKind::Task,
    {
        TargetKind::Task
    }
}

/// A label that names no known variant.
#[derive(Debug, Clone)]
pub struct UnknownLabel {
    /// The rejected text.
    pub label: String,
}

impl ChangeOperation {
    /// The wire label.
    pub fn as_str(self) -> (s: &'static str)
        ensures
            s@ == operation_label(self),
    {
        match self {
            ChangeOperation::Create => "create",
            ChangeOperation::Update => "update",
            ChangeOperation::Delete => "delete",
            ChangeOperation::Generate => "generate",
            ChangeOperation::Reschedule => "reschedule",
            ChangeOperation::Move => "move",
            ChangeOperation::Start => "start",
            ChangeOperation::Pause => "pause",
            ChangeOperation::Progress => "progress",
            ChangeOperation::Complete => "complete",
            ChangeOperation::Split => "split",
            ChangeOperation::CreateScheduledSpan => "create_scheduled_span",
            ChangeOperation::DeleteScheduledSpan => "delete_scheduled_span",
            ChangeOperation::Snooze => "snooze",
            ChangeOperation::Undo => "undo",
            ChangeOperation::Settle => "settle",
            ChangeOperation::Confirm => "confirm",
        }
    }

    /// Parse a wire label; any other text is an [`UnknownLabel`].
    pub fn from_str(s: &str) -> (r: Result<ChangeOperation, UnknownLabel>)
        ensures
            match r {
                Ok(v) => operation_label(v) == s@,
                Err(e) => e.label@ == s@ && forall|v: ChangeOperation| operation_label(v) != s@,
            },
    {
        if str_eq(s, "create") {
            return Ok(ChangeOperation::Create);
        }
        if str_eq(s, "update") {
            return Ok(ChangeOperation::Update);
        }
        if str_eq(s, "delete") {
            return Ok(ChangeOperation::Delete);
        }
        if str_eq(s, "generate") {
            return Ok(ChangeOperation::Generate);
        }
        if str_eq(s, "reschedule") {
            return Ok(ChangeOperation::Reschedule);
        }
        if str_eq(s, "move") {
            return Ok(ChangeOperation::Move);
        }
        if str_eq(s, "start") {
            return Ok(ChangeOperation::Start);
        }
        if str_eq(s, "pause") {
            return Ok(ChangeOperation::Pause);
        }
        if str_eq(s, "progress") {
            return Ok(ChangeOperation::Progress);
        }
        if str_eq(s, "complete") {
            return Ok(ChangeOperation::Complete);
        }
        if str_eq(s, "split") {
            return Ok(ChangeOperation::Split);
        }
        if str_eq(s, "create_scheduled_span") {
            return Ok(ChangeOperation::CreateScheduledSpan);
        }
        if str_eq(s, "delete_scheduled_span") {
            return Ok(ChangeOperation::DeleteScheduledSpan);
        }
        if str_eq(s, "snooze") {
            return Ok(ChangeOperation::Snooze);
        }
        if str_eq(s, "undo") {
            return Ok(ChangeOperation::Undo);
        }
        if str_eq(s, "settle") {
            return Ok(ChangeOperation::Settle);
        }
        if str_eq(s, "confirm") {
            return Ok(ChangeOperation::Confirm);
        }
        Err(UnknownLabel { label: string_of(s) })
    }
}

impl TargetKind {
    /// The wire label.
    pub fn as_str(self) -> (s: &'static str)
        ensures
            s@ == target_label(self),
    {
        match self {
            TargetKind::Task => "task",
            TargetKind::Habit => "habit",
            TargetKind::Skill => "skill",
            TargetKind::Memory => "memory",
            TargetKind::Schedule => "schedule",
            TargetKind::Coverage => "coverage",
        }
    }

    /// Parse a wire label; any other text is an [`UnknownLabel`].
    pub fn from_str(s: &str) -> (r: Result<TargetKind, UnknownLabel>)
        ensures
            match r {
                Ok(v) => target_label(v) == s@,
                Err(e) => e.label@ == s@ && forall|v: TargetKind| target_label(v) != s@,
            },
    {
        if str_eq(s, "task") {
            return Ok(TargetKind::Task);
        }
        if str_eq(s, "habit") {
            return Ok(TargetKind::Habit);
        }
        if str_eq(s, "skill") {
            return Ok(TargetKind::Skill);
        }
        if str_eq(s, "memory") {
            return Ok(TargetKind::Memory);
        }
        if str_eq(s, "schedule") {
            return Ok(TargetKind::Schedule);
        }
        if str_eq(s, "coverage") {
            return Ok(TargetKind::Coverage);
        }
        Err(UnknownLabel { label: string_of(s) })
    }
}

/// Wire label of an operation.
pub open spec fn operation_label(op: ChangeOperation) -> Seq<char> {
    match op {
        ChangeOperation::Create => "create"@,
        ChangeOperation::Update => "update"@,
        ChangeOperation::Delete => "delete"@,
        ChangeOperation::Generate => "generate"@,
        ChangeOperation::Reschedule => "reschedule"@,
        ChangeOperation::Move => "move"@,
        ChangeOperation::Start => "start"@,
        ChangeOperation::Pause => "pause"@,
        ChangeOperation::Progress => "progress"@,
        ChangeOperation::Complete => "complete"@,
        ChangeOperation::Split => "split"@,
        ChangeOperation::CreateScheduledSpan => "create_scheduled_span"@,
        ChangeOperation::DeleteScheduledSpan => "delete_scheduled_span"@,
        ChangeOperation::Snooze => "snooze"@,
        ChangeOperation::Undo => "undo"@,
        ChangeOperation::Settle => "settle"@,
        ChangeOperation::Confirm => "confirm"@,
    }
}

/// Wire label of a target kind.
pub open spec fn target_label(kind: TargetKind) -> Seq<char> {
    match kind {
        TargetKind::Task => "task"@,
        TargetKind::Habit => "habit"@,
        TargetKind::Skill => "skill"@,
        TargetKind::Memory => "memory"@,
        TargetKind::Schedule => "schedule"@,
        TargetKind::Coverage => "coverage"@,
    }
}

/// Every character of `s` is a lowercase ASCII letter or `_`, and `s` is not
/// empty.
pub open spec fn is_plain_label(s: Seq<char>) -> bool {
    &&& s.len() > 0
    &&& forall|i: int| 0 <= i < s.len() ==> (('a' <= #[trigger] s[i] <= 'z') || s[i] == '_')
}

/// Operation labels are distinct and made of lowercase letters and `_`.
pub proof fn lemma_operation_label_facts()
    ensures
        forall|a: ChangeOperation, b: ChangeOperation| #[trigger] operation_label(a) == #[trigger] operation_label(b) ==> a == b,
        forall|a: ChangeOperation| is_plain_label(#[trigger] operation_label(a)),
{
    reveal_strlit("create");
    assert(operation_label(ChangeOperation::Create) =~= seq!['c', 'r', 'e', 'a', 't', 'e']);
    reveal_strlit("update");
    assert(operation_label(ChangeOperation::Update) =~= seq!['u', 'p', 'd', 'a', 't', 'e']);
    reveal_strlit("delete");
    assert(operation_label(ChangeOperation::Delete) =~= seq!['d', 'e', 'l', 'e', 't', 'e']);
    reveal_strlit("generate");
    assert(operation_label(ChangeOperation::Generate) =~= seq!['g', 'e', 'n', 'e', 'r', 'a', 't', 'e']);
    reveal_strlit("reschedule");
    assert(operation_label(ChangeOperation::Reschedule) =~= seq!['r', 'e', 's', 'c', 'h', 'e', 'd', 'u', 'l', 'e']);
    reveal_strlit("move");
    assert(operation_label(ChangeOperation::Move) =~= seq!['m', 'o', 'v', 'e']);
    reveal_strlit("start");
    assert(operation_label(ChangeOperation::Start) =~= seq!['s', 't', 'a', 'r', 't']);
    reveal_strlit("pause");
    assert(operation_label(ChangeOperation::Pause) =~= seq!['p', 'a', 'u', 's', 'e']);
    reveal_strlit("progress");
    assert(operation_label(ChangeOperation::Progress) =~= seq!['p', 'r', 'o', 'g', 'r', 'e', 's', 's']);
    reveal_strlit("complete");
    assert(operation_label(ChangeOperation::Complete) =~= seq!['c', 'o', 'm', 'p', 'l', 'e', 't', 'e']);
    reveal_strlit("split");
    assert(operation_label(ChangeOperation::Split) =~= seq!['s', 'p', 'l', 'i', 't']);
    reveal_strlit("create_scheduled_span");
    assert(operation_label(ChangeOperation::CreateScheduledSpan) =~= seq!['c', 'r', 'e', 'a', 't', 'e', '_', 's', 'c', 'h', 'e', 'd', 'u', 'l', 'e', 'd', '_', 's', 'p', 'a', 'n']);
    reveal_strlit("delete_scheduled_span");
    assert(operation_label(ChangeOperation::DeleteScheduledSpan) =~= seq!['d', 'e', 'l', 'e', 't', 'e', '_', 's', 'c', 'h', 'e', 'd', 'u', 'l', 'e', 'd', '_', 's', 'p', 'a', 'n']);
    reveal_strlit("snooze");
    assert(operation_label(ChangeOperation::Snooze) =~= seq!['s', 'n', 'o', 'o', 'z', 'e']);
    reveal_strlit("undo");
    assert(operation_label(ChangeOperation::Undo) =~= seq!['u', 'n', 'd', 'o']);
    reveal_strlit("settle");
    assert(operation_label(ChangeOperation::Settle) =~= seq!['s', 'e', 't', 't', 'l', 'e']);
    reveal_strlit("confirm");
    assert(operation_label(ChangeOperation::Confirm) =~= seq!['c', 'o', 'n', 'f', 'i', 'r', 'm']);
}

/// Target labels are distinct and made of lowercase letters and `_`.
pub proof fn lemma_target_label_facts()
    ensures
        forall|a: TargetKind, b: TargetKind| #[trigger] target_label(a) == #[trigger] target_label(b) ==> a == b,
        forall|a: TargetKind| is_plain_label(#[trigger] target_label(a)),
{
    reveal_strlit("task");
    assert(target_label(TargetKind::Task) =~= seq!['t', 'a', 's', 'k']);
    reveal_strlit("habit");
    assert(target_label(TargetKind::Habit) =~= seq!['h', 'a', 'b', 'i', 't']);
    reveal_strlit("skill");
    assert(target_label(TargetKind::Skill) =~= seq!['s', 'k', 'i', 'l', 'l']);
    reveal_strlit("memory");
    assert(target_label(TargetKind::Memory) =~= seq!['m', 'e', 'm', 'o', 'r', 'y']);
    reveal_strlit("schedule");
    assert(target_label(TargetKind::Schedule) =~= seq!['s', 'c', 'h', 'e', 'd', 'u', 'l', 'e']);
    reveal_strlit("coverage");
    assert(target_label(TargetKind::Coverage) =~= seq!['c', 'o', 'v', 'e', 'r', 'a', 'g', 'e']);
}

} // verus!
