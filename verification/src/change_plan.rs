//! How an approved change is carried out.
//!
//! Each supported `(TargetKind, ChangeOperation)` pair has an executor that
//! calls the planner server; this module decides which executor a change
//! goes to, whether its target must be fetched first, whether the target
//! changed since the proposal, how the operations of a batch are named, and
//! what a failed batch undoes.

use vstd::prelude::*;
use crate::labels::{ChangeOperation, TargetKind};
use crate::tool::{ChangeReceipt, InvalidArgsError, ProposedChange, ToolError};
use crate::text::{append_str, nat_digits, string_of, u64_to_string};
use crate::error::AgentError;

verus! {

/// The executors of approved changes.
#[derive(Debug, Clone, Copy, PartialEq, Eq, Structural)]
pub enum ChangeExecutor {
    TaskCreate,
    TaskUpdate,
    TaskDelete,
    TaskMove,
    TaskStart,
    TaskPause,
    TaskProgress,
    TaskComplete,
    TaskSplit,
    HabitCreate,
    HabitUpdate,
    HabitDelete,
    HabitCreateScheduledSpan,
    HabitDeleteScheduledSpan,
    SkillCreate,
    SkillUpdate,
    MemoryCreate,
    MemoryUpdate,
    MemoryDelete,
    ScheduleGenerate,
}

/// The executor of a change, when the pair is supported.
pub open spec fn dispatch_spec(kind: TargetKind, operation: ChangeOperation) -> Option<ChangeExecutor> {
    match (kind, operation) {
        (TargetKind::Task, ChangeOperation::Create) => Some(ChangeExecutor::TaskCreate),
        (TargetKind::Task, ChangeOperation::Update) => Some(ChangeExecutor::TaskUpdate),
        (TargetKind::Task, ChangeOperation::Delete) => Some(ChangeExecutor::TaskDelete),
        (TargetKind::Task, ChangeOperation::Move) => Some(ChangeExecutor::TaskMove),
        (TargetKind::Task, ChangeOperation::Start) => Some(ChangeExecutor::TaskStart),
        (TargetKind::Task, ChangeOperation::Pause) => Some(ChangeExecutor::TaskPause),
        (TargetKind::Task, ChangeOperation::Progress) => Some(ChangeExecutor::TaskProgress),
        (TargetKind::Task, ChangeOperation::Complete) => Some(ChangeExecutor::TaskComplete),
        (TargetKind::Task, ChangeOperation::Split) => Some(ChangeExecutor::TaskSplit),
        (TargetKind::Habit, ChangeOperation::Create) => Some(ChangeExecutor::HabitCreate),
        (TargetKind::Habit, ChangeOperation::Update) => Some(ChangeExecutor::HabitUpdate),
        (TargetKind::Habit, ChangeOperation::Delete) => Some(ChangeExecutor::HabitDelete),
        (TargetKind::Habit, ChangeOperation::CreateScheduledSpan) => Some(ChangeExecutor::HabitCreateScheduledSpan),
        (TargetKind::Habit, ChangeOperation::DeleteScheduledSpan) => Some(ChangeExecutor::HabitDeleteScheduledSpan),
        (TargetKind::Skill, ChangeOperation::Create) => Some(ChangeExecutor::SkillCreate),
        (TargetKind::Skill, ChangeOperation::Update) => Some(ChangeExecutor::SkillUpdate),
        (TargetKind::Memory, ChangeOperation::Create) => Some(ChangeExecutor::MemoryCreate),
        (TargetKind::Memory, ChangeOperation::Update) => Some(ChangeExecutor::MemoryUpdate),
        (TargetKind::Memory, ChangeOperation::Delete) => Some(ChangeExecutor::MemoryDelete),
        (TargetKind::Schedule, ChangeOperation::Generate) => Some(ChangeExecutor::ScheduleGenerate),
        (TargetKind::Schedule, ChangeOperation::Reschedule) => Some(ChangeExecutor::ScheduleGenerate),
        _ => None,
    }
}

/// The executor a change of `kind` and `operation` goes to.
pub fn dispatch(kind: TargetKind, operation: ChangeOperation) -> (r: Option<ChangeExecutor>)
    ensures
        r == dispatch_spec(kind, operation),
{
    match (kind, operation) {
        (TargetKind::Task, ChangeOperation::Create) => Some(ChangeExecutor::TaskCreate),
        (TargetKind::Task, ChangeOperation::Update) => Some(ChangeExecutor::TaskUpdate),
        (TargetKind::Task, ChangeOperation::Delete) => Some(ChangeExecutor::TaskDelete),
        (TargetKind::Task, ChangeOperation::Move) => Some(ChangeExecutor::TaskMove),
        (TargetKind::Task, ChangeOperation::Start) => Some(ChangeExecutor::TaskStart),
        (TargetKind::Task, ChangeOperation::Pause) => Some(ChangeExecutor::TaskPause),
        (TargetKind::Task, ChangeOperation::Progress) => Some(ChangeExecutor::TaskProgress),
        (TargetKind::Task, ChangeOperation::Complete) => Some(ChangeExecutor::TaskComplete),
        (TargetKind::Task, ChangeOperation::Split) => Some(ChangeExecutor::TaskSplit),
        (TargetKind::Habit, ChangeOperation::Create) => Some(ChangeExecutor::HabitCreate),
        (TargetKind::Habit, ChangeOperation::Update) => Some(ChangeExecutor::HabitUpdate),
        (TargetKind::Habit, ChangeOperation::Delete) => Some(ChangeExecutor::HabitDelete),
        (TargetKind::Habit, ChangeOperation::CreateScheduledSpan) => Some(ChangeExecutor::HabitCreateScheduledSpan),
        (TargetKind::Habit, ChangeOperation::DeleteScheduledSpan) => Some(ChangeExecutor::HabitDeleteScheduledSpan),
        (TargetKind::Skill, ChangeOperation::Create) => Some(ChangeExecutor::SkillCreate),
        (TargetKind::Skill, ChangeOperation::Update) => Some(ChangeExecutor::SkillUpdate),
        (TargetKind::Memory, ChangeOperation::Create) => Some(ChangeExecutor::MemoryCreate),
        (TargetKind::Memory, ChangeOperation::Update) => Some(ChangeExecutor::MemoryUpdate),
        (TargetKind::Memory, ChangeOperation::Delete) => Some(ChangeExecutor::MemoryDelete),
        (TargetKind::Schedule, ChangeOperation::Generate) => Some(ChangeExecutor::ScheduleGenerate),
        (TargetKind::Schedule, ChangeOperation::Reschedule) => Some(ChangeExecutor::ScheduleGenerate),
        _ => None,
    }
}

/// The executor of a proposed change; a pair without one is an
/// unsupported proposal.
pub fn executor_for(change: &ProposedChange) -> (r: Result<ChangeExecutor, ToolError>)
    ensures
        match dispatch_spec(change.target.kind, change.operation) {
            Some(e) => r == Ok::<ChangeExecutor, ToolError>(e),
            None => r matches Err(ToolError::InvalidArgs(InvalidArgsError::NoField { reason }))
                && reason@ == "unsupported proposal"@,
        },
{
    match dispatch(change.target.kind, change.operation) {
        Some(e) => Ok(e),
        None => Err(ToolError::InvalidArgs(InvalidArgsError::no_field("unsupported proposal"))),
    }
}

/// Whether the change's target row is fetched before it is executed: a
/// create or a schedule change addresses no existing row.
pub fn fetches_target(kind: TargetKind, operation: ChangeOperation) -> (r: bool)
    ensures
        r == !(operation == ChangeOperation::Create || kind == TargetKind::Schedule),
{
    !(operation == ChangeOperation::Create || kind == TargetKind::Schedule)
}

pub open spec fn opt_view(o: Option<String>) -> Option<Seq<char>> {
    match o {
        Some(s) => Some(s@),
        None => None,
    }
}

/// Whether the target is stale: the proposal observed an update time and
/// the target's current one (as text) is another, or unknown.
pub open spec fn is_stale(observed: Option<String>, current: Option<String>) -> bool {
    match observed {
        Some(o) => opt_view(current) != Some(o@),
        None => false,
    }
}

/// Refuse a change whose target was updated after it was proposed.
pub fn check_freshness(observed: &Option<String>, current: &Option<String>) -> (r: Result<(), ToolError>)
    ensures
        !is_stale(*observed, *current) ==> r is Ok,
        is_stale(*observed, *current) ==> (r matches Err(ToolError::Conflict(m)) && m@ == "target changed after proposal"@),
{
    match observed {
        Some(o) => {
            let fresh = match current {
                Some(c) => crate::text::str_eq(c.as_str(), o.as_str()),
                None => false,
            };
            if fresh {
                Ok(())
            } else {
                Err(ToolError::Conflict(string_of("target changed after proposal")))
            }
        },
        None => Ok(()),
    }
}

/// Whether executing a change of `kind` invalidates the skills index.
pub fn clears_skills_index(kind: TargetKind) -> (r: bool)
    ensures
        r == (kind == TargetKind::Skill),
{
    kind == TargetKind::Skill
}

/// The id under which the `index`-th change of request `request_id` runs
/// on the server: `{request_id}:{index}`.
pub fn batch_operation_id(request_id: &str, index: u64) -> (r: String)
    ensures
        r@ == request_id@ + ":"@ + nat_digits(index as nat),
{
    let mut r = string_of(request_id);
    append_str(&mut r, ":");
    let d = u64_to_string(index);
    append_str(&mut r, d.as_str());
    r
}

/// One undo step after a batch failed part-way.
#[derive(Debug, Clone)]
pub enum RollbackStep {
    DeleteTask(String),
    DeleteHabit(String),
}

/// The undo step of an applied change: created tasks and habits are
/// deleted; nothing else is undone.
pub open spec fn rollback_of(c: ProposedChange, r: ChangeReceipt) -> Option<Seq<char>> {
    if c.operation == ChangeOperation::Create && (c.target.kind == TargetKind::Task || c.target.kind == TargetKind::Habit) {
        Some(r.target.target_id@)
    } else {
        None
    }
}

/// Whether `s` undoes the `i`-th applied change.
pub open spec fn undoes(s: RollbackStep, c: ProposedChange, r: ChangeReceipt) -> bool {
    match s {
        RollbackStep::DeleteTask(id) => c.target.kind == TargetKind::Task && rollback_of(c, r) == Some(id@),
        RollbackStep::DeleteHabit(id) => c.target.kind == TargetKind::Habit && rollback_of(c, r) == Some(id@),
    }
}

/// The positions, among the first `n` applied changes, that have an undo
/// step, in order.
pub open spec fn undone_positions(cs: Seq<ProposedChange>, rs: Seq<ChangeReceipt>, n: int) -> Seq<int>
    decreases n,
{
    if n <= 0 {
        Seq::empty()
    } else if rollback_of(cs[n - 1], rs[n - 1]) is Some {
        undone_positions(cs, rs, n - 1).push(n - 1)
    } else {
        undone_positions(cs, rs, n - 1)
    }
}

pub open spec fn applied_len(cs: Seq<ProposedChange>, rs: Seq<ChangeReceipt>) -> int {
    if cs.len() < rs.len() { cs.len() as int } else { rs.len() as int }
}

/// The undo steps of a batch that failed after `receipts` were applied,
/// the `i`-th receipt belonging to the `i`-th change: created tasks and
/// habits are deleted, in the order they were created.
pub fn rollback_steps(changes: &[ProposedChange], receipts: &[ChangeReceipt]) -> (r: Vec<RollbackStep>)
    ensures
        r@.len() == undone_positions(changes@, receipts@, applied_len(changes@, receipts@)).len(),
        forall|j: int| 0 <= j < r@.len() ==> {
            let k = #[trigger] undone_positions(changes@, receipts@, applied_len(changes@, receipts@))[j];
            undoes(r@[j], changes@[k], receipts@[k])
        },
{
    let n = if changes.len() < receipts.len() { changes.len() } else { receipts.len() };
    let mut steps: Vec<RollbackStep> = Vec::new();
    let mut i: usize = 0;
    while i < n
        invariant
            i <= n,
            n == applied_len(changes@, receipts@),
            n <= changes@.len(),
            n <= receipts@.len(),
            steps@.len() == undone_positions(changes@, receipts@, i as int).len(),
            forall|j: int| 0 <= j < steps@.len() ==> {
                let k = #[trigger] undone_positions(changes@, receipts@, i as int)[j];
                undoes(steps@[j], changes@[k], receipts@[k])
            },
        decreases n - i,
    {
        let c = &changes[i];
        let id = receipts[i].target.target_id.clone();
        let ghost before = steps@;
        if c.operation == ChangeOperation::Create && c.target.kind == TargetKind::Task {
            steps.push(RollbackStep::DeleteTask(id));
        } else if c.operation == ChangeOperation::Create && c.target.kind == TargetKind::Habit {
            steps.push(RollbackStep::DeleteHabit(id));
        }
        proof {
            let prev = undone_positions(changes@, receipts@, i as int);
            let next = undone_positions(changes@, receipts@, i + 1);
            if rollback_of(changes@[i as int], receipts@[i as int]) is Some {
                assert(next == prev.push(i as int));
                assert forall|j: int| 0 <= j < steps@.len() implies {
                    let k = #[trigger] next[j];
                    undoes(steps@[j], changes@[k], receipts@[k])
                } by {
                    if j < before.len() {
                        assert(next[j] == prev[j]);
                        assert(steps@[j] == before[j]);
                    }
                }
            } else {
                assert(next == prev);
            }
        }
        i += 1;
    }
    steps
}

/// A batch of approved changes being carried out in order: the receipts of
/// the changes applied so far, whether the schedule needs saving, and
/// whether a change failed, which ends the batch.
#[derive(Debug)]
pub struct BatchRun {
    pub receipts: Vec<ChangeReceipt>,
    pub schedule_dirty: bool,
    pub failed: bool,
}

impl BatchRun {
    /// Nothing applied yet; the schedule is dirty as the session left it.
    pub fn new(schedule_dirty: bool) -> (r: Self)
        ensures
            r.receipts@.len() == 0,
            r.schedule_dirty == schedule_dirty,
            !r.failed,
    {
        BatchRun { receipts: Vec::new(), schedule_dirty, failed: false }
    }

    /// Whether the next change is carried out: only while no change failed.
    pub fn continues(&self) -> (r: bool)
        ensures
            r == !self.failed,
    {
        !self.failed
    }

    /// Takes in how one change went. An applied change adds its receipt and
    /// dirties the schedule when it touched a task or a habit; a failure
    /// ends the batch and is handed back, with nothing else changed.
    pub fn on_change_result(&mut self, change: &ProposedChange, result: Result<ChangeReceipt, AgentError>) -> (r: Option<AgentError>)
        requires
            !old(self).failed,
        ensures
            match result {
                Ok(rc) => r is None
                    && final(self).receipts@ == old(self).receipts@.push(rc)
                    && final(self).schedule_dirty == (old(self).schedule_dirty
                        || change.target.kind == TargetKind::Task || change.target.kind == TargetKind::Habit)
                    && !final(self).failed,
                Err(e) => r == Some(e)
                    && final(self).receipts@ == old(self).receipts@
                    && final(self).schedule_dirty == old(self).schedule_dirty
                    && final(self).failed,
            },
    {
        match result {
            Ok(rc) => {
                self.receipts.push(rc);
                self.schedule_dirty = self.schedule_dirty || change.target.kind == TargetKind::Task
                    || change.target.kind == TargetKind::Habit;
                None
            },
            Err(e) => {
                self.failed = true;
                Some(e)
            },
        }
    }
}


/// Rolling back a failed batch undoes exactly the tasks and habits it
/// created: among the applied changes, a change has an undo step exactly
/// when it created a task or a habit, the steps come in the order the
/// changes were applied, and each deletes the created row of its own kind
/// under the id its receipt reports.
pub proof fn lemma_rollback_undoes_exactly_the_creations(cs: Seq<ProposedChange>, rs: Seq<ChangeReceipt>, n: int)
    requires
        0 <= n <= cs.len(),
        n <= rs.len(),
    ensures
        forall|i: int| 0 <= i < n ==> (undone_positions(cs, rs, n).contains(i)
            <==> ((#[trigger] cs[i]).operation == ChangeOperation::Create
                && (cs[i].target.kind == TargetKind::Task || cs[i].target.kind == TargetKind::Habit))),
        forall|a: int, b: int| 0 <= a < b < undone_positions(cs, rs, n).len()
            ==> #[trigger] undone_positions(cs, rs, n)[a] < #[trigger] undone_positions(cs, rs, n)[b],
        forall|s: RollbackStep, c: ProposedChange, r: ChangeReceipt| #[trigger] undoes(s, c, r) <==> (
            c.operation == ChangeOperation::Create && match s {
                RollbackStep::DeleteTask(id) => c.target.kind == TargetKind::Task && id@ == r.target.target_id@,
                RollbackStep::DeleteHabit(id) => c.target.kind == TargetKind::Habit && id@ == r.target.target_id@,
            }),
    decreases n,
{
    if n > 0 {
        lemma_rollback_undoes_exactly_the_creations(cs, rs, n - 1);
        let prev = undone_positions(cs, rs, n - 1);
        let cur = undone_positions(cs, rs, n);
        lemma_undone_positions_below(cs, rs, n - 1);
        if rollback_of(cs[n - 1], rs[n - 1]) is Some {
            assert(cur == prev.push(n - 1));
            assert forall|i: int| 0 <= i < n implies (cur.contains(i)
                <==> ((#[trigger] cs[i]).operation == ChangeOperation::Create
                    && (cs[i].target.kind == TargetKind::Task || cs[i].target.kind == TargetKind::Habit))) by {
                if i < n - 1 {
                    if prev.contains(i) {
                        let x = choose|x: int| 0 <= x < prev.len() && prev[x] == i;
                        assert(cur[x] == i);
                    }
                    if cur.contains(i) {
                        let x = choose|x: int| 0 <= x < cur.len() && cur[x] == i;
                        assert(x < prev.len());
                        assert(prev[x] == i);
                    }
                } else {
                    assert(cur[prev.len() as int] == i);
                }
            }
        } else {
            assert(cur == prev);
            assert forall|i: int| 0 <= i < n implies (cur.contains(i)
                <==> ((#[trigger] cs[i]).operation == ChangeOperation::Create
                    && (cs[i].target.kind == TargetKind::Task || cs[i].target.kind == TargetKind::Habit))) by {
                if i == n - 1 && cur.contains(i) {
                    let x = choose|x: int| 0 <= x < cur.len() && cur[x] == i;
                    assert(prev[x] < n - 1);
                }
            }
        }
    }
}

proof fn lemma_undone_positions_below(cs: Seq<ProposedChange>, rs: Seq<ChangeReceipt>, n: int)
    requires
        0 <= n,
    ensures
        forall|x: int| 0 <= x < undone_positions(cs, rs, n).len() ==> 0 <= #[trigger] undone_positions(cs, rs, n)[x] < n,
    decreases n,
{
    if n > 0 {
        lemma_undone_positions_below(cs, rs, n - 1);
        let prev = undone_positions(cs, rs, n - 1);
        if rollback_of(cs[n - 1], rs[n - 1]) is Some {
            assert forall|x: int| 0 <= x < prev.push(n - 1).len() implies 0 <= #[trigger] prev.push(n - 1)[x] < n by {
                if x < prev.len() {
                    assert(prev.push(n - 1)[x] == prev[x]);
                }
            }
        }
    }
}

} // verus!
