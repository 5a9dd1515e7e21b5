//! Turn results, approval requests and streaming turn events.

use vstd::prelude::*;
use crate::tool::{ProposedChange, InferredField, ChangeReceipt, Target};
use crate::presentation::Presentation;
use crate::tool::{InvalidArgsError, ProposalDecision, ToolError};
use crate::text::{append_str, string_of};

verus! {

/// A pending request for the user to approve proposed changes.
#[derive(Debug, Clone)]
pub struct ApprovalRequest {
    pub id: String,
    pub why: String,
    pub changes: Vec<ProposedChange>,
    pub inferred_fields: Vec<InferredField>,
    pub warnings: Vec<String>,
    /// Unix seconds after which the request expires.
    pub expires_at: i64,
}

/// Outcome of resolving an approval request.
#[derive(Debug, Clone)]
pub struct ApprovalResult {
    pub id: String,
    pub approved: bool,
    pub changes: Vec<ChangeReceipt>,
    pub schedule_dirty: bool,
    /// What the applied changes look like to the user.
    pub presentation: Option<Presentation>,
}

/// Result of one agent turn.
#[derive(Debug, Clone)]
pub struct TurnResult {
    pub text: String,
    pub changes: Vec<ChangeReceipt>,
    pub schedule_dirty: bool,
    pub approval_request: Option<ApprovalRequest>,
    pub presentation: Option<Presentation>,
}

/// Events emitted while a streaming turn is in progress.
#[derive(Debug, Clone)]
pub enum TurnEvent {
    Thinking(String),
    Text(String),
    ToolCall {
        name: String,
        call_id: String,
        /// Arguments as JSON text.
        arguments: String,
    },
    ToolResult {
        name: String,
        call_id: String,
        content: String,
        is_error: bool,
    },
    Error(String),
    Done(TurnResult),
}

/// `a` is a copy of `b`: equal field by field.
pub open spec fn same_request(a: ApprovalRequest, b: ApprovalRequest) -> bool {
    &&& a.id == b.id
    &&& a.why == b.why
    &&& a.changes@ == b.changes@
    &&& a.inferred_fields@ == b.inferred_fields@
    &&& a.warnings@ == b.warnings@
    &&& a.expires_at == b.expires_at
}

fn copy_opt(o: &Option<String>) -> (r: Option<String>)
    ensures
        r == *o,
{
    match o {
        Some(s) => Some(s.clone()),
        None => None,
    }
}

fn copy_change(c: &ProposedChange) -> (r: ProposedChange)
    ensures
        r == *c,
{
    ProposedChange {
        operation: c.operation,
        target: Target { kind: c.target.kind, display_id: c.target.display_id.clone() },
        description: c.description.clone(),
        before: copy_opt(&c.before),
        after: copy_opt(&c.after),
        arguments: copy_opt(&c.arguments),
        observed_updated_at: copy_opt(&c.observed_updated_at),
        proposal_id: copy_opt(&c.proposal_id),
    }
}

impl ApprovalRequest {
    /// A copy of the request, equal to it field by field.
    pub fn copy(&self) -> (r: ApprovalRequest)
        ensures
            same_request(r, *self),
    {
        let mut changes: Vec<ProposedChange> = Vec::new();
        let mut i: usize = 0;
        while i < self.changes.len()
            invariant
                i <= self.changes@.len(),
                changes@ == self.changes@.subrange(0, i as int),
            decreases self.changes@.len() - i,
        {
            changes.push(copy_change(&self.changes[i]));
            i += 1;
        }
        let mut inferred_fields: Vec<InferredField> = Vec::new();
        let mut j: usize = 0;
        while j < self.inferred_fields.len()
            invariant
                j <= self.inferred_fields@.len(),
                inferred_fields@ == self.inferred_fields@.subrange(0, j as int),
            decreases self.inferred_fields@.len() - j,
        {
            let f = &self.inferred_fields[j];
            inferred_fields.push(InferredField { field: f.field.clone(), value: f.value.clone(), reason: f.reason.clone() });
            j += 1;
        }
        let mut warnings: Vec<String> = Vec::new();
        let mut k: usize = 0;
        while k < self.warnings.len()
            invariant
                k <= self.warnings@.len(),
                warnings@ == self.warnings@.subrange(0, k as int),
            decreases self.warnings@.len() - k,
        {
            warnings.push(self.warnings[k].clone());
            k += 1;
        }
        proof {
            assert(self.changes@.subrange(0, self.changes@.len() as int) =~= self.changes@);
            assert(self.inferred_fields@.subrange(0, self.inferred_fields@.len() as int) =~= self.inferred_fields@);
            assert(self.warnings@.subrange(0, self.warnings@.len() as int) =~= self.warnings@);
        }
        ApprovalRequest {
            id: self.id.clone(),
            why: self.why.clone(),
            changes,
            inferred_fields,
            warnings,
            expires_at: self.expires_at,
        }
    }
}

/// Default `why` of an approval request; the readback leaves it out.
pub const DEFAULT_APPROVAL_WHY: &'static str = "ユーザーの承認が必要な変更です";

/// The lines joined with newlines.
pub open spec fn join_lines(ls: Seq<Seq<char>>) -> Seq<char>
    decreases ls.len(),
{
    if ls.len() == 0 {
        Seq::empty()
    } else if ls.len() == 1 {
        ls[0]
    } else {
        join_lines(ls.drop_last()) + "\n"@ + ls.last()
    }
}

/// One bullet line per change description.
pub open spec fn bullets(cs: Seq<ProposedChange>) -> Seq<Seq<char>> {
    cs.map_values(|c: ProposedChange| "- "@ + c.description@)
}

/// The lines of the message telling the model how an approval was resolved.
pub open spec fn resolution_lines(approved: Seq<ProposedChange>, denied: Seq<ProposedChange>, auto: bool) -> Seq<Seq<char>> {
    if auto && approved.len() > 0 && denied.len() == 0 {
        seq!["以下の変更は自動承認され、適用されました。"@] + bullets(approved)
    } else if approved.len() > 0 && denied.len() > 0 {
        seq!["ユーザーは以下の提案を一部承認し、一部を拒否しました。"@, "承認:"@] + bullets(approved)
            + seq!["拒否:"@] + bullets(denied)
    } else if approved.len() > 0 {
        seq!["ユーザーは以下の提案を承認し、変更を適用しました。"@] + bullets(approved)
    } else if denied.len() > 0 {
        seq!["ユーザーは以下の提案を拒否しました。"@] + bullets(denied)
    } else {
        seq!["提案はすべて拒否されました。"@]
    }
}

fn push_line(out: &mut String, lines: Ghost<Seq<Seq<char>>>, line: &str) -> (r: Ghost<Seq<Seq<char>>>)
    requires
        old(out)@ == join_lines(lines@),
        lines@.len() > 0,
    ensures
        r@ == lines@.push(line@),
        final(out)@ == join_lines(r@),
{
    append_str(out, "\n");
    append_str(out, line);
    let ghost r = lines@.push(line@);
    assert(r.drop_last() =~= lines@);
    Ghost(r)
}

fn push_bullets(out: &mut String, lines: Ghost<Seq<Seq<char>>>, changes: &[ProposedChange]) -> (r: Ghost<Seq<Seq<char>>>)
    requires
        old(out)@ == join_lines(lines@),
        lines@.len() > 0,
    ensures
        r@ == lines@ + bullets(changes@),
        final(out)@ == join_lines(r@),
{
    let mut acc = lines;
    let mut i: usize = 0;
    while i < changes.len()
        invariant
            i <= changes@.len(),
            acc@ == lines@ + bullets(changes@.subrange(0, i as int)),
            acc@.len() > 0,
            out@ == join_lines(acc@),
        decreases changes@.len() - i,
    {
        let mut line = string_of("- ");
        append_str(&mut line, changes[i].description.as_str());
        acc = push_line(out, acc, line.as_str());
        i += 1;
        assert(bullets(changes@.subrange(0, i as int)) =~= bullets(changes@.subrange(0, i - 1)).push(line@));
        assert(acc@ =~= lines@ + bullets(changes@.subrange(0, i as int)));
    }
    assert(changes@.subrange(0, changes@.len() as int) =~= changes@);
    acc
}

fn start_lines(first: &str) -> (r: (String, Ghost<Seq<Seq<char>>>))
    ensures
        r.1@ == seq![first@],
        r.0@ == join_lines(r.1@),
{
    let lines: Ghost<Seq<Seq<char>>> = Ghost(Seq::empty().push(first@));
    (string_of(first), lines)
}

/// The message telling the model how an approval was resolved: which
/// changes were applied automatically, approved, partly approved or denied,
/// one `- description` line per change.
pub fn build_approval_resolution_message(approved: &[ProposedChange], denied: &[ProposedChange], auto: bool) -> (r: String)
    ensures
        r@ == join_lines(resolution_lines(approved@, denied@, auto)),
{
    if auto && approved.len() > 0 && denied.len() == 0 {
        let (mut out, lines) = start_lines("以下の変更は自動承認され、適用されました。");
        let _lines = push_bullets(&mut out, lines, approved);
        out
    } else if approved.len() > 0 && denied.len() > 0 {
        let (mut out, lines) = start_lines("ユーザーは以下の提案を一部承認し、一部を拒否しました。");
        let lines = push_line(&mut out, lines, "承認:");
        let lines = push_bullets(&mut out, lines, approved);
        let lines = push_line(&mut out, lines, "拒否:");
        let lines2 = push_bullets(&mut out, lines, denied);
        proof {
            assert(lines2@ =~= seq!["ユーザーは以下の提案を一部承認し、一部を拒否しました。"@, "承認:"@] + bullets(approved@)
                + seq!["拒否:"@] + bullets(denied@));
        }
        out
    } else if approved.len() > 0 {
        let (mut out, lines) = start_lines("ユーザーは以下の提案を承認し、変更を適用しました。");
        let _lines = push_bullets(&mut out, lines, approved);
        out
    } else if denied.len() > 0 {
        let (mut out, lines) = start_lines("ユーザーは以下の提案を拒否しました。");
        let _lines = push_bullets(&mut out, lines, denied);
        out
    } else {
        string_of("提案はすべて拒否されました。")
    }
}

pub open spec fn is_invalid_arg(e: ToolError, field: Seq<char>, reason: Seq<char>) -> bool {
    e matches ToolError::InvalidArgs(InvalidArgsError::Field { field: f, reason: r }) && f@ == field && r@ == reason
}

/// Whether the pending request (if any) may be resolved as `id` at `now`:
/// it must exist, carry that id, and not have expired.
pub open spec fn pending_check(pending: Option<ApprovalRequest>, id: Seq<char>, now: i64) -> Option<(Seq<char>, Seq<char>)> {
    match pending {
        None => Some(("approval_id"@, "not found"@)),
        Some(r) => if r.id@ != id { Some(("approval_id"@, "mismatch"@)) } else { None },
    }
}

/// Check that the pending approval can be resolved as `id` at `now`: a
/// missing or different request is an invalid `approval_id`, an expired one
/// is cancelled.
pub fn check_pending(pending: &Option<ApprovalRequest>, id: &str, now: i64) -> (r: Result<(), ToolError>)
    ensures
        match pending_check(*pending, id@, now) {
            Some((field, reason)) => r matches Err(e) && is_invalid_arg(e, field, reason),
            None => if now >= pending.unwrap().expires_at {
                r matches Err(ToolError::Cancelled)
            } else {
                r is Ok
            },
        },
{
    match pending {
        None => Err(ToolError::InvalidArgs(InvalidArgsError::new("approval_id", "not found"))),
        Some(request) => {
            if !crate::text::str_eq(request.id.as_str(), id) {
                return Err(ToolError::InvalidArgs(InvalidArgsError::new("approval_id", "mismatch")));
            }
            if now >= request.expires_at {
                return Err(ToolError::Cancelled);
            }
            Ok(())
        },
    }
}

pub open spec fn has_duplicate_decision(ds: Seq<ProposalDecision>) -> bool {
    exists|i: int, j: int| 0 <= i < j < ds.len() && (#[trigger] ds[i]).proposal_id@ == (#[trigger] ds[j]).proposal_id@
}

pub open spec fn decided(ds: Seq<ProposalDecision>, id: Seq<char>) -> bool {
    exists|k: int| 0 <= k < ds.len() && (#[trigger] ds[k]).proposal_id@ == id
}

pub open spec fn change_has_decision(c: ProposedChange, ds: Seq<ProposalDecision>) -> bool {
    c.proposal_id matches Some(p) && decided(ds, p@)
}

pub open spec fn proposed(cs: Seq<ProposedChange>, id: Seq<char>) -> bool {
    exists|k: int| 0 <= k < cs.len() && ((#[trigger] cs[k]).proposal_id matches Some(p) && p@ == id)
}

/// The decision given for `id` (the last one given, which is the only one
/// when there are no duplicates).
pub open spec fn decision_for(ds: Seq<ProposalDecision>, id: Seq<char>) -> bool
    decreases ds.len(),
{
    if ds.len() == 0 {
        false
    } else if ds.last().proposal_id@ == id {
        ds.last().approve
    } else {
        decision_for(ds.drop_last(), id)
    }
}

/// Per-change approval from a blanket decision or per-proposal decisions;
/// `Err` names what is wrong with the decisions.
pub open spec fn decisions_spec(cs: Seq<ProposedChange>, approve: bool, ds: Option<Seq<ProposalDecision>>) -> Result<Seq<bool>, Seq<char>> {
    match ds {
        None => Ok(Seq::new(cs.len(), |i: int| approve)),
        Some(ds) => if has_duplicate_decision(ds) {
            Err("duplicate decision for a proposal"@)
        } else if exists|k: int| 0 <= k < cs.len() && !change_has_decision(#[trigger] cs[k], ds) {
            Err("missing decision for a proposal"@)
        } else if exists|k: int| 0 <= k < ds.len() && !proposed(cs, (#[trigger] ds[k]).proposal_id@) {
            Err("unknown proposal_id in decisions"@)
        } else {
            Ok(Seq::new(cs.len(), |i: int| decision_for(ds, cs[i].proposal_id.unwrap()@)))
        },
    }
}

fn find_decision(ds: &[ProposalDecision], id: &String) -> (r: Option<bool>)
    ensures
        match r {
            Some(b) => decided(ds@, id@) && b == decision_for(ds@, id@),
            None => !decided(ds@, id@),
        },
{
    let mut n = ds.len();
    assert(ds@.subrange(0, n as int) =~= ds@);
    while n > 0
        invariant
            n <= ds@.len(),
            decision_for(ds@, id@) == decision_for(ds@.subrange(0, n as int), id@),
            forall|k: int| n <= k < ds@.len() ==> (#[trigger] ds@[k]).proposal_id@ != id@,
        decreases n,
    {
        proof { assert(ds@.subrange(0, n as int).drop_last() =~= ds@.subrange(0, n - 1)); }
        if ds[n - 1].proposal_id == *id {
            return Some(ds[n - 1].approve);
        }
        n -= 1;
    }
    None
}

/// Which of `changes` are approved: all or none by `approve` without
/// per-proposal decisions; otherwise each change by its proposal's decision.
/// Duplicate, missing and unknown decisions are invalid `proposals`.
pub fn approval_decisions(changes: &[ProposedChange], approve: bool, proposals: Option<&[ProposalDecision]>) -> (r: Result<Vec<bool>, InvalidArgsError>)
    ensures
        match decisions_spec(changes@, approve, match proposals { Some(p) => Some(p@), None => None }) {
            Ok(flags) => r matches Ok(v) && v@ == flags,
            Err(reason) => r matches Err(InvalidArgsError::Field { field, reason: why }) && field@ == "proposals"@ && why@ == reason,
        },
{
    match proposals {
        None => {
            let mut v: Vec<bool> = Vec::new();
            let mut i: usize = 0;
            while i < changes.len()
                invariant
                    i <= changes@.len(),
                    v@ == Seq::new(i as nat, |k: int| approve),
                decreases changes@.len() - i,
            {
                v.push(approve);
                i += 1;
                assert(v@ =~= Seq::new(i as nat, |k: int| approve));
            }
            Ok(v)
        },
        Some(ds) => decisions_from(changes, ds),
    }
}

fn decisions_from(changes: &[ProposedChange], ds: &[ProposalDecision]) -> (r: Result<Vec<bool>, InvalidArgsError>)
    ensures
        match decisions_spec(changes@, true, Some(ds@)) {
            Ok(flags) => r matches Ok(v) && v@ == flags,
            Err(reason) => r matches Err(InvalidArgsError::Field { field, reason: why }) && field@ == "proposals"@ && why@ == reason,
        },
{
    let mut a: usize = 0;
    while a < ds.len()
        invariant
            a <= ds@.len(),
            forall|i: int, j: int| 0 <= i < j < a ==> (#[trigger] ds@[i]).proposal_id@ != (#[trigger] ds@[j]).proposal_id@,
        decreases ds@.len() - a,
    {
        let mut b: usize = 0;
        while b < a
            invariant
                b <= a < ds@.len(),
                forall|i: int| 0 <= i < b ==> (#[trigger] ds@[i]).proposal_id@ != ds@[a as int].proposal_id@,
            decreases a - b,
        {
            if ds[b].proposal_id == ds[a].proposal_id {
                proof {
                    assert(ds@[b as int].proposal_id@ == ds@[a as int].proposal_id@);
                    assert(has_duplicate_decision(ds@));
                }
                return Err(InvalidArgsError::new("proposals", "duplicate decision for a proposal"));
            }
            b += 1;
        }
        a += 1;
    }
    let mut i: usize = 0;
    while i < changes.len()
        invariant
            i <= changes@.len(),
            !has_duplicate_decision(ds@),
            forall|k: int| 0 <= k < i ==> change_has_decision(#[trigger] changes@[k], ds@),
        decreases changes@.len() - i,
    {
        let ok = match &changes[i].proposal_id {
            Some(p) => find_decision(ds, p).is_some(),
            None => false,
        };
        if !ok {
            proof {
                assert(!change_has_decision(changes@[i as int], ds@));
            }
            return Err(InvalidArgsError::new("proposals", "missing decision for a proposal"));
        }
        i += 1;
    }
    let mut k: usize = 0;
    while k < ds.len()
        invariant
            k <= ds@.len(),
            !has_duplicate_decision(ds@),
            forall|m: int| 0 <= m < changes@.len() ==> change_has_decision(#[trigger] changes@[m], ds@),
            forall|m: int| 0 <= m < k ==> proposed(changes@, (#[trigger] ds@[m]).proposal_id@),
        decreases ds@.len() - k,
    {
        let mut found = false;
        let mut j: usize = 0;
        while j < changes.len()
            invariant
                j <= changes@.len(),
                k < ds@.len(),
                found ==> proposed(changes@, ds@[k as int].proposal_id@),
                !found ==> forall|m: int| 0 <= m < j ==> !((#[trigger] changes@[m]).proposal_id matches Some(p) && p@ == ds@[k as int].proposal_id@),
            decreases changes@.len() - j,
        {
            match &changes[j].proposal_id {
                Some(p) => {
                    if *p == ds[k].proposal_id {
                        found = true;
                    }
                },
                None => {},
            }
            j += 1;
        }
        if !found {
            proof {
                assert(!proposed(changes@, ds@[k as int].proposal_id@));
                assert(!(exists|m: int| 0 <= m < changes@.len() && !change_has_decision(#[trigger] changes@[m], ds@)));
            }
            return Err(InvalidArgsError::new("proposals", "unknown proposal_id in decisions"));
        }
        k += 1;
    }
    proof {
        assert(!(exists|m: int| 0 <= m < changes@.len() && !change_has_decision(#[trigger] changes@[m], ds@)));
        assert(!(exists|m: int| 0 <= m < ds@.len() && !proposed(changes@, (#[trigger] ds@[m]).proposal_id@)));
    }
    let mut v: Vec<bool> = Vec::new();
    let mut i: usize = 0;
    while i < changes.len()
        invariant
            i <= changes@.len(),
            forall|m: int| 0 <= m < changes@.len() ==> change_has_decision(#[trigger] changes@[m], ds@),
            v@ == Seq::new(i as nat, |m: int| decision_for(ds@, changes@[m].proposal_id.unwrap()@)),
        decreases changes@.len() - i,
    {
        assert(change_has_decision(changes@[i as int], ds@));
        let p = match &changes[i].proposal_id {
            Some(p) => p,
            None => { proof { assert(false); } return Ok(v); },
        };
        let d = match find_decision(ds, p) {
            Some(d) => d,
            None => false,
        };
        v.push(d);
        i += 1;
        assert(v@ =~= Seq::new(i as nat, |m: int| decision_for(ds@, changes@[m].proposal_id.unwrap()@)));
    }
    Ok(v)
}

} // verus!
