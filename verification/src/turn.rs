//! Decisions of one agent turn.
//!
//! A turn asks the model, runs the tool calls it answers with, and asks
//! again until the model answers with text. The asking and the tool runs are
//! outside work; what this module decides is how many tool calls a turn may
//! make, what a tool call's reply to the model is, what the turn collects
//! from the tools, and the text the turn ends with.

use vstd::prelude::*;
use crate::tool::{ToolOutput, ToolError, ProposedChange, InferredField, ChangeReceipt, tool_error_text, tool_error_hint};
use crate::text::{append_str, push_char, string_of};
use crate::clock::{hyphenated_uuid, new_uuid_v7};
use crate::error::AgentError;
use vstd::string::*;
use crate::permissions::Permissions;
use crate::session::{ApprovalRequest, ApprovalResult, TurnResult};
use crate::approval_flow::{all_changes_allowed, auto_approved_spec, make_approval_request, request_for, APPROVAL_TTL_SECONDS};
use crate::clock::in_timestamp_range;

verus! {

/// What a turn has collected from its tool calls so far.
#[derive(Debug, Clone)]
pub struct TurnAccumulator {
    /// Receipts of changes the tools applied.
    pub changes: Vec<ChangeReceipt>,
    /// Changes proposed for approval.
    pub proposed_changes: Vec<ProposedChange>,
    pub inferred_fields: Vec<InferredField>,
    /// The latest `why` a tool gave for its proposals.
    pub approval_why: Option<String>,
    pub approval_warnings: Vec<String>,
    pub schedule_dirty: bool,
    /// Tools discovered by a search during the turn.
    pub discovered_tools: Vec<String>,
    /// Assistant text that came along with tool calls.
    pub intermediate_text: String,
    /// Tool calls made so far.
    pub tool_call_count: usize,
}

/// What a tool call is answered with in the conversation.
#[derive(Debug, Clone)]
pub struct ToolReply {
    pub content: String,
    pub is_error: bool,
    /// Whether the tool ran, so that its call counts in the statistics.
    pub executed: bool,
}

/// The reply to a call whose arguments the output token limit may have cut.
pub open spec fn truncated_call_text(name: Seq<char>) -> Seq<char> {
    "Tool call \""@ + name
        + "\" was not executed: the response hit the output token limit, so its arguments may be truncated. Re-issue the tool call with complete arguments."@
}

/// The text a turn ends with: the model's final text, after the text that
/// came along with its tool calls when there was any.
pub open spec fn final_text_spec(intermediate: Seq<char>, text: Seq<char>) -> Seq<char> {
    if intermediate.len() == 0 {
        text
    } else {
        intermediate + "\n"@ + text
    }
}

/// The intermediate text after the model said `text` along with tool calls.
pub open spec fn noted_text(intermediate: Seq<char>, text: Option<Seq<char>>) -> Seq<char> {
    match text {
        Some(t) => if t.len() == 0 {
            intermediate
        } else if intermediate.len() == 0 {
            t
        } else {
            intermediate + "\n"@ + t
        },
        None => intermediate,
    }
}

pub open spec fn opt_view(o: Option<String>) -> Option<Seq<char>> {
    match o {
        Some(s) => Some(s@),
        None => None,
    }
}

impl TurnAccumulator {
    /// Nothing collected yet; the schedule is dirty as the session left it.
    pub fn new(schedule_dirty: bool) -> (r: Self)
        ensures
            r.changes@.len() == 0,
            r.proposed_changes@.len() == 0,
            r.inferred_fields@.len() == 0,
            r.approval_why is None,
            r.approval_warnings@.len() == 0,
            r.schedule_dirty == schedule_dirty,
            r.discovered_tools@.len() == 0,
            r.intermediate_text@.len() == 0,
            r.tool_call_count == 0,
    {
        TurnAccumulator {
            changes: Vec::new(),
            proposed_changes: Vec::new(),
            inferred_fields: Vec::new(),
            approval_why: None,
            approval_warnings: Vec::new(),
            schedule_dirty,
            discovered_tools: Vec::new(),
            intermediate_text: String::new(),
            tool_call_count: 0,
        }
    }

    /// Whether the model may be asked again: fewer tool calls than `max`
    /// have been made.
    pub fn may_ask_model(&self, max_tool_calls: usize) -> (r: bool)
        ensures
            r == (self.tool_call_count < max_tool_calls),
    {
        self.tool_call_count < max_tool_calls
    }

    /// Counts `calls` more tool calls. The turn fails with
    /// [`AgentError::TooManyToolCalls`] when the count would exceed `max`;
    /// the count is then left as it was.
    pub fn count_tool_calls(&mut self, calls: usize, max_tool_calls: usize) -> (r: Result<(), AgentError>)
        ensures
            r is Ok == (old(self).tool_call_count + calls <= max_tool_calls),
            r is Ok ==> final(self).tool_call_count == old(self).tool_call_count + calls,
            r is Ok ==> final(self).tool_call_count <= max_tool_calls,
            r is Err ==> r == Err::<(), AgentError>(AgentError::TooManyToolCalls)
                && final(self).tool_call_count == old(self).tool_call_count,
            final(self).changes == old(self).changes,
            final(self).proposed_changes == old(self).proposed_changes,
            final(self).inferred_fields == old(self).inferred_fields,
            final(self).approval_why == old(self).approval_why,
            final(self).approval_warnings == old(self).approval_warnings,
            final(self).schedule_dirty == old(self).schedule_dirty,
            final(self).discovered_tools == old(self).discovered_tools,
            final(self).intermediate_text == old(self).intermediate_text,
    {
        if calls > max_tool_calls || self.tool_call_count > max_tool_calls - calls {
            Err(AgentError::TooManyToolCalls)
        } else {
            self.tool_call_count = self.tool_call_count + calls;
            Ok(())
        }
    }

    /// Keeps the text the model said along with its tool calls, on a line
    /// of its own after what was kept before; empty text is not kept.
    pub fn note_text(&mut self, text: &Option<String>)
        ensures
            final(self).intermediate_text@ == noted_text(old(self).intermediate_text@, opt_view(*text)),
            final(self).changes == old(self).changes,
            final(self).proposed_changes == old(self).proposed_changes,
            final(self).inferred_fields == old(self).inferred_fields,
            final(self).approval_why == old(self).approval_why,
            final(self).approval_warnings == old(self).approval_warnings,
            final(self).schedule_dirty == old(self).schedule_dirty,
            final(self).discovered_tools == old(self).discovered_tools,
            final(self).tool_call_count == old(self).tool_call_count,
    {
        if let Some(t) = text {
            if t.as_str().unicode_len() > 0 {
                let ghost before = self.intermediate_text@;
                if self.intermediate_text.as_str().unicode_len() > 0 {
                    push_char(&mut self.intermediate_text, '\n');
                }
                append_str(&mut self.intermediate_text, t.as_str());
                proof {
                    reveal_strlit("\n");
                    if before.len() == 0 {
                        assert(self.intermediate_text@ =~= t@);
                    } else {
                        assert(self.intermediate_text@ =~= before + "\n"@ + t@);
                    }
                }
            }
        }
    }

    /// The text the turn ends with when the model answers `text`.
    pub fn final_text(&self, text: String) -> (r: String)
        ensures
            r@ == final_text_spec(self.intermediate_text@, text@),
    {
        if self.intermediate_text.as_str().unicode_len() == 0 {
            text
        } else {
            let mut combined = self.intermediate_text.clone();
            push_char(&mut combined, '\n');
            append_str(&mut combined, text.as_str());
            proof {
                reveal_strlit("\n");
                assert(combined@ =~= self.intermediate_text@ + "\n"@ + text@);
            }
            combined
        }
    }

    /// Takes in what a tool returned: its `why` replaces the kept one when
    /// it gives one, its warnings, proposals, inferred fields, receipts and
    /// discovered tools are appended, and a dirty schedule stays dirty.
    pub fn absorb(&mut self, output: ToolOutput)
        ensures
            final(self).approval_why == (if output.why is Some { output.why } else { old(self).approval_why }),
            final(self).approval_warnings@ == old(self).approval_warnings@ + output.warnings@,
            final(self).proposed_changes@ == old(self).proposed_changes@ + output.proposed_changes@,
            final(self).inferred_fields@ == old(self).inferred_fields@ + output.inferred_fields@,
            final(self).changes@ == old(self).changes@ + output.changes@,
            final(self).discovered_tools@ == old(self).discovered_tools@ + output.discovered_tools@,
            final(self).schedule_dirty == (old(self).schedule_dirty || output.schedule_dirty),
            final(self).intermediate_text == old(self).intermediate_text,
            final(self).tool_call_count == old(self).tool_call_count,
    {
        let ToolOutput {
            content: _,
            why,
            mut warnings,
            mut proposed_changes,
            mut inferred_fields,
            mut changes,
            mut discovered_tools,
            schedule_dirty,
            is_error: _,
        } = output;
        if why.is_some() {
            self.approval_why = why;
        }
        self.approval_warnings.append(&mut warnings);
        self.proposed_changes.append(&mut proposed_changes);
        self.inferred_fields.append(&mut inferred_fields);
        self.changes.append(&mut changes);
        self.discovered_tools.append(&mut discovered_tools);
        self.schedule_dirty = self.schedule_dirty || schedule_dirty;
    }

    /// Settles a tool call that ran, given what the tool gave back: its
    /// output is taken in and its content is the reply; a recoverable error
    /// is replied to the model as an error; any other error ends the turn
    /// as a tool error, with nothing taken in.
    pub fn settle_tool_call(&mut self, name: &str, outcome: Result<ToolOutput, ToolError>) -> (r: Result<ToolReply, AgentError>)
        ensures
            match outcome {
                Ok(output) => {
                    &&& r matches Ok(reply) && reply.content@ == output.content@
                        && reply.is_error == output.is_error && reply.executed
                    &&& final(self).approval_why == (if output.why is Some { output.why } else { old(self).approval_why })
                    &&& final(self).approval_warnings@ == old(self).approval_warnings@ + output.warnings@
                    &&& final(self).proposed_changes@ == old(self).proposed_changes@ + output.proposed_changes@
                    &&& final(self).inferred_fields@ == old(self).inferred_fields@ + output.inferred_fields@
                    &&& final(self).changes@ == old(self).changes@ + output.changes@
                    &&& final(self).discovered_tools@ == old(self).discovered_tools@ + output.discovered_tools@
                    &&& final(self).schedule_dirty == (old(self).schedule_dirty || output.schedule_dirty)
                    &&& final(self).intermediate_text == old(self).intermediate_text
                    &&& final(self).tool_call_count == old(self).tool_call_count
                },
                Err(e) => {
                    &&& (e is Other ==> r == Err::<ToolReply, AgentError>(AgentError::Tool(e)))
                    &&& (!(e is Other) ==> (r matches Ok(reply) && reply.is_error && reply.executed
                        && reply.content@ == name@ + ": "@ + tool_error_text(e) + " ["@ + tool_error_hint(e) + "]"@))
                    &&& *final(self) == *old(self)
                },
            },
    {
        match outcome {
            Ok(output) => {
                let content = output.content.clone();
                let is_error = output.is_error;
                self.absorb(output);
                Ok(ToolReply { content, is_error, executed: true })
            },
            Err(e) => {
                if e.is_recoverable() {
                    let content = e.to_llm_content(name);
                    Ok(ToolReply { content, is_error: true, executed: true })
                } else {
                    Err(AgentError::Tool(e))
                }
            },
        }
    }
}

/// How a turn ends once the model answers with text.
#[derive(Debug)]
pub enum TurnEnding {
    /// Every proposal of the turn is approved without asking: the request is
    /// executed at once, and what it applies joins `changes`.
    AutoApprove {
        text: String,
        changes: Vec<ChangeReceipt>,
        request: ApprovalRequest,
    },
    /// The turn's result; the session keeps its schedule dirtiness and its
    /// approval request, if any.
    Done(TurnResult),
}

/// Whether every proposal of a turn is approved without asking; a turn
/// without proposals has nothing to approve.
pub open spec fn all_auto_approved(
    session: &Permissions,
    provider: &Permissions,
    changes: Seq<ProposedChange>,
) -> bool {
    &&& changes.len() > 0
    &&& forall|i: int| 0 <= i < changes.len() ==>
        auto_approved_spec(session@, provider@, (#[trigger] changes[i]).target.kind, changes[i].operation)
}

/// Ends a turn whose model answered `model_text`, at `now`: the turn's text
/// is the kept intermediate text and the answer; its proposals, if any,
/// become the session's next approval request, which is executed at once
/// when every proposal is approved without asking and otherwise handed to
/// the user with the turn's result.
pub fn finish_turn(
    acc: TurnAccumulator,
    model_text: String,
    session_id: &str,
    sequence: &mut u64,
    session_permissions: &Permissions,
    provider_permissions: &Permissions,
    now: i64,
) -> (r: TurnEnding)
    requires
        acc.proposed_changes@.len() > 0 ==> *old(sequence) < u64::MAX && in_timestamp_range(now + APPROVAL_TTL_SECONDS),
    ensures
        acc.proposed_changes@.len() == 0 ==> *final(sequence) == *old(sequence) && (r matches TurnEnding::Done(t)
            && t.text@ == final_text_spec(acc.intermediate_text@, model_text@)
            && t.changes@ == acc.changes@
            && t.schedule_dirty == acc.schedule_dirty
            && t.approval_request is None
            && t.presentation is None),
        acc.proposed_changes@.len() > 0 ==> *final(sequence) == *old(sequence) + 1,
        all_auto_approved(session_permissions, provider_permissions, acc.proposed_changes@) ==> (r matches TurnEnding::AutoApprove { text, changes, request }
            && text@ == final_text_spec(acc.intermediate_text@, model_text@)
            && changes@ == acc.changes@
            && request_for(request, session_id@, *final(sequence) as nat, acc.proposed_changes@,
                acc.inferred_fields@, acc.approval_why, acc.approval_warnings@, now)),
        acc.proposed_changes@.len() > 0 && !all_auto_approved(session_permissions, provider_permissions, acc.proposed_changes@)
            ==> (r matches TurnEnding::Done(t)
            && t.text@ == final_text_spec(acc.intermediate_text@, model_text@)
            && t.changes@ == acc.changes@
            && t.schedule_dirty == acc.schedule_dirty
            && t.presentation is None
            && (t.approval_request matches Some(req) && request_for(req, session_id@, *final(sequence) as nat,
                acc.proposed_changes@, acc.inferred_fields@, acc.approval_why, acc.approval_warnings@, now))),
{
    let text = acc.final_text(model_text);
    let all_allowed = acc.proposed_changes.len() > 0
        && all_changes_allowed(session_permissions, provider_permissions, acc.proposed_changes.as_slice());
    let TurnAccumulator {
        changes,
        proposed_changes,
        inferred_fields,
        approval_why,
        approval_warnings,
        schedule_dirty,
        discovered_tools: _,
        intermediate_text: _,
        tool_call_count: _,
    } = acc;
    let request = make_approval_request(session_id, sequence, proposed_changes, inferred_fields,
        approval_why, approval_warnings, now);
    match request {
        Some(request) => {
            if all_allowed {
                TurnEnding::AutoApprove { text, changes, request }
            } else {
                TurnEnding::Done(TurnResult {
                    text,
                    changes,
                    schedule_dirty,
                    approval_request: Some(request),
                    presentation: None,
                })
            }
        },
        None => TurnEnding::Done(TurnResult {
            text,
            changes,
            schedule_dirty,
            approval_request: None,
            presentation: None,
        }),
    }
}

/// The result of a turn whose approval request was executed at once: the
/// turn's receipts and then those of the execution, with the execution's
/// schedule dirtiness and presentation and no request left open.
pub fn auto_approved_result(text: String, changes: Vec<ChangeReceipt>, executed: ApprovalResult) -> (r: TurnResult)
    ensures
        r.text@ == text@,
        r.changes@ == changes@ + executed.changes@,
        r.schedule_dirty == executed.schedule_dirty,
        r.approval_request is None,
        r.presentation == executed.presentation,
{
    let ApprovalResult { id: _, approved: _, changes: mut applied, schedule_dirty, presentation } = executed;
    let mut all = changes;
    all.append(&mut applied);
    TurnResult { text, changes: all, schedule_dirty, approval_request: None, presentation }
}

/// The reply to a tool call that is not run because the model's response
/// hit its output token limit.
pub fn truncated_call_reply(name: &str) -> (r: ToolReply)
    ensures
        r.content@ == truncated_call_text(name@),
        r.is_error,
        !r.executed,
{
    let mut content = string_of("Tool call \"");
    append_str(&mut content, name);
    append_str(&mut content, "\" was not executed: the response hit the output token limit, so its arguments may be truncated. Re-issue the tool call with complete arguments.");
    ToolReply { content, is_error: true, executed: false }
}

/// A fresh session id: `session-` and a new time-ordered UUID.
pub fn new_session_id() -> (r: String)
    ensures
        r@.len() == 8 + 36,
        r@.subrange(0, 8) == "session-"@,
        hyphenated_uuid(r@.subrange(8, 44)),
{
    let mut id = string_of("session-");
    let uuid = new_uuid_v7();
    append_str(&mut id, uuid.as_str());
    proof {
        reveal_strlit("session-");
        assert(id@.subrange(0, 8) =~= "session-"@);
        assert(id@.subrange(8, 44) =~= uuid@);
    }
    id
}

/// A fresh id for one tool call of the session: the session id, a hyphen
/// and a new time-ordered UUID.
pub fn new_tool_call_id(session_id: &str) -> (r: String)
    ensures
        r@.len() == session_id@.len() + 1 + 36,
        r@.subrange(0, session_id@.len() as int) == session_id@,
        r@[session_id@.len() as int] == '-',
        hyphenated_uuid(r@.subrange(session_id@.len() + 1int, r@.len() as int)),
{
    let mut id = string_of(session_id);
    push_char(&mut id, '-');
    let uuid = new_uuid_v7();
    append_str(&mut id, uuid.as_str());
    proof {
        assert(id@.subrange(0, session_id@.len() as int) =~= session_id@);
        assert(id@.subrange(session_id@.len() + 1int, id@.len() as int) =~= uuid@);
    }
    id
}

} // verus!
