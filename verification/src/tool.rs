//! Tool-facing error types, names and change descriptions.

use vstd::prelude::*;
use crate::labels::{ChangeOperation, TargetKind, UnknownLabel, target_label, is_plain_label, lemma_target_label_facts};
use crate::text::{
    string_of, append_str, chars_of, string_from_range, skip_ws, skip_nonws, ws_end, nonws_end,
    is_whitespace_char, lemma_ws_end_at, lemma_nonws_end_at, trim_start_spec, trim_text, trim_spec,
};
use crate::json::{json_quote, json_quoted};

verus! {

/// Structured recoverable argument error passed back to the LLM.
#[derive(Debug, Clone)]
pub enum InvalidArgsError {
    /// The named field is invalid.
    Field { field: String, reason: String },
    /// The arguments are invalid without a specific field.
    NoField { reason: String },
}

/// Display text of an [`InvalidArgsError`].
pub open spec fn invalid_args_text(e: InvalidArgsError) -> Seq<char> {
    match e {
        InvalidArgsError::Field { field, reason } => "field '"@ + field@ + "': "@ + reason@,
        InvalidArgsError::NoField { reason } => reason@,
    }
}

impl InvalidArgsError {
    /// Create an error for a specific field.
    pub fn new(field: &str, reason: &str) -> (e: Self)
        ensures
            e matches InvalidArgsError::Field { field: f, reason: r } && f@ == field@ && r@ == reason@,
    {
        InvalidArgsError::Field { field: string_of(field), reason: string_of(reason) }
    }

    /// Create an error without naming a specific field.
    pub fn no_field(reason: &str) -> (e: Self)
        ensures
            e matches InvalidArgsError::NoField { reason: r } && r@ == reason@,
    {
        InvalidArgsError::NoField { reason: string_of(reason) }
    }

    /// Name of the invalid argument/field, if known.
    pub fn field(&self) -> (r: Option<&str>)
        ensures
            match *self {
                InvalidArgsError::Field { field, .. } => r is Some && r->0@ == field@,
                InvalidArgsError::NoField { .. } => r is None,
            },
    {
        match self {
            InvalidArgsError::Field { field, .. } => Some(field.as_str()),
            InvalidArgsError::NoField { .. } => None,
        }
    }

    /// Human-readable explanation of what is wrong.
    pub fn reason(&self) -> (r: &str)
        ensures
            match *self {
                InvalidArgsError::Field { reason, .. } => r@ == reason@,
                InvalidArgsError::NoField { reason } => r@ == reason@,
            },
    {
        match self {
            InvalidArgsError::Field { reason, .. } => reason.as_str(),
            InvalidArgsError::NoField { reason } => reason.as_str(),
        }
    }

    /// The display text: `field '<field>': <reason>`, or the bare reason.
    pub fn to_string(&self) -> (s: String)
        ensures
            s@ == invalid_args_text(*self),
    {
        match self {
            InvalidArgsError::Field { field, reason } => {
                let mut s = string_of("field '");
                append_str(&mut s, field.as_str());
                append_str(&mut s, "': ");
                append_str(&mut s, reason.as_str());
                s
            },
            InvalidArgsError::NoField { reason } => string_of(reason.as_str()),
        }
    }
}

/// Error returned by a tool call.
#[derive(Debug, Clone)]
pub enum ToolError {
    InvalidArgs(InvalidArgsError),
    NotFound(String),
    Conflict(String),
    Cancelled,
    /// Any other failure, carried as its display text.
    Other(String),
}

/// Display text of a [`ToolError`].
pub open spec fn tool_error_text(e: ToolError) -> Seq<char> {
    match e {
        ToolError::InvalidArgs(a) => "invalid arguments: "@ + invalid_args_text(a),
        ToolError::NotFound(s) => "not found: "@ + s@,
        ToolError::Conflict(s) => "optimistic conflict: "@ + s@,
        ToolError::Cancelled => "operation cancelled by user"@,
        ToolError::Other(s) => s@,
    }
}

/// Retry hint attached to the LLM-facing error text.
pub open spec fn tool_error_hint(e: ToolError) -> Seq<char> {
    match e {
        ToolError::InvalidArgs(_) => "check arguments"@,
        ToolError::NotFound(_) => "verify id"@,
        ToolError::Conflict(_) => "retry with latest"@,
        ToolError::Cancelled => "ask user"@,
        ToolError::Other(_) => "unexpected error"@,
    }
}

impl ToolError {
    /// The display text of the error.
    pub fn to_string(&self) -> (s: String)
        ensures
            s@ == tool_error_text(*self),
    {
        match self {
            ToolError::InvalidArgs(a) => {
                let mut s = string_of("invalid arguments: ");
                let t = a.to_string();
                append_str(&mut s, t.as_str());
                s
            },
            ToolError::NotFound(m) => {
                let mut s = string_of("not found: ");
                append_str(&mut s, m.as_str());
                s
            },
            ToolError::Conflict(m) => {
                let mut s = string_of("optimistic conflict: ");
                append_str(&mut s, m.as_str());
                s
            },
            ToolError::Cancelled => string_of("operation cancelled by user"),
            ToolError::Other(m) => string_of(m.as_str()),
        }
    }

    /// Extract the `InvalidArgsError` from a `ToolError::InvalidArgs`,
    /// converting any other variant into `InvalidArgsError::no_field`.
    pub fn into_invalid_args(self) -> (r: InvalidArgsError)
        ensures
            match self {
                ToolError::InvalidArgs(e) => r == e,
                _ => r matches InvalidArgsError::NoField { reason } && reason@ == tool_error_text(self),
            },
    {
        match self {
            ToolError::InvalidArgs(e) => e,
            other => {
                let text = other.to_string();
                InvalidArgsError::NoField { reason: text }
            },
        }
    }

    /// Errors that the LLM can correct by adjusting its request.
    pub fn is_recoverable(&self) -> (r: bool)
        ensures
            r == !(*self is Other),
    {
        match self {
            ToolError::InvalidArgs(_) | ToolError::NotFound(_) | ToolError::Conflict(_)
            | ToolError::Cancelled => true,
            ToolError::Other(_) => false,
        }
    }

    /// Compact LLM-facing description: `<tool>: <error> [<hint>]`.
    pub fn to_llm_content(&self, tool_name: &str) -> (s: String)
        ensures
            s@ == tool_name@ + ": "@ + tool_error_text(*self) + " ["@ + tool_error_hint(*self) + "]"@,
    {
        let hint = match self {
            ToolError::InvalidArgs(_) => "check arguments",
            ToolError::NotFound(_) => "verify id",
            ToolError::Conflict(_) => "retry with latest",
            ToolError::Cancelled => "ask user",
            ToolError::Other(_) => "unexpected error",
        };
        let mut s = string_of(tool_name);
        append_str(&mut s, ": ");
        let text = self.to_string();
        append_str(&mut s, text.as_str());
        append_str(&mut s, " [");
        append_str(&mut s, hint);
        append_str(&mut s, "]");
        s
    }
}

/// The value a deserialized optional string field takes: trimmed, and
/// none when nothing but whitespace is left.
pub fn deserialize_trimmed_optional(raw: Option<String>) -> (r: Option<String>)
    ensures
        match raw {
            None => r is None,
            Some(s) => if trim_spec(s@).len() == 0 { r is None } else { r matches Some(t) && t@ == trim_spec(s@) },
        },
{
    match raw {
        None => None,
        Some(s) => {
            let t = trim_text(s.as_str());
            if t.unicode_len() == 0 { None } else { Some(t) }
        },
    }
}

/// The value a deserialized required string field takes: trimmed, and
/// refused as "missing or empty" when nothing but whitespace is left.
pub fn deserialize_trimmed_required(raw: String) -> (r: Result<String, &'static str>)
    ensures
        if trim_spec(raw@).len() == 0 {
            r matches Err(e) && e@ == "missing or empty"@
        } else {
            r matches Ok(t) && t@ == trim_spec(raw@)
        },
{
    let t = trim_text(raw.as_str());
    if t.unicode_len() == 0 { Err("missing or empty") } else { Ok(t) }
}

/// How a tool is exposed to the model.
#[derive(Debug, Clone, Copy, PartialEq, Eq, Structural)]
pub enum ToolExposure {
    /// Always included in the tool list sent to the model.
    Direct,
    /// Not sent by default; discoverable through `tool_search`.
    Deferred,
    /// Never sent to the model and rejected if called.
    Hidden,
}

/// A tool definition in the OpenAI function-calling format.
#[derive(Debug, Clone)]
pub struct OpenAITool {
    pub function: OpenAIToolFunction,
    /// Always `"function"`.
    pub type_: &'static str,
}

/// The function part of an OpenAI tool definition.
#[derive(Debug, Clone)]
pub struct OpenAIToolFunction {
    pub description: String,
    pub name: String,
    /// JSON schema of the arguments object, as JSON text.
    pub parameters: String,
}

/// Type-safe name for every registered tool.
#[derive(Debug, Clone, Copy, PartialEq, Eq, Structural)]
pub enum ToolName {
    CorrectAsr,
    ToolSearch,
    SkillsList,
    SkillsRead,
    SkillsProposeAdd,
    SkillsProposeEdit,
    ExpandRrule,
    TaskStart,
    TaskPause,
    TaskProgress,
    TaskComplete,
    TaskSplit,
    MemorySearch,
    SimilarTasks,
    MemorySave,
    MemoryUpdate,
    MemoryDelete,
    DayDetails,
    ListTasks,
    GetTask,
    ListHabits,
    GetHabit,
    GetSchedule,
    HabitScheduledSpans,
    GetSettings,
    PreviewSchedule,
    CreateTask,
    UpdateTask,
    DeleteTask,
    CreateHabit,
    UpdateHabit,
    DeleteHabit,
    GenerateSchedule,
    Reschedule,
    MoveTask,
}

/// Wire name of a tool.
pub open spec fn tool_name_label(n: ToolName) -> Seq<char> {
    match n {
        ToolName::CorrectAsr => "correct_asr"@,
        ToolName::ToolSearch => "tool_search"@,
        ToolName::SkillsList => "skills_list"@,
        ToolName::SkillsRead => "skills_read"@,
        ToolName::SkillsProposeAdd => "skills_propose_add"@,
        ToolName::SkillsProposeEdit => "skills_propose_edit"@,
        ToolName::ExpandRrule => "expand_rrule"@,
        ToolName::TaskStart => "task_start"@,
        ToolName::TaskPause => "task_pause"@,
        ToolName::TaskProgress => "task_progress"@,
        ToolName::TaskComplete => "task_complete"@,
        ToolName::TaskSplit => "task_split"@,
        ToolName::MemorySearch => "memory_search"@,
        ToolName::SimilarTasks => "similar_tasks"@,
        ToolName::MemorySave => "memory_save"@,
        ToolName::MemoryUpdate => "memory_update"@,
        ToolName::MemoryDelete => "memory_delete"@,
        ToolName::DayDetails => "day_details"@,
        ToolName::ListTasks => "list_tasks"@,
        ToolName::GetTask => "get_task"@,
        ToolName::ListHabits => "list_habits"@,
        ToolName::GetHabit => "get_habit"@,
        ToolName::GetSchedule => "get_schedule"@,
        ToolName::HabitScheduledSpans => "habit_scheduled_spans"@,
        ToolName::GetSettings => "get_settings"@,
        ToolName::PreviewSchedule => "preview_schedule"@,
        ToolName::CreateTask => "create_task"@,
        ToolName::UpdateTask => "update_task"@,
        ToolName::DeleteTask => "delete_task"@,
        ToolName::CreateHabit => "create_habit"@,
        ToolName::UpdateHabit => "update_habit"@,
        ToolName::DeleteHabit => "delete_habit"@,
        ToolName::GenerateSchedule => "generate_schedule"@,
        ToolName::Reschedule => "reschedule"@,
        ToolName::MoveTask => "move_task"@,
    }
}

impl ToolName {
    /// The wire name sent to the LLM.
    pub fn as_str(self) -> (s: &'static str)
        ensures
            s@ == tool_name_label(self),
    {
        match self {
            ToolName::CorrectAsr => "correct_asr",
            ToolName::ToolSearch => "tool_search",
            ToolName::SkillsList => "skills_list",
            ToolName::SkillsRead => "skills_read",
            ToolName::SkillsProposeAdd => "skills_propose_add",
            ToolName::SkillsProposeEdit => "skills_propose_edit",
            ToolName::ExpandRrule => "expand_rrule",
            ToolName::TaskStart => "task_start",
            ToolName::TaskPause => "task_pause",
            ToolName::TaskProgress => "task_progress",
            ToolName::TaskComplete => "task_complete",
            ToolName::TaskSplit => "task_split",
            ToolName::MemorySearch => "memory_search",
            ToolName::SimilarTasks => "similar_tasks",
            ToolName::MemorySave => "memory_save",
            ToolName::MemoryUpdate => "memory_update",
            ToolName::MemoryDelete => "memory_delete",
            ToolName::DayDetails => "day_details",
            ToolName::ListTasks => "list_tasks",
            ToolName::GetTask => "get_task",
            ToolName::ListHabits => "list_habits",
            ToolName::GetHabit => "get_habit",
            ToolName::GetSchedule => "get_schedule",
            ToolName::HabitScheduledSpans => "habit_scheduled_spans",
            ToolName::GetSettings => "get_settings",
            ToolName::PreviewSchedule => "preview_schedule",
            ToolName::CreateTask => "create_task",
            ToolName::UpdateTask => "update_task",
            ToolName::DeleteTask => "delete_task",
            ToolName::CreateHabit => "create_habit",
            ToolName::UpdateHabit => "update_habit",
            ToolName::DeleteHabit => "delete_habit",
            ToolName::GenerateSchedule => "generate_schedule",
            ToolName::Reschedule => "reschedule",
            ToolName::MoveTask => "move_task",
        }
    }
}


/// A typed target identifier, written `"task #42"` on the wire.
#[derive(Debug, Clone, PartialEq, Eq)]
pub struct Target {
    pub kind: TargetKind,
    pub display_id: String,
}

/// Wire text of a target: the kind label, then a space and the display id
/// when there is one.
pub open spec fn target_text(kind: TargetKind, display_id: Seq<char>) -> Seq<char> {
    if display_id.len() == 0 {
        target_label(kind)
    } else {
        target_label(kind) + " "@ + display_id
    }
}

/// The kind text and display id of a target text: leading whitespace is
/// dropped, the text splits at its first whitespace character, and the
/// display id loses its own leading whitespace.
pub open spec fn target_parts(s: Seq<char>) -> (Seq<char>, Seq<char>) {
    let t = trim_start_spec(s);
    let e = nonws_end(t, 0);
    if e < t.len() {
        (t.subrange(0, e), trim_start_spec(t.subrange(e + 1, t.len() as int)))
    } else {
        (t, Seq::empty())
    }
}

/// The result of parsing a target text: the kind (when its text is a known
/// label) and the display id.
pub open spec fn parse_target_spec(s: Seq<char>) -> Option<(TargetKind, Seq<char>)> {
    let (k, d) = target_parts(s);
    if exists|kind: TargetKind| target_label(kind) == k {
        Some((choose|kind: TargetKind| target_label(kind) == k, d))
    } else {
        None
    }
}

impl Target {
    pub fn new(kind: TargetKind, display_id: &str) -> (t: Self)
        ensures
            t.kind == kind,
            t.display_id@ == display_id@,
    {
        Target { kind, display_id: string_of(display_id) }
    }

    /// The wire text: `"<kind>"` or `"<kind> <display id>"`.
    pub fn to_string(&self) -> (s: String)
        ensures
            s@ == target_text(self.kind, self.display_id@),
    {
        let mut s = string_of(self.kind.as_str());
        if self.display_id.unicode_len() > 0 {
            append_str(&mut s, " ");
            append_str(&mut s, self.display_id.as_str());
        }
        s
    }

    /// Parse a wire text such as `"task some long title"`.
    pub fn from_str(s: &str) -> (r: Result<Target, UnknownLabel>)
        ensures
            match r {
                Ok(t) => parse_target_spec(s@) == Some((t.kind, t.display_id@)),
                Err(e) => parse_target_spec(s@) is None && e.label@ == target_parts(s@).0,
            },
    {
        let all = chars_of(s);
        let start = skip_ws(&all, 0);
        let t_str = string_from_range(&all, start, all.len());
        let t = chars_of(t_str.as_str());
        assert(t@ == trim_start_spec(s@));
        let e = skip_nonws(&t, 0);
        let kind_text;
        let display;
        if e < t.len() {
            kind_text = string_from_range(&t, 0, e);
            let rest = string_from_range(&t, e + 1, t.len());
            let rest_chars = chars_of(rest.as_str());
            let ds = skip_ws(&rest_chars, 0);
            display = string_from_range(&rest_chars, ds, rest_chars.len());
        } else {
            kind_text = string_from_range(&t, 0, t.len());
            display = String::new();
            assert(t@.subrange(0, t@.len() as int) =~= t@);
        }
        assert(kind_text@ == target_parts(s@).0);
        assert(display@ == target_parts(s@).1);
        match TargetKind::from_str(kind_text.as_str()) {
            Ok(kind) => {
                proof { lemma_target_label_facts(); }
                Ok(Target { kind, display_id: display })
            },
            Err(e) => Err(e),
        }
    }
}

/// Plain labels contain no whitespace.
proof fn lemma_plain_label_no_ws(s: Seq<char>)
    requires
        is_plain_label(s),
    ensures
        forall|i: int| 0 <= i < s.len() ==> !is_whitespace_char(#[trigger] s[i]),
{
    assert forall|i: int| 0 <= i < s.len() implies !is_whitespace_char(#[trigger] s[i]) by {
        assert(('a' <= s[i] <= 'z') || s[i] == '_');
    }
}

/// Parsing the wire text of a target gives it back, whenever its display id
/// does not itself start with whitespace.
pub proof fn lemma_target_text_round_trip(kind: TargetKind, display_id: Seq<char>)
    requires
        display_id.len() == 0 || !is_whitespace_char(display_id[0]),
    ensures
        parse_target_spec(target_text(kind, display_id)) == Some((kind, display_id)),
{
    lemma_target_label_facts();
    let l = target_label(kind);
    lemma_plain_label_no_ws(l);
    let s = target_text(kind, display_id);
    reveal_strlit(" ");
    assert(" "@ =~= seq![' ']);
    lemma_ws_end_at(s, 0, 0);
    assert(trim_start_spec(s) =~= s);
    if display_id.len() == 0 {
        assert(s == l);
        lemma_nonws_end_at(s, 0, l.len() as int);
        assert(s.subrange(0, l.len() as int) =~= l);
    } else {
        assert(s =~= l + seq![' '] + display_id);
        assert forall|i: int| 0 <= i < l.len() implies !is_whitespace_char(#[trigger] s[i]) by {
            assert(s[i] == l[i]);
        }
        assert(is_whitespace_char(s[l.len() as int]));
        lemma_nonws_end_at(s, 0, l.len() as int);
        assert(s.subrange(0, l.len() as int) =~= l);
        let rest = s.subrange(l.len() as int + 1, s.len() as int);
        assert(rest =~= display_id);
        lemma_ws_end_at(rest, 0, 0);
        assert(trim_start_spec(rest) =~= display_id);
    }
}


/// Flattened target fields inside a [`ChangeReceipt`].
#[derive(Debug, Clone)]
pub struct ReceiptTarget {
    pub target_type: TargetKind,
    pub target_id: String,
}

/// A planner write proposed for approval. JSON payloads are carried as
/// their JSON text.
#[derive(Debug, Clone)]
pub struct ProposedChange {
    pub operation: ChangeOperation,
    pub target: Target,
    pub description: String,
    pub before: Option<String>,
    pub after: Option<String>,
    pub arguments: Option<String>,
    pub observed_updated_at: Option<String>,
    pub proposal_id: Option<String>,
}

/// A per-proposal approval decision.
#[derive(Debug, Clone)]
pub struct ProposalDecision {
    pub proposal_id: String,
    pub approve: bool,
}

/// A field the model inferred, with its value as JSON text.
#[derive(Debug, Clone)]
pub struct InferredField {
    /// Name of the inferred field.
    pub field: String,
    /// Inferred value for the field, as JSON text.
    pub value: String,
    /// Reason the field was inferred.
    pub reason: String,
}

/// Receipt of an applied change. JSON payloads are carried as JSON text.
#[derive(Debug, Clone)]
pub struct ChangeReceipt {
    pub operation: ChangeOperation,
    pub target: ReceiptTarget,
    pub before: Option<String>,
    pub after: Option<String>,
    pub target_revision: Option<i64>,
    pub inferred_fields: Option<String>,
}

/// Content payload for proposal-generating tools.
#[derive(Debug, Clone)]
pub struct ProposalContent {
    pub approval_required: bool,
    pub target: String,
}

impl ProposalContent {
    /// Build the standard proposal content for `target`.
    pub fn new(target: &Target) -> (c: Self)
        ensures
            c.approval_required,
            c.target@ == target_text(target.kind, target.display_id@),
    {
        ProposalContent { approval_required: true, target: target.to_string() }
    }

    /// The JSON text stored in [`ToolOutput::content`]:
    /// `{"approval_required":..,"target":..}`.
    pub fn to_json_string(&self) -> (s: String)
        ensures
            s@ == "{\"approval_required\":"@ + (if self.approval_required { "true"@ } else { "false"@ })
                + ",\"target\":"@ + json_quoted(self.target@) + "}"@,
    {
        let mut s = string_of("{\"approval_required\":");
        append_str(&mut s, if self.approval_required { "true" } else { "false" });
        append_str(&mut s, ",\"target\":");
        let q = json_quote(self.target.as_str());
        append_str(&mut s, q.as_str());
        append_str(&mut s, "}");
        s
    }
}

/// The JSON schema of one inferred field, as the JSON text `serde_json`
/// writes (object keys in order).
pub open spec fn inferred_field_schema_text() -> Seq<char> {
    "{\"additionalProperties\":false,\"properties\":{\"field\":{\"description\":\"Name of the inferred field.\",\"type\":\"string\"},\"reason\":{\"description\":\"Reason the field was inferred.\",\"type\":\"string\"},\"value\":{\"description\":\"Inferred value for the field.\"}},\"required\":[\"field\",\"value\",\"reason\"],\"type\":\"object\"}"@
}

/// The JSON schema of one inferred field: an object with the string
/// `field`, any `value` and the string `reason`, all required, and no other
/// properties.
pub fn inferred_field_schema() -> (s: String)
    ensures
        s@ == inferred_field_schema_text(),
{
    string_of("{\"additionalProperties\":false,\"properties\":{\"field\":{\"description\":\"Name of the inferred field.\",\"type\":\"string\"},\"reason\":{\"description\":\"Reason the field was inferred.\",\"type\":\"string\"},\"value\":{\"description\":\"Inferred value for the field.\"}},\"required\":[\"field\",\"value\",\"reason\"],\"type\":\"object\"}")
}

/// The JSON schema of an array of inferred fields with the given
/// description, as the JSON text `serde_json` writes.
pub fn inferred_fields_schema(description: &str) -> (s: String)
    ensures
        s@ == "{\"description\":"@ + json_quoted(description@) + ",\"items\":"@ + inferred_field_schema_text()
            + ",\"type\":\"array\"}"@,
{
    let mut s = string_of("{\"description\":");
    let q = json_quote(description);
    append_str(&mut s, q.as_str());
    append_str(&mut s, ",\"items\":");
    let item = inferred_field_schema();
    append_str(&mut s, item.as_str());
    append_str(&mut s, ",\"type\":\"array\"}");
    s
}

/// Result of a tool call.
#[derive(Debug, Clone)]
pub struct ToolOutput {
    /// JSON or text returned to the LLM.
    pub content: String,
    /// Short user-facing explanation supplied by the model for an approval request.
    pub why: Option<String>,
    pub warnings: Vec<String>,
    /// Planner writes proposed for application-level approval.
    pub proposed_changes: Vec<ProposedChange>,
    pub inferred_fields: Vec<InferredField>,
    /// Change receipts collected for the application UI.
    pub changes: Vec<ChangeReceipt>,
    /// Tool names discovered by `tool_search` that should become active this turn.
    pub discovered_tools: Vec<String>,
    pub schedule_dirty: bool,
    /// Whether this result represents an error the LLM should correct.
    pub is_error: bool,
}

impl Default for Target {
    fn default() -> (r: Self)
        ensures
            r.kind == TargetKind::Task,
            r.display_id@.len() == 0,
    {
        Target { kind: TargetKind::Task, display_id: String::new() }
    }
}

impl Default for ProposedChange {
    fn default() -> (r: Self)
        ensures
            r.operation == ChangeOperation::Create,
            r.target.kind == TargetKind::Task,
            r.target.display_id@.len() == 0,
            r.description@.len() == 0,
            r.before is None,
            r.after is None,
            r.arguments is None,
            r.observed_updated_at is None,
            r.proposal_id is None,
    {
        ProposedChange {
            operation: ChangeOperation::Create,
            target: Target::default(),
            description: String::new(),
            before: None,
            after: None,
            arguments: None,
            observed_updated_at: None,
            proposal_id: None,
        }
    }
}

impl Default for ToolOutput {
    fn default() -> (r: Self)
        ensures
            r.content@.len() == 0,
            r.why is None,
            r.warnings@.len() == 0,
            r.proposed_changes@.len() == 0,
            r.inferred_fields@.len() == 0,
            r.changes@.len() == 0,
            r.discovered_tools@.len() == 0,
            !r.schedule_dirty,
            !r.is_error,
    {
        ToolOutput {
            content: String::new(),
            why: None,
            warnings: Vec::new(),
            proposed_changes: Vec::new(),
            inferred_fields: Vec::new(),
            changes: Vec::new(),
            discovered_tools: Vec::new(),
            schedule_dirty: false,
            is_error: false,
        }
    }
}

} // verus!
