use takusu_agent::error::AgentError;
use takusu_agent::history::{edit_user_turn, Message};
use takusu_agent::labels::{ChangeOperation, TargetKind};
use takusu_agent::permissions::Permissions;
use takusu_agent::session::{ApprovalResult, DEFAULT_APPROVAL_WHY};
use takusu_agent::tool::{
    ChangeReceipt, InvalidArgsError, ProposedChange, ReceiptTarget, Target, ToolError, ToolOutput,
};
use takusu_agent::turn::{
    auto_approved_result, finish_turn, new_session_id, new_tool_call_id, truncated_call_reply, TurnAccumulator,
    TurnEnding,
};

fn change(kind: TargetKind, operation: ChangeOperation, description: &str) -> ProposedChange {
    ProposedChange {
        operation,
        target: Target::new(kind, "#1"),
        description: description.into(),
        ..Default::default()
    }
}

fn receipt(id: &str) -> ChangeReceipt {
    ChangeReceipt {
        operation: ChangeOperation::Create,
        target: ReceiptTarget { target_type: TargetKind::Task, target_id: id.into() },
        before: None,
        after: None,
        target_revision: None,
        inferred_fields: None,
    }
}

#[test]
fn tool_calls_beyond_the_limit_end_the_turn() {
    // A limit of two: two single calls pass, the third is refused.
    let mut acc = TurnAccumulator::new(false);
    assert!(acc.may_ask_model(2));
    assert!(acc.count_tool_calls(1, 2).is_ok());
    assert!(acc.may_ask_model(2));
    assert!(acc.count_tool_calls(1, 2).is_ok());
    assert_eq!(acc.tool_call_count, 2);
    assert!(!acc.may_ask_model(2));
    assert!(matches!(acc.count_tool_calls(1, 2), Err(AgentError::TooManyToolCalls)));
    assert_eq!(acc.tool_call_count, 2);

    // A limit of one: a response with two calls is refused at once.
    let mut acc = TurnAccumulator::new(false);
    assert!(matches!(acc.count_tool_calls(2, 1), Err(AgentError::TooManyToolCalls)));
    assert_eq!(acc.tool_call_count, 0);
    assert!(acc.count_tool_calls(usize::MAX, usize::MAX - 1).is_err());
}

#[test]
fn intermediate_text_is_joined_with_the_final_answer() {
    let mut acc = TurnAccumulator::new(false);
    acc.note_text(&Some("スケジュールを確認します".to_string()));
    assert_eq!(acc.final_text("done".to_string()), "スケジュールを確認します\ndone");

    acc.note_text(&Some(String::new()));
    acc.note_text(&None);
    assert_eq!(acc.intermediate_text, "スケジュールを確認します");
    acc.note_text(&Some("次へ".to_string()));
    assert_eq!(acc.intermediate_text, "スケジュールを確認します\n次へ");

    let quiet = TurnAccumulator::new(false);
    assert_eq!(quiet.final_text("done".to_string()), "done");
}

#[test]
fn tool_output_is_collected_into_the_turn() {
    let mut acc = TurnAccumulator::new(false);
    let first = ToolOutput {
        content: "{\"ok\":true}".into(),
        why: Some("理由".into()),
        warnings: vec!["w1".into()],
        proposed_changes: vec![change(TargetKind::Task, ChangeOperation::Create, "a")],
        changes: vec![receipt("r1")],
        discovered_tools: vec!["task_move".into()],
        schedule_dirty: true,
        ..Default::default()
    };
    let reply = acc.settle_tool_call("plan", Ok(first)).unwrap();
    assert_eq!(reply.content, "{\"ok\":true}");
    assert!(!reply.is_error);
    assert!(reply.executed);

    let second = ToolOutput {
        content: "second".into(),
        warnings: vec!["w2".into()],
        proposed_changes: vec![change(TargetKind::Habit, ChangeOperation::Update, "b")],
        is_error: true,
        ..Default::default()
    };
    let reply = acc.settle_tool_call("plan", Ok(second)).unwrap();
    assert!(reply.is_error);

    assert_eq!(acc.approval_why.as_deref(), Some("理由"));
    assert_eq!(acc.approval_warnings, vec!["w1".to_string(), "w2".to_string()]);
    assert_eq!(acc.proposed_changes.len(), 2);
    assert_eq!(acc.proposed_changes[1].description, "b");
    assert_eq!(acc.changes.len(), 1);
    assert_eq!(acc.discovered_tools, vec!["task_move".to_string()]);
    assert!(acc.schedule_dirty);
}

#[test]
fn recoverable_tool_error_is_replied_to_the_model() {
    let mut acc = TurnAccumulator::new(false);
    let err = ToolError::InvalidArgs(InvalidArgsError::no_field("bad args"));
    let reply = acc.settle_tool_call("fail", Err(err)).unwrap();
    assert!(reply.is_error);
    assert!(reply.executed);
    assert!(reply.content.contains("bad args"));
    assert_eq!(reply.content, "fail: invalid arguments: bad args [check arguments]");
    assert!(acc.proposed_changes.is_empty());

    let fatal = acc.settle_tool_call("fail", Err(ToolError::Other("boom".into())));
    assert!(matches!(fatal, Err(AgentError::Tool(ToolError::Other(m))) if m == "boom"));
}

#[test]
fn truncated_tool_call_is_not_executed() {
    let reply = truncated_call_reply("echo");
    assert_eq!(
        reply.content,
        "Tool call \"echo\" was not executed: the response hit the output token limit, so its arguments may be truncated. Re-issue the tool call with complete arguments."
    );
    assert!(reply.is_error);
    assert!(!reply.executed);
}

#[test]
fn tool_call_ids_are_scoped_to_the_session() {
    let a = new_tool_call_id("session-1");
    let b = new_tool_call_id("session-1");
    assert!(a.starts_with("session-1-"));
    assert_eq!(a.len(), "session-1-".len() + 36);
    let uuid = &a["session-1-".len()..];
    for (i, c) in uuid.chars().enumerate() {
        if [8, 13, 18, 23].contains(&i) {
            assert_eq!(c, '-');
        } else {
            assert!(c.is_ascii_hexdigit() && !c.is_ascii_uppercase());
        }
    }
    assert_ne!(a, b);
}

#[test]
fn turn_without_proposals_ends_with_its_text() {
    let mut acc = TurnAccumulator::new(true);
    acc.changes.push(receipt("r1"));
    let mut sequence = 4;
    let ending = finish_turn(acc, "done".into(), "s1", &mut sequence, &Permissions::default(), &Permissions::default(), 1_000);
    match ending {
        TurnEnding::Done(result) => {
            assert_eq!(result.text, "done");
            assert_eq!(result.changes.len(), 1);
            assert!(result.schedule_dirty);
            assert!(result.approval_request.is_none());
        }
        TurnEnding::AutoApprove { .. } => panic!("nothing to approve"),
    }
    assert_eq!(sequence, 4);
}

#[test]
fn proposals_needing_approval_are_handed_to_the_user() {
    let mut acc = TurnAccumulator::new(false);
    acc.proposed_changes.push(change(TargetKind::Task, ChangeOperation::Delete, "消す"));
    let mut sequence = 0;
    let ending = finish_turn(acc, "確認してください".into(), "s1", &mut sequence, &Permissions::default(), &Permissions::default(), 1_000);
    assert_eq!(sequence, 1);
    match ending {
        TurnEnding::Done(result) => {
            let request = result.approval_request.expect("approval request");
            assert_eq!(request.id, "s1-approval-1");
            assert_eq!(request.why, DEFAULT_APPROVAL_WHY);
            assert_eq!(request.expires_at, 1_300);
            assert_eq!(request.changes.len(), 1);
            assert!(request.changes[0].proposal_id.as_deref().unwrap().starts_with("s1-proposal-"));
        }
        TurnEnding::AutoApprove { .. } => panic!("delete is not allowed"),
    }
}

#[test]
fn provider_permissions_auto_approve_allowed_changes() {
    let mut provider = Permissions::default();
    provider.set(Some(TargetKind::Task), None, true);
    let mut acc = TurnAccumulator::new(false);
    acc.note_text(&Some("作ります".into()));
    acc.changes.push(receipt("earlier"));
    acc.proposed_changes.push(change(TargetKind::Task, ChangeOperation::Create, "作成"));
    let mut sequence = 0;
    let ending = finish_turn(acc, "done".into(), "s1", &mut sequence, &Permissions::default(), &provider, 1_000);
    match ending {
        TurnEnding::AutoApprove { text, changes, request } => {
            assert_eq!(text, "作ります\ndone");
            assert_eq!(changes.len(), 1);
            assert_eq!(request.id, "s1-approval-1");
            let executed = ApprovalResult {
                id: request.id.clone(),
                approved: true,
                changes: vec![receipt("applied")],
                schedule_dirty: true,
                presentation: None,
            };
            let result = auto_approved_result(text, changes, executed);
            assert_eq!(result.changes.len(), 2);
            assert_eq!(result.changes[1].target.target_id, "applied");
            assert!(result.schedule_dirty);
            assert!(result.approval_request.is_none());
        }
        TurnEnding::Done(_) => panic!("task changes are allowed"),
    }
}

#[test]
fn session_permissions_override_provider_for_the_turn() {
    let mut provider = Permissions::default();
    provider.set(Some(TargetKind::Task), None, true);
    let mut session = Permissions::default();
    session.set(Some(TargetKind::Task), Some(ChangeOperation::Create), false);
    let mut acc = TurnAccumulator::new(false);
    acc.proposed_changes.push(change(TargetKind::Task, ChangeOperation::Create, "作成"));
    let mut sequence = 0;
    let ending = finish_turn(acc, "done".into(), "s1", &mut sequence, &session, &provider, 1_000);
    assert!(matches!(ending, TurnEnding::Done(r) if r.approval_request.is_some()));
}

#[test]
fn editing_a_turn_rewrites_its_user_message_and_drops_the_rest() {
    let mut history = vec![
        Message::User("hello".into()),
        Message::Assistant("first".into()),
        Message::User("again".into()),
        Message::Assistant("second".into()),
    ];
    edit_user_turn(&mut history, 0, "goodbye".into()).unwrap();
    assert_eq!(history.len(), 1);
    assert!(matches!(&history[0], Message::User(t) if t == "goodbye"));

    let mut empty: Vec<Message> = Vec::new();
    let err = edit_user_turn(&mut empty, 0, "x".into()).unwrap_err();
    assert_eq!(err.field(), Some("turn_index"));
    assert_eq!(err.reason(), "out of range: 0");
}

#[test]
fn agent_error_display_texts() {
    assert_eq!(AgentError::TooManyToolCalls.to_string(), "too many tool calls");
    assert_eq!(AgentError::Llm("rate limited".into()).to_string(), "llm error: rate limited");
    assert_eq!(AgentError::Client("404".into()).to_string(), "client error: 404");
    assert_eq!(AgentError::Lock("poisoned".into()).to_string(), "lock poisoned: poisoned");
    assert_eq!(
        AgentError::Tool(ToolError::NotFound("#3".into())).to_string(),
        "tool error: not found: #3"
    );
    assert_eq!(
        AgentError::Audio(takusu_agent::audio::AudioError::Timeout).to_string(),
        "audio error: audio operation timed out"
    );
}

#[test]
fn session_ids_are_fresh() {
    let a = new_session_id();
    let b = new_session_id();
    assert!(a.starts_with("session-"));
    assert_eq!(a.len(), 44);
    assert_ne!(a, b);
}
