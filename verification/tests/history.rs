use takusu_agent::history::{
    edit_session_turn, truncate_session, SessionState,
    compaction_possible, keep_after_compaction, kept_history, trim_messages, trim_to_target, truncate_history, Message,
};
use takusu_agent::tool::InvalidArgsError;

fn user(s: &str) -> Message {
    Message::User(s.to_string())
}

#[test]
fn trim_to_target_no_trim_when_within_budget() {
    let msgs = vec![user("aaaa"), user("aaaa")];
    let result = trim_to_target(msgs, 20, 10, 8, 5);
    assert_eq!(result.len(), 2, "should not trim when within budget");
}

#[test]
fn trim_to_target_trims_when_actual_local_equals_current() {
    let msgs = vec![user("aaaa"), user("aaaa"), user("aaaa")];
    let result = trim_to_target(msgs, 10, 15, 15, 5);
    assert_eq!(result.len(), 2, "should trim one oldest turn");
}

#[test]
fn trim_to_target_falls_back_to_target_when_actual_local_is_zero() {
    let msgs = vec![user("aaaa"), user("aaaa"), user("aaaa")];
    let result = trim_to_target(msgs, 10, 15, 0, 5);
    assert_eq!(
        result.len(),
        2,
        "actual_local == 0 should fall back to target and trim conservatively"
    );
}

#[test]
fn trim_to_target_no_trim_when_actual_local_zero_and_current_within_target() {
    let msgs = vec![user("aaaa"), user("aaaa")];
    let result = trim_to_target(msgs, 20, 10, 0, 5);
    assert_eq!(result.len(), 2, "should not trim when current <= target");
}

#[test]
fn trim_to_target_trims_more_when_estimate_overcounts_provider() {
    let msgs = vec![user("aaaa"), user("aaaa"), user("aaaa")];
    let result = trim_to_target(msgs, 10, 15, 20, 5);
    assert_eq!(result.len(), 1, "should trim down to last message");
}

#[test]
fn trim_to_target_trims_less_when_estimate_undercounts_provider() {
    let msgs = vec![user("aaaa"), user("aaaa"), user("aaaa")];
    let result = trim_to_target(msgs, 10, 15, 12, 5);
    assert_eq!(result.len(), 2, "should trim only one turn");
}

#[test]
fn trim_to_target_preserves_last_message_when_target_below_last_estimate() {
    let msgs = vec![user("aaaa"), user("aaaaaaaa")];
    let result = trim_to_target(msgs, 3, 11, 11, 6);
    assert_eq!(result.len(), 1);
    assert!(matches!(&result[0], Message::User(t) if t == "aaaaaaaa"));
}

#[test]
fn estimate_tokens_rounds_characters_up_to_quarters() {
    assert_eq!(user("aaaa").estimate_tokens(), 5);
    assert_eq!(user("aaaaaaaa").estimate_tokens(), 6);
    assert_eq!(user("aaaaa").estimate_tokens(), 6);
    assert_eq!(user("").estimate_tokens(), 4);
}

#[test]
fn trimming_keeps_a_whole_turn_with_its_replies() {
    let msgs = vec![
        user("aaaa"),
        Message::Assistant("bbbb".into()),
        user("cccc"),
        Message::Assistant("dddd".into()),
        Message::Tool("eeee".into()),
    ];
    let result = trim_to_target(msgs, 10, 25, 25, 5);
    assert_eq!(result.len(), 3);
    assert!(matches!(&result[0], Message::User(t) if t == "cccc"));
}

#[test]
fn truncate_history_keeps_messages_up_to_selected_turn() {
    let mut history = vec![
        user("first"),
        Message::Assistant("one".into()),
        user("second"),
        Message::Assistant("two".into()),
    ];
    truncate_history(&mut history, 0, false).unwrap();
    assert_eq!(history.len(), 2);
}

#[test]
fn truncate_history_after_user_keeps_only_user_message() {
    let mut history = vec![
        user("first"),
        Message::Assistant("one".into()),
        user("second"),
        Message::Assistant("two".into()),
    ];
    truncate_history(&mut history, 1, true).unwrap();
    assert_eq!(history.len(), 3);
    assert!(matches!(&history[2], Message::User(t) if t == "second"));
}

#[test]
fn truncate_history_rejects_out_of_range_turn() {
    let mut history = vec![user("first"), Message::Assistant("one".into())];
    let err = truncate_history(&mut history, 3, false).unwrap_err();
    assert!(matches!(&err, InvalidArgsError::Field { field, reason } if field == "turn_index" && reason == "out of range: 3"));
    assert_eq!(history.len(), 2);
}

#[test]
fn trim_messages_keeps_the_system_message_and_budgets_for_it() {
    let system = Message::System("s".repeat(40));
    let old_user = Message::User("u".repeat(40));
    let old_reply = Message::Assistant("a".repeat(40));
    let new_user = Message::User("n".repeat(40));
    // Every message is estimated at 40 / 4 + 4 = 14 tokens.
    let messages = vec![system.clone(), old_user.clone(), old_reply.clone(), new_user.clone()];
    let kept = trim_messages(messages.clone(), 100, 0, None);
    assert_eq!(kept.len(), 4);
    // 40 tokens of context: 14 for the system message, 26 left for 42 tokens
    // of conversation, so the oldest turn goes.
    let trimmed = trim_messages(messages.clone(), 40, 0, None);
    assert_eq!(trimmed.len(), 2);
    assert!(matches!(&trimmed[0], Message::System(t) if t.len() == 40));
    assert!(matches!(&trimmed[1], Message::User(t) if t.starts_with('n')));
    // Tool definitions take their share of the window too.
    let with_tools = trim_messages(messages.clone(), 100, 70, None);
    assert_eq!(with_tools.len(), 2);
    // Without a system message nothing is set aside for it.
    let no_system = trim_messages(vec![old_user, old_reply, new_user], 42, 0, None);
    assert_eq!(no_system.len(), 3);
}

#[test]
fn compaction_needs_room_beyond_the_recent_tokens() {
    // 2000 tokens of context, 500 reserved for the reply, 800 kept verbatim.
    assert!(compaction_possible(true, 2000, 500, 800));
    assert!(!compaction_possible(false, 2000, 500, 800));
    assert!(!compaction_possible(true, 1300, 500, 800));
    assert!(!compaction_possible(true, 400, 500, 0));
    assert!(compaction_possible(true, 1301, 500, 800));
}

#[test]
fn compaction_keeps_the_messages_from_the_first_kept_index() {
    let history = vec![user("a"), user("b"), user("c")];
    let kept = keep_after_compaction(history.clone(), 1);
    assert_eq!(kept.len(), 2);
    assert!(matches!(&kept[0], Message::User(t) if t == "b"));
    assert_eq!(keep_after_compaction(history.clone(), 3).len(), 0);
    assert_eq!(keep_after_compaction(history.clone(), 7).len(), 0);
    assert_eq!(keep_after_compaction(history, 0).len(), 3);
}

#[test]
fn kept_history_drops_the_oldest_turn_beyond_the_budget() {
    let long = |c: char| c.to_string().repeat(40);
    let local = vec![
        Message::User(long('a')),
        Message::Assistant(long('b')),
        Message::User(long('c')),
        Message::Assistant(long('d')),
    ];
    // Each message is estimated at 14 tokens: 56 in all, over a budget of 40.
    let kept = kept_history(local.clone(), 40, 0, 0, None);
    assert_eq!(kept.len(), 2);
    assert!(matches!(&kept[0], Message::User(t) if t.starts_with('c')));

    // The system prompt and the tool definitions take their share first.
    let kept = kept_history(local.clone(), 100, 30, 20, None);
    assert_eq!(kept.len(), 2);

    // Within budget nothing is dropped.
    assert_eq!(kept_history(local.clone(), 100, 0, 0, None).len(), 4);
    // A provider count within budget keeps everything too.
    assert_eq!(kept_history(local, 50, 0, 0, Some(30)).len(), 4);
}

fn session() -> SessionState {
    SessionState {
        history: vec![
            user("first"),
            Message::Assistant("a1".into()),
            user("second"),
            Message::Assistant("a2".into()),
        ],
        pending_approval: Some(takusu_agent::session::ApprovalRequest {
            id: "s-approval-1".into(),
            why: "w".into(),
            changes: Vec::new(),
            inferred_fields: Vec::new(),
            warnings: Vec::new(),
            expires_at: 0,
        }),
        last_prompt_tokens: Some(120),
        schedule_dirty: true,
    }
}

#[test]
fn truncating_a_session_clears_what_the_dropped_turns_left() {
    let mut s = session();
    truncate_session(&mut s, 0, false).unwrap();
    assert_eq!(s.history.len(), 2);
    assert!(s.pending_approval.is_none());
    assert!(s.last_prompt_tokens.is_none());
    assert!(!s.schedule_dirty);

    let mut s = session();
    let err = truncate_session(&mut s, 5, true).unwrap_err();
    assert_eq!(err.reason(), "out of range: 5");
    assert_eq!(s.history.len(), 4);
    assert!(s.pending_approval.is_some());
    assert_eq!(s.last_prompt_tokens, Some(120));
    assert!(s.schedule_dirty);
}

#[test]
fn editing_a_session_turn_resets_it_for_a_rerun() {
    let mut s = session();
    edit_session_turn(&mut s, 1, "changed".into()).unwrap();
    assert_eq!(s.history.len(), 3);
    assert!(matches!(&s.history[2], Message::User(t) if t == "changed"));
    assert!(s.pending_approval.is_none());
    assert!(!s.schedule_dirty);
    assert!(edit_session_turn(&mut s, 9, "x".into()).is_err());
}
