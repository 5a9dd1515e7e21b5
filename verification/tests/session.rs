use takusu_agent::labels::{ChangeOperation, TargetKind};
use takusu_agent::session::{
    approval_decisions, build_approval_resolution_message, check_pending, ApprovalRequest,
};
use takusu_agent::tool::{InvalidArgsError, ProposalDecision, ProposedChange, Target, ToolError};

fn change(description: &str, proposal_id: &str) -> ProposedChange {
    ProposedChange {
        operation: ChangeOperation::Create,
        target: Target::new(TargetKind::Task, "#1"),
        description: description.into(),
        proposal_id: Some(proposal_id.into()),
        ..Default::default()
    }
}

fn decision(id: &str, approve: bool) -> ProposalDecision {
    ProposalDecision { proposal_id: id.into(), approve }
}

fn pending(id: &str, expires_at: i64) -> Option<ApprovalRequest> {
    Some(ApprovalRequest {
        id: id.into(),
        why: "why".into(),
        changes: vec![change("A", "p1")],
        inferred_fields: Vec::new(),
        warnings: Vec::new(),
        expires_at,
    })
}

fn proposals_error(reason: &str) -> InvalidArgsError {
    InvalidArgsError::new("proposals", reason)
}

#[test]
fn blanket_decision_applies_to_every_change() {
    let changes = vec![change("A", "p1"), change("B", "p2")];
    assert_eq!(approval_decisions(&changes, true, None).unwrap(), vec![true, true]);
    assert_eq!(approval_decisions(&changes, false, None).unwrap(), vec![false, false]);
}

#[test]
fn per_proposal_decisions_pick_each_change() {
    let changes = vec![change("A", "p1"), change("B", "p2"), change("C", "p3")];
    let ds = vec![decision("p2", false), decision("p1", true), decision("p3", false)];
    assert_eq!(approval_decisions(&changes, false, Some(&ds)).unwrap(), vec![true, false, false]);
}

#[test]
fn missing_unknown_and_duplicate_decisions_are_invalid_proposals() {
    let two = vec![change("A", "p1"), change("B", "p2")];
    let missing = approval_decisions(&two, false, Some(&[decision("p1", true)])).unwrap_err();
    assert_eq!(missing.field(), proposals_error("x").field());
    assert_eq!(missing.reason(), "missing decision for a proposal");

    let one = vec![change("A", "p1")];
    let unknown = approval_decisions(&one, false, Some(&[decision("p1", true), decision("p2", true)])).unwrap_err();
    assert_eq!(unknown.reason(), "unknown proposal_id in decisions");

    let duplicate = approval_decisions(&one, false, Some(&[decision("p1", true), decision("p1", false)])).unwrap_err();
    assert_eq!(duplicate.reason(), "duplicate decision for a proposal");
    assert_eq!(duplicate.field(), Some("proposals"));
}

#[test]
fn resolution_message_lists_approved_and_denied_changes() {
    let approved = vec![change("Aを作成", "p1")];
    let denied = vec![change("Bを削除", "p2"), change("Cを変更", "p3")];
    assert_eq!(
        build_approval_resolution_message(&approved, &denied, false),
        "ユーザーは以下の提案を一部承認し、一部を拒否しました。\n承認:\n- Aを作成\n拒否:\n- Bを削除\n- Cを変更"
    );
    assert_eq!(
        build_approval_resolution_message(&approved, &[], true),
        "以下の変更は自動承認され、適用されました。\n- Aを作成"
    );
    assert_eq!(
        build_approval_resolution_message(&approved, &[], false),
        "ユーザーは以下の提案を承認し、変更を適用しました。\n- Aを作成"
    );
    assert_eq!(
        build_approval_resolution_message(&[], &denied, false),
        "ユーザーは以下の提案を拒否しました。\n- Bを削除\n- Cを変更"
    );
    assert_eq!(build_approval_resolution_message(&[], &[], false), "提案はすべて拒否されました。");
}

#[test]
fn pending_approval_must_exist_match_and_be_unexpired() {
    let missing = check_pending(&None, "a1", 100).unwrap_err();
    assert!(matches!(missing, ToolError::InvalidArgs(ref e) if e.reason() == "not found"));
    let other = check_pending(&pending("a1", 200), "a2", 100).unwrap_err();
    assert!(matches!(other, ToolError::InvalidArgs(ref e) if e.reason() == "mismatch" && e.field() == Some("approval_id")));
    assert!(matches!(check_pending(&pending("a1", 200), "a1", 200), Err(ToolError::Cancelled)));
    assert!(check_pending(&pending("a1", 200), "a1", 199).is_ok());
}
