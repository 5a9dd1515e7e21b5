use takusu_agent::labels::{ChangeOperation, TargetKind};
use takusu_agent::presentation::{
    gap_capture_check_in, strfmt, Action, ActionGroup, ActionKind, CheckInCard, NonEmptyVec, Presentation,
    ProgressSummary, SettlementPrompt, TaskAuthority, TaskCard, WorkState, WorkTransition, WorkTransitionKind,
};
use takusu_agent::session::ApprovalRequest;
use takusu_agent::tool::{ChangeReceipt, InferredField, ProposedChange, ReceiptTarget, Target, ToolOutput};

fn action(label: &str) -> Action {
    Action { id: format!("id-{label}"), label: label.to_string(), kind: ActionKind::Immediate, capability: None }
}

fn check_in_card() -> CheckInCard {
    CheckInCard::new(
        "続けますか?",
        ActionGroup::new("行動", vec![action("着手")]).unwrap(),
        ActionGroup::new("ズラす", vec![action("10分後")]).unwrap(),
    )
    .unwrap()
}

fn task_output(operation: ChangeOperation, content: &str) -> ToolOutput {
    ToolOutput {
        content: content.to_string(),
        why: Some("テスト".into()),
        proposed_changes: vec![ProposedChange {
            operation,
            target: Target::new(TargetKind::Task, "#7"),
            description: "「レポート」に変更".into(),
            before: Some(r##"{"title":"レポート","reference":"#7","status":"scheduled"}"##.into()),
            after: Some(r##"{"title":"レポート","reference":"#7","status":"in_progress"}"##.into()),
            arguments: None,
            observed_updated_at: None,
            proposal_id: None,
        }],
        ..Default::default()
    }
}

fn request(why: &str, changes: Vec<ProposedChange>, inferred_fields: Vec<InferredField>) -> ApprovalRequest {
    ApprovalRequest { id: "approval".into(), why: why.into(), changes, inferred_fields, warnings: vec![], expires_at: 0 }
}

fn create(description: &str, after: &str) -> ProposedChange {
    ProposedChange {
        operation: ChangeOperation::Create,
        target: Target::new(TargetKind::Task, "#next"),
        description: description.into(),
        after: Some(after.into()),
        ..Default::default()
    }
}

#[test]
fn check_in_requires_both_action_groups() {
    let act = ActionGroup::new("行動", vec![action("着手")]).unwrap();
    let shift = ActionGroup::new("ズラす", vec![action("10分後")]).unwrap();
    assert!(CheckInCard::new("続けますか?", act.clone(), shift.clone()).is_ok());

    let empty = ActionGroup::new("行動", vec![]);
    assert!(empty.is_err());
}

#[test]
fn gap_capture_check_in_offers_the_four_outcomes() {
    let card = gap_capture_check_in("バイトの引き継ぎ資料つくってる");
    assert!(card.question.contains("今回だけ"));
    assert!(card.question.contains("毎週"));
    assert!(card.question.contains("自由時間"));
    assert!(card.question.contains("ルーティン"));
    assert!(card.act.actions.iter().any(|a| a.id == "one_off" && a.label == "今回だけ"));
    assert!(card.act.actions.iter().any(|a| a.id == "recurring" && a.label == "毎週"));
    assert!(card.shift.actions.iter().any(|a| a.id == "free_time" && a.label == "自由時間"));
    assert!(card.shift.actions.iter().any(|a| a.id == "routine" && a.label == "ルーティン"));
}

#[test]
fn non_empty_vec_rejects_empty() {
    assert!(NonEmptyVec::<i32>::new(vec![]).is_err());
    let v = NonEmptyVec::new(vec![1, 2, 3]).unwrap();
    assert_eq!(v.len(), 3);
    assert!(!v.is_empty());
    assert_eq!(v.as_slice(), &[1, 2, 3]);
}

#[test]
fn progress_tools_map_to_work_transition() {
    for (tool, kind, op) in [
        ("task_start", WorkTransitionKind::Start, ChangeOperation::Start),
        ("task_pause", WorkTransitionKind::Pause, ChangeOperation::Pause),
        ("task_progress", WorkTransitionKind::Progress, ChangeOperation::Progress),
        ("task_complete", WorkTransitionKind::Complete, ChangeOperation::Complete),
        ("task_split", WorkTransitionKind::Split, ChangeOperation::Split),
    ] {
        let out = task_output(op, "{}");
        let p = Presentation::from_tool_output(tool, &out).expect("maps to a presentation");
        assert!(
            matches!(&p, Presentation::WorkTransition(t) if t.kind == kind && t.title == "レポート"),
            "tool {tool} produced {p:?}"
        );
    }
}

#[test]
fn unknown_tool_maps_to_none() {
    let out = ToolOutput::default();
    assert!(Presentation::from_tool_output("memory_search", &out).is_none());
}

#[test]
fn schedule_read_maps_to_schedule_summary() {
    let out = task_output(
        ChangeOperation::Complete,
        r##"{"id":"s","entries":[{"reference":"#1","title":"朝会","start_at":"09:00","end_at":"09:30"},{"reference":"#2","title":"出社","start_at":"10:00","end_at":"11:00"}]}"##,
    );
    let p = Presentation::from_tool_output("get_schedule", &out).expect("maps");
    let Presentation::ScheduleSummary(s) = p else {
        panic!("expected ScheduleSummary");
    };
    assert_eq!(s.entries.len(), 2);
    assert_eq!(s.next.as_ref().unwrap().title, "朝会");
}

#[test]
fn task_read_counts_progress() {
    let out = task_output(
        ChangeOperation::Complete,
        r#"[{"title":"a","status":"completed"},{"title":"b","status":"in_progress"},{"title":"c","status":"scheduled"}]"#,
    );
    let p = Presentation::from_tool_output("list_tasks", &out).expect("maps");
    let Presentation::ProgressSummary(s) = p else {
        panic!("expected ProgressSummary");
    };
    assert_eq!((s.done, s.in_progress, s.scheduled), (1, 1, 1));
}

#[test]
fn get_task_read_counts_tasks_object() {
    let out = task_output(ChangeOperation::Complete, r#"{"tasks":[{"status":"completed"},{"status":"scheduled"}]}"#);
    let p = Presentation::from_tool_output("get_task", &out).expect("maps");
    let Presentation::ProgressSummary(s) = p else {
        panic!("expected ProgressSummary");
    };
    assert_eq!((s.done, s.in_progress, s.scheduled), (1, 0, 1));
}

#[test]
fn correct_asr_maps_to_clarification_from_answers() {
    let out = ToolOutput { content: r#"[{"text":"出社"}]"#.into(), ..Default::default() };
    let p = Presentation::from_tool_output("correct_asr", &out).expect("maps");
    assert!(
        matches!(&p, Presentation::Clarification(q) if q.message == "認識を修正しました：出社"),
        "unexpected: {p:?}"
    );
}

#[test]
fn correct_asr_with_multiple_answers_joins_texts() {
    let out = ToolOutput { content: r#"[{"text":"出社"},{"text":"会議"}]"#.into(), ..Default::default() };
    let p = Presentation::from_tool_output("correct_asr", &out).expect("maps");
    assert!(
        matches!(&p, Presentation::Clarification(q) if q.message == "認識を修正しました：出社、会議"),
        "unexpected: {p:?}"
    );
}

#[test]
fn correct_asr_with_non_answer_content_maps_to_none() {
    let out = ToolOutput { content: "どちらの会話ですか？".into(), ..Default::default() };
    assert!(Presentation::from_tool_output("correct_asr", &out).is_none());
}

#[test]
fn progress_tool_focused_clarification_maps_to_clarification() {
    let out = ToolOutput {
        content: r#"{"focused_clarification":"「着手」の対象となるタスクが複数あります。どれですか？"}"#.into(),
        ..Default::default()
    };
    let p = Presentation::from_tool_output("task_start", &out).expect("maps");
    assert!(
        matches!(&p, Presentation::Clarification(q) if q.message.contains("どれですか")),
        "unexpected: {p:?}"
    );
}

#[test]
fn progress_summary_template_is_deterministic() {
    let summary = ProgressSummary { done: 1, in_progress: 2, scheduled: 3 };
    let a = Presentation::ProgressSummary(summary.clone()).voice_template();
    let b = Presentation::ProgressSummary(summary).voice_template();
    assert_eq!(a, b);
    assert_eq!(a, "現在の状況です。完了 1 件、作業中 2 件、予定 3 件です");
}

#[test]
fn work_transition_template_renders_start() {
    let p = Presentation::WorkTransition(WorkTransition {
        kind: WorkTransitionKind::Start,
        reference: "#7".into(),
        title: "レポート".into(),
        detail: String::new(),
    });
    assert_eq!(p.voice_template(), "「レポート」の作業を開始しました");
}

#[test]
fn check_in_template_includes_question() {
    let p = Presentation::CheckIn(check_in_card());
    assert!(p.voice_template().contains("続けますか?"));
}

#[test]
fn gap_capture_check_in_voice_template_uses_question_only() {
    let card = gap_capture_check_in("バイトの引き継ぎ資料");
    let template = Presentation::CheckIn(card).voice_template();
    assert!(template.contains("今回だけ"));
    assert!(!template.contains("行動するか"));
    assert!(!template.contains("ずらすか"));
}

#[test]
fn gap_capture_check_in_tool_output_maps_to_presentation() {
    let output = ToolOutput { content: r#"{"activity":"バイトの引き継ぎ資料つくってる"}"#.into(), ..Default::default() };
    let presentation = Presentation::from_tool_output("gap_capture_check_in", &output).expect("maps");
    assert!(matches!(presentation, Presentation::CheckIn(card) if card.question.contains("毎週")));
}

#[test]
fn change_proposal_template_uses_approval_why() {
    let p = Presentation::ChangeProposal(request("スケジュールを再生成します", vec![], vec![]));
    assert_eq!(p.voice_template(), "スケジュールを再生成します。よろしいですか");
}

#[test]
fn current_task_template_marks_candidate() {
    let card = TaskCard {
        title: "レポート".into(),
        reference: "#7".into(),
        start_at: Some("09:00".into()),
        end_at: Some("10:00".into()),
        work_state: WorkState::NotStarted,
        authority: TaskAuthority::Candidate,
        next_task: None,
        settlement: None,
    };
    assert_eq!(Presentation::CurrentTask(card).voice_template(), "今やるのは「レポート」（候補） 未着手です。09:00～10:00");
}

#[test]
fn current_task_with_settlement_prompt_leads_with_settlement() {
    let card = TaskCard {
        title: "レポート".into(),
        reference: "#7".into(),
        start_at: Some("09:00".into()),
        end_at: Some("10:00".into()),
        work_state: WorkState::NotStarted,
        authority: TaskAuthority::Candidate,
        next_task: None,
        settlement: Some(SettlementPrompt {
            question: "09:00〜09:30 の未確定時間を整理してください".into(),
            act: ActionGroup::new("行動", vec![action("この時間で作業")]).unwrap(),
            shift: ActionGroup::new("ズラす", vec![action("無視")]).unwrap(),
        }),
    };
    let template = Presentation::CurrentTask(card).voice_template();
    assert!(template.contains("未確定時間"));
    assert!(template.contains("どうしますか"));
}

#[test]
fn capture_readback_includes_estimate_quantity_deadline() {
    let r = request(
        "過去の演習実績から推定",
        vec![create(
            "「演習30題追加」を作成",
            r#"{"title":"演習30題追加","avg_minutes":45,"sigma_minutes":10,"quantity_total":30,"quantity_unit":"題","end_at":"2026-08-28T23:59","start_at":"2026-08-26T14:00"}"#,
        )],
        vec![],
    );
    let template = Presentation::ChangeProposal(r).voice_template();
    assert!(template.contains("演習30題追加"));
    assert!(template.contains("見積もり45分"));
    assert!(template.contains("数量30題"));
    assert!(template.contains("期限"));
    assert!(template.contains("よろしいですか"));
}

#[test]
fn capture_readback_includes_knock_on_schedule_impact() {
    let r = request(
        "",
        vec![
            create("「歯医者」を作成", r#"{"title":"歯医者","avg_minutes":60,"end_at":"2026-08-26T13:40"}"#),
            ProposedChange {
                operation: ChangeOperation::Generate,
                target: Target::new(TargetKind::Schedule, ""),
                description: "スケジュールを生成".into(),
                after: Some(
                    r##"{"_preview":{"entries":[{"reference":"#next","title":"歯医者","start_at":"12:40","end_at":"13:40"},{"reference":"#3","title":"昼食","start_at":"12:00","end_at":"12:30"}],"displaced_task_ids":["#3"]}}"##
                        .into(),
                ),
                ..Default::default()
            },
        ],
        vec![],
    );
    let template = Presentation::ChangeProposal(r).voice_template();
    assert!(template.contains("歯医者"));
    assert!(template.contains("スケジュールを生成"));
    assert!(template.contains("昼食"));
    assert!(template.contains("ずれます"));
    assert!(template.contains("よろしいですか"));
}

#[test]
fn capture_readback_formats_deadline_for_voice() {
    let r = request("", vec![create("「演習」を作成", r#"{"title":"演習","avg_minutes":30,"end_at":"2026-08-28T23:59"}"#)], vec![]);
    let template = Presentation::ChangeProposal(r).voice_template();
    assert!(template.contains("2026年08月28日 23時59分"), "deadline should be voice-formatted: {template}");
    assert!(!template.contains("T23:59"), "raw ISO string should not appear: {template}");
}

#[test]
fn capture_readback_omits_zero_quantity() {
    let r = request(
        "",
        vec![create("「雑務」を作成", r#"{"title":"雑務","avg_minutes":15,"quantity_total":0,"quantity_unit":"題"}"#)],
        vec![],
    );
    let template = Presentation::ChangeProposal(r).voice_template();
    assert!(!template.contains("数量"), "zero quantity should be omitted: {template}");
}

#[test]
fn capture_readback_falls_back_to_description_when_after_is_null() {
    let r = request("", vec![create("「メール確認」を作成", "null")], vec![]);
    let template = Presentation::ChangeProposal(r).voice_template();
    assert!(template.contains("メール確認"), "description should be read when after is null: {template}");
    assert!(template.contains("よろしいですか"));
}

#[test]
fn reschedule_readback_says_reschedule_not_generate() {
    let r = request(
        "",
        vec![ProposedChange {
            operation: ChangeOperation::Reschedule,
            target: Target::new(TargetKind::Schedule, ""),
            description: "スケジュールを再調整".into(),
            after: Some(r#"{"_preview":{"entries":[{"title":"会議","start_at":"14:00","end_at":"15:00"}],"displaced_task_ids":[]}}"#.into()),
            ..Default::default()
        }],
        vec![],
    );
    let template = Presentation::ChangeProposal(r).voice_template();
    assert!(template.contains("スケジュールを再調整"), "reschedule should say 再調整: {template}");
    assert!(!template.contains("スケジュールを生成"), "reschedule should not say 生成: {template}");
}

#[test]
fn capture_readback_ignores_unknown_displaced_tasks() {
    let r = request(
        "",
        vec![
            create("「歯医者」を作成", r#"{"title":"歯医者","avg_minutes":60,"end_at":"2026-08-26T13:40"}"#),
            ProposedChange {
                operation: ChangeOperation::Generate,
                target: Target::new(TargetKind::Schedule, ""),
                description: "スケジュールを生成".into(),
                after: Some(
                    r##"{"_preview":{"entries":[{"reference":"#next","title":"歯医者"},{"reference":"#3","title":"昼食"}],"displaced_task_ids":["unknown","#3","unknown task"]}}"##
                        .into(),
                ),
                ..Default::default()
            },
        ],
        vec![],
    );
    let template = Presentation::ChangeProposal(r).voice_template();
    assert!(template.contains("昼食"), "known displaced task should be read: {template}");
    assert!(!template.contains("unknown"), "unknown displaced task should be omitted: {template}");
}

#[test]
fn capture_readback_includes_inferred_fields() {
    let r = request(
        "過去の演習実績から推定",
        vec![create(
            "「演習30題追加」を作成",
            r#"{"title":"演習30題追加","avg_minutes":45,"quantity_total":30,"quantity_unit":"題","end_at":"2026-08-28T23:59"}"#,
        )],
        vec![
            InferredField { field: "end_at".into(), value: r#""2026-08-28T23:59""#.into(), reason: "「金曜まで」との発話から推定".into() },
            InferredField { field: "quantity_total".into(), value: "30".into(), reason: "「30題追加」との発話から推定".into() },
        ],
    );
    let template = Presentation::ChangeProposal(r).voice_template();
    assert!(template.contains("演習30題追加"));
    assert!(template.contains("期限"));
    assert!(template.contains("期限は「金曜まで」との発話から推定"), "inferred deadline reason should be read: {template}");
    assert!(template.contains("数量は「30題追加」との発話から推定"), "inferred quantity reason should be read: {template}");
}

#[test]
fn readback_without_anything_to_say_proposes_a_change() {
    let p = Presentation::ChangeProposal(request("", vec![], vec![]));
    assert_eq!(p.voice_template(), "変更を提案しました。よろしいですか");
    let default_why = Presentation::ChangeProposal(request("ユーザーの承認が必要な変更です", vec![], vec![]));
    assert_eq!(default_why.voice_template(), "ユーザーの承認が必要な変更です。よろしいですか");
}

#[test]
fn strfmt_replaces_only_the_first_placeholder() {
    assert_eq!(strfmt("「{}」と{}", "a"), "「a」と{}");
    assert_eq!(strfmt("no placeholder", "a"), "no placeholder");
}

#[test]
fn receipts_report_the_first_task_transition() {
    let receipts = vec![
        ChangeReceipt {
            operation: ChangeOperation::Create,
            target: ReceiptTarget { target_type: TargetKind::Task, target_id: "t0".into() },
            before: None,
            after: Some(r##"{"title":"作成","reference":"#1"}"##.into()),
            target_revision: None,
            inferred_fields: None,
        },
        ChangeReceipt {
            operation: ChangeOperation::Progress,
            target: ReceiptTarget { target_type: TargetKind::Task, target_id: "t1".into() },
            before: None,
            after: Some(r##"{"title":"演習","reference":"#2","quantity_done":3,"quantity_total":10}"##.into()),
            target_revision: None,
            inferred_fields: None,
        },
    ];
    let p = Presentation::from_change_receipts(&receipts).expect("a transition");
    match p {
        Presentation::WorkTransition(t) => {
            assert_eq!(t.kind, WorkTransitionKind::Progress);
            assert_eq!(t.title, "演習");
            assert_eq!(t.reference, "#2");
            assert_eq!(t.detail, "3 / 10");
        }
        other => panic!("unexpected {other:?}"),
    }
    assert!(Presentation::from_change_receipts(&receipts[..1]).is_none());
}
