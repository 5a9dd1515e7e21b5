use takusu_agent::labels::TargetKind;
use takusu_agent::tool::{
    deserialize_trimmed_optional, deserialize_trimmed_required, inferred_field_schema, inferred_fields_schema,
    InvalidArgsError, OpenAITool, OpenAIToolFunction, ProposalContent, Target, ToolError,
};
use takusu_agent::tool_search::{score_entry, score_word, token_score, SearchEntry};

#[test]
fn invalid_args_error_display_includes_field_and_reason() {
    let with_field = InvalidArgsError::new("message", "missing");
    assert_eq!(with_field.to_string(), "field 'message': missing");

    let no_field = InvalidArgsError::no_field("bad args");
    assert_eq!(no_field.to_string(), "bad args");
}

#[test]
fn tool_error_to_llm_content_is_compact_and_includes_hint() {
    let err = ToolError::InvalidArgs(InvalidArgsError::new("message", "missing"));
    assert_eq!(
        err.to_llm_content("echo"),
        "echo: invalid arguments: field 'message': missing [check arguments]"
    );

    let not_found = ToolError::NotFound("task #42".into());
    assert!(not_found.to_llm_content("get_task").contains("verify id"));

    let conflict = ToolError::Conflict("task #42".into());
    assert!(conflict.to_llm_content("update_task").contains("retry with latest"));

    let cancelled = ToolError::Cancelled;
    assert!(cancelled.to_llm_content("create_task").contains("ask user"));
}

#[test]
fn target_round_trips_display_id_with_spaces() {
    let target = Target::new(TargetKind::Task, "some long title");
    let s = target.to_string();
    assert_eq!(s, "task some long title");
    let parsed: Target = Target::from_str(&s).unwrap();
    assert_eq!(parsed, target);
}

#[test]
fn only_other_tool_errors_are_unrecoverable() {
    assert!(ToolError::InvalidArgs(InvalidArgsError::no_field("x")).is_recoverable());
    assert!(ToolError::Cancelled.is_recoverable());
    assert!(!ToolError::Other("boom".into()).is_recoverable());
}

#[test]
fn token_score_matches_whole_tokens_and_prefixes() {
    assert_eq!(token_score("start_task", "task", 100, 50), 100);
    assert_eq!(token_score("start_task", "sta", 100, 50), 50);
    assert_eq!(token_score("start_task", "art", 100, 50), 0);
    assert_eq!(token_score("", "task", 100, 50), 0);
    assert_eq!(token_score("task", "", 100, 50), 0);
}

#[test]
fn search_scores_prefer_names_and_require_every_word() {
    let entry = SearchEntry {
        name: "memory_search".into(),
        name_lower: "memory_search".into(),
        description_lower: "search saved notes".into(),
        param_names: vec!["query".into()],
        definition: OpenAITool {
            function: OpenAIToolFunction {
                description: "Search saved notes".into(),
                name: "memory_search".into(),
                parameters: r#"{"type":"object","properties":{"query":{"type":"string"}}}"#.into(),
            },
            type_: "function",
        },
    };
    assert_eq!(score_word(&entry, "memory_search"), 100);
    assert_eq!(score_word(&entry, "notes"), 40);
    assert_eq!(score_word(&entry, "que"), 15);
    assert_eq!(score_entry(&entry, &["memory", "notes"]), Some(140));
    assert_eq!(score_entry(&entry, &["memory", "calendar"]), None);
}

#[test]
fn proposal_content_is_written_as_json() {
    let content = ProposalContent::new(&Target::new(TargetKind::Task, "#12"));
    let text = content.to_json_string();
    let parsed: serde_json::Value = serde_json::from_str(&text).unwrap();
    assert_eq!(parsed["approval_required"], serde_json::Value::Bool(true));
    assert_eq!(parsed["target"], serde_json::Value::String("task #12".into()));
    assert_eq!(text, r##"{"approval_required":true,"target":"task #12"}"##);
}

#[test]
fn inferred_fields_schema_wraps_the_field_schema() {
    let text = inferred_fields_schema("Fields the model \"guessed\"");
    let parsed: serde_json::Value = serde_json::from_str(&text).unwrap();
    assert_eq!(parsed["type"], serde_json::Value::String("array".into()));
    assert_eq!(parsed["description"], serde_json::Value::String("Fields the model \"guessed\"".into()));
    let item: serde_json::Value = serde_json::from_str(&inferred_field_schema()).unwrap();
    assert_eq!(parsed["items"], item);
    assert_eq!(item["additionalProperties"], serde_json::Value::Bool(false));
    assert_eq!(item["required"].as_array().unwrap().len(), 3);
    assert_eq!(serde_json::to_string(&item).unwrap(), inferred_field_schema());
}

#[test]
fn trimmed_string_fields_drop_surrounding_whitespace() {
    assert_eq!(deserialize_trimmed_optional(Some("  note \n".into())), Some("note".to_string()));
    assert_eq!(deserialize_trimmed_optional(Some(" \t ".into())), None);
    assert_eq!(deserialize_trimmed_optional(None), None);
    assert_eq!(deserialize_trimmed_required(" 　title　 ".into()), Ok("title".to_string()));
    assert_eq!(deserialize_trimmed_required("   ".into()), Err("missing or empty"));
}
