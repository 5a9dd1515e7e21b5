use takusu_agent::tool::{ToolError, ToolExposure};
use takusu_agent::tool_registry::{ToolEntry, ToolRegistry};

const DUMMY_SCHEMA: &str = r#"{"properties":{"message":{"type":"string"}},"required":["message"],"type":"object"}"#;
const EMPTY_SCHEMA: &str = r#"{"properties":{},"type":"object"}"#;

fn dummy() -> ToolEntry {
    ToolEntry {
        name: "dummy".into(),
        description: "A dummy tool for testing".into(),
        exposure: ToolExposure::Direct,
        parameters: DUMMY_SCHEMA.into(),
    }
}

fn test_tool(name: &str, exposure: ToolExposure) -> ToolEntry {
    ToolEntry {
        name: name.into(),
        description: "a test tool".into(),
        exposure,
        parameters: EMPTY_SCHEMA.into(),
    }
}

#[test]
fn definitions_estimate_tokens_is_non_zero_and_consistent() {
    let mut registry = ToolRegistry::new();
    registry.register(dummy());

    let first = registry.definitions_estimate_tokens();
    assert!(first > 0);

    let defs = registry.definitions();
    assert_eq!(defs.len(), 1);

    let second = registry.definitions_estimate_tokens();
    assert_eq!(second, first);
}

#[test]
fn empty_registry_has_zero_tool_tokens() {
    let registry = ToolRegistry::new();
    assert_eq!(registry.definitions_estimate_tokens(), 0);
    assert!(registry.definitions().is_empty());
}

#[test]
fn direct_tool_names_only_includes_direct() {
    let mut registry = ToolRegistry::new();
    registry.register(test_tool("direct_tool", ToolExposure::Direct));
    registry.register(test_tool("deferred_tool", ToolExposure::Deferred));
    registry.register(test_tool("hidden_tool", ToolExposure::Hidden));

    let names = registry.direct_tool_names();
    assert!(names.iter().any(|n| n == "direct_tool"));
    assert!(!names.iter().any(|n| n == "deferred_tool"));
    assert!(!names.iter().any(|n| n == "hidden_tool"));
}

#[test]
fn definitions_are_sorted_by_name() {
    let mut registry = ToolRegistry::new();
    registry.register(test_tool("zzz_tool", ToolExposure::Direct));
    registry.register(test_tool("aaa_tool", ToolExposure::Direct));
    registry.register(test_tool("mmm_tool", ToolExposure::Deferred));

    let defs = registry.definitions();
    let names: Vec<&str> = defs.iter().map(|d| d.function.name.as_str()).collect();
    assert_eq!(names, vec!["aaa_tool", "mmm_tool", "zzz_tool"]);
}

#[test]
fn definitions_for_filters_active_names_and_hides_hidden() {
    let mut registry = ToolRegistry::new();
    registry.register(test_tool("direct_tool", ToolExposure::Direct));
    registry.register(test_tool("deferred_tool", ToolExposure::Deferred));
    registry.register(test_tool("hidden_tool", ToolExposure::Hidden));

    let active = vec!["deferred_tool".to_string(), "direct_tool".to_string(), "hidden_tool".to_string()];
    let defs = registry.definitions_for(&active);
    let names: Vec<&str> = defs.iter().map(|d| d.function.name.as_str()).collect();
    assert_eq!(names, vec!["deferred_tool", "direct_tool"]);
}

#[test]
fn search_returns_deferred_tools_matching_keywords() {
    let mut registry = ToolRegistry::new();
    registry.register(test_tool("similar_tasks", ToolExposure::Deferred));
    registry.register(test_tool("memory_search", ToolExposure::Deferred));
    registry.register(test_tool("direct_tool", ToolExposure::Direct));

    let similar = registry.search("similar", None);
    assert_eq!(similar.len(), 1);
    assert_eq!(similar[0].name, "similar_tasks");

    let memory = registry.search("memory", None);
    assert_eq!(memory.len(), 1);
    assert_eq!(memory[0].name, "memory_search");

    let all = registry.search("tool", None);
    assert_eq!(all.len(), 2);

    let empty = registry.search("xyz", None);
    assert!(empty.is_empty());
}

#[test]
fn search_ranks_by_score_then_name_and_applies_the_limit() {
    let mut registry = ToolRegistry::new();
    for i in 0..10 {
        registry.register(test_tool(&format!("tool_{i}"), ToolExposure::Deferred));
    }
    registry.register(ToolEntry {
        name: "schedule_lookup".into(),
        description: "Look up the tool schedule".into(),
        exposure: ToolExposure::Deferred,
        parameters: r#"{"properties":{"Tool":{"type":"string"}},"type":"object"}"#.into(),
    });
    let five = registry.search("TOOL", Some(5));
    let names: Vec<&str> = five.iter().map(|e| e.name.as_str()).collect();
    assert_eq!(names, vec!["tool_0", "tool_1", "tool_2", "tool_3", "tool_4"]);
    let all = registry.search("  tool  ", None);
    assert_eq!(all.len(), 11);
    assert_eq!(all[10].name, "schedule_lookup");
    assert_eq!(all[10].param_names, vec!["tool".to_string()]);
    assert_eq!(all[10].description_lower, "look up the tool schedule");
    assert!(registry.search("   ", None).is_empty());
    assert!(registry.search("tool zebra", None).is_empty());
}

#[test]
fn search_index_lists_deferred_tools_by_name_with_their_definitions() {
    let mut registry = ToolRegistry::new();
    registry.register(test_tool("b_tool", ToolExposure::Deferred));
    registry.register(dummy());
    registry.register(test_tool("a_tool", ToolExposure::Deferred));
    let index = registry.build_search_index();
    let names: Vec<&str> = index.iter().map(|e| e.name.as_str()).collect();
    assert_eq!(names, vec!["a_tool", "b_tool"]);
    assert_eq!(index[0].definition.function.parameters, EMPTY_SCHEMA);
    assert_eq!(index[0].definition.type_, "function");
}

#[test]
fn register_replaces_a_tool_of_the_same_name() {
    let mut registry = ToolRegistry::new();
    registry.register(test_tool("tool", ToolExposure::Direct));
    registry.register(test_tool("tool", ToolExposure::Hidden));
    assert_eq!(registry.tool_names(), vec!["tool".to_string()]);
    assert!(registry.exposed_tool_names().is_empty());
    assert!(registry.definition_for_name("tool").is_none());
    assert_eq!(registry.schemas(), vec![EMPTY_SCHEMA.to_string()]);
}

#[test]
fn calls_of_unknown_and_hidden_tools_are_invalid_arguments() {
    let mut registry = ToolRegistry::new();
    registry.register(test_tool("hidden_tool", ToolExposure::Hidden));
    registry.register(test_tool("open_tool", ToolExposure::Deferred));
    match registry.check_call("missing") {
        Err(ToolError::InvalidArgs(e)) => {
            assert_eq!(e.field(), Some("tool"));
            assert_eq!(e.reason(), "unknown: missing");
        }
        other => panic!("unexpected {other:?}"),
    }
    match registry.check_call("hidden_tool") {
        Err(ToolError::InvalidArgs(e)) => assert_eq!(e.reason(), "hidden_tool is not available"),
        other => panic!("unexpected {other:?}"),
    }
    assert!(registry.check_call("open_tool").is_ok());
}

#[test]
fn definition_text_estimate_counts_a_quarter_of_the_characters() {
    let mut registry = ToolRegistry::new();
    registry.register(test_tool("t", ToolExposure::Direct));
    let text = format!(
        "{{\"function\":{{\"description\":\"a test tool\",\"name\":\"t\",\"parameters\":{EMPTY_SCHEMA}}},\"type\":\"function\"}}"
    );
    let expected = (text.chars().count() + 3) / 4;
    assert_eq!(registry.definitions_estimate_tokens(), expected);
    assert_eq!(registry.definitions_estimate_tokens_for(&["t".to_string(), "none".to_string()]), expected);
}
