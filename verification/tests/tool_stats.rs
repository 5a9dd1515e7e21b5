use takusu_agent::tool_stats::{ToolStat, ToolStats, ToolStatsSnapshot};

#[test]
fn record_increments_counts() {
    let mut stats = ToolStats::new();
    stats.record("get_task", false);
    stats.record("get_task", true);
    stats.record("list_tasks", false);

    let snap = stats.snapshot();
    let get_task = snap.get("get_task").unwrap();
    assert_eq!(get_task.count, 2);
    assert_eq!(get_task.error_count, 1);
    assert!(get_task.last_used.is_some());

    let list_tasks = snap.get("list_tasks").unwrap();
    assert_eq!(list_tasks.count, 1);
    assert_eq!(list_tasks.error_count, 0);
}

#[test]
fn clear_removes_all() {
    let mut stats = ToolStats::new();
    stats.record("get_task", false);
    stats.clear();
    assert!(stats.snapshot().is_empty());
}

#[test]
fn record_at_stamps_the_given_time_and_keeps_other_tools() {
    let mut stats = ToolStats::from_snapshot(ToolStatsSnapshot {
        tools: vec![(
            "create_task".to_string(),
            ToolStat { count: 4, error_count: 2, last_used: None },
        )],
    });
    stats.record_at("get_task", true, "2026-01-01T00:00:00Z".to_string());
    let snap = stats.snapshot();
    let get_task = snap.get("get_task").unwrap();
    assert_eq!(get_task.count, 1);
    assert_eq!(get_task.error_count, 1);
    assert_eq!(get_task.last_used.as_deref(), Some("2026-01-01T00:00:00Z"));
    let create_task = snap.get("create_task").unwrap();
    assert_eq!(create_task.count, 4);
    assert_eq!(create_task.error_count, 2);
    assert!(snap.get("unknown").is_none());
}
