use takusu_agent::notification::{in_notification_window, start_label, upcoming_entry, CivilDate};
use takusu_agent::capability::{mint_capability, CapabilityRequest, InputPath};
use takusu_agent::notification::{
    build_check_in, select_upcoming, start_time_notifications, StartTimeNotificationRequest, UpcomingEntry,
};
use takusu_agent::presentation::{ActionKind, Presentation};

fn entry(task_id: &str, start_at: i64) -> UpcomingEntry {
    UpcomingEntry {
        task_id: task_id.into(),
        title: format!("title-{task_id}"),
        start_at,
        start_label: "10:00".into(),
        in_window: true,
        scheduled: true,
    }
}

#[test]
fn build_check_in_has_both_groups() {
    let start = mint_capability(
        CapabilityRequest {
            task_id: "task-1".into(),
            action: "start".into(),
            device_id: "mobile".into(),
            ..Default::default()
        },
        InputPath::NotificationCapability,
    );
    let snooze = mint_capability(
        CapabilityRequest {
            task_id: "task-1".into(),
            action: "delay".into(),
            device_id: "mobile".into(),
            snooze_minutes: Some(10),
            ..Default::default()
        },
        InputPath::NotificationCapability,
    );
    let card = build_check_in("「レポート」の開始時刻です", &start, &snooze, "task-1", "レポート");
    assert_eq!(card.act.actions.as_slice()[0].label, "着手");
    assert_eq!(card.shift.actions.as_slice()[0].label, "10分後");
    assert_eq!(card.shift.actions.as_slice()[1].label, "組み直す");
    assert!(card.act.actions.as_slice()[0].capability.is_some());
    assert!(card.shift.actions.as_slice()[1].capability.is_none());
    assert_eq!(card.question, "「レポート」の開始時刻です (レポート)");
    assert_eq!(card.act.title, "行動");
    assert_eq!(card.shift.title, "ズラす");
    assert_eq!(card.shift.actions.as_slice()[1].kind, ActionKind::Panel);
    assert_eq!(card.shift.actions.as_slice()[1].id, "task-1");
}

#[test]
fn start_capability_expires_after_scheduled_time() {
    let scheduled = 1_000_000_000;
    let cap = mint_capability(
        CapabilityRequest {
            task_id: "task-1".into(),
            action: "start".into(),
            device_id: "mobile".into(),
            scheduled_at: Some(scheduled),
            ..Default::default()
        },
        InputPath::NotificationCapability,
    );
    assert!(cap.expires_at > scheduled);
    assert_eq!(cap.input_path, InputPath::NotificationCapability);
}

#[test]
fn upcoming_entries_are_filtered_sorted_and_limited() {
    let mut past = entry("past", 50);
    past.start_at = 50;
    let mut later_day = entry("far", 900);
    later_day.in_window = false;
    let mut done = entry("done", 700);
    done.scheduled = false;
    let entries = vec![entry("c", 500), past, entry("a", 300), later_day, done, entry("b", 300), entry("d", 800)];
    let chosen = select_upcoming(entries, 100, 3);
    let ids: Vec<&str> = chosen.iter().map(|e| e.task_id.as_str()).collect();
    assert_eq!(ids, vec!["a", "b", "c"]);
}

#[test]
fn start_time_notifications_carry_the_check_in_card() {
    let request = StartTimeNotificationRequest::default();
    assert_eq!(request.limit, 10);
    assert_eq!(request.device_id, "mobile");
    let list = start_time_notifications(vec![entry("task-1", 5_000)], 100, &request);
    assert_eq!(list.notifications.len(), 1);
    let n = &list.notifications[0];
    assert_eq!(n.task_id, "task-1");
    assert_eq!(n.title, "「title-task-1」の開始時刻です");
    assert_eq!(n.body, "title-task-1 (10:00)");
    assert_eq!(n.scheduled_at, 5_000);
    match &n.check_in {
        Presentation::CheckIn(card) => {
            let start = card.act.actions.as_slice()[0].capability.as_ref().unwrap();
            assert_eq!(start.action, "start");
            assert_eq!(start.device_id, "mobile");
            assert_eq!(start.expires_at, 5_000 + 30 * 60);
            let snooze = card.shift.actions.as_slice()[0].capability.as_ref().unwrap();
            assert_eq!(snooze.action, "delay");
            assert_eq!(snooze.snooze_minutes, Some(10));
        }
        other => panic!("expected a check-in, got {other:?}"),
    }
}

#[test]
fn start_labels_and_the_notification_window() {
    assert_eq!(start_label(9, 5), "09:05");
    assert_eq!(start_label(23, 59), "23:59");
    let today = CivilDate { year: 2024, month: 5, day: 31 };
    let tomorrow = CivilDate { year: 2024, month: 6, day: 1 };
    let later = CivilDate { year: 2024, month: 6, day: 2 };
    assert!(in_notification_window(today, today, Some(tomorrow)));
    assert!(in_notification_window(tomorrow, today, Some(tomorrow)));
    assert!(!in_notification_window(later, today, Some(tomorrow)));
    assert!(!in_notification_window(tomorrow, today, None));
    let e = upcoming_entry("t1", "散歩", 1_717_200_000, true, tomorrow, 7, 30, today, Some(tomorrow));
    assert_eq!(e.start_label, "07:30");
    assert!(e.in_window && e.scheduled);
    assert_eq!(e.start_at, 1_717_200_000);
}
