use takusu_agent::capability::{
    authorize_stored, authorize_unstored, mint_capability, mint_capability_with, plan_action, plan_result,
    record_success, ActionCapability, ActionPlan, AuthorizeGate, CapabilityError, CapabilityRecord,
    CapabilityRequest, CapabilityStore, InputPath, QuickAction, MAX_CAPABILITIES,
};
use takusu_agent::events::TaskStatus;
use takusu_agent::presentation::Presentation;

fn request(task_id: &str, action: &str) -> CapabilityRequest {
    CapabilityRequest {
        task_id: task_id.into(),
        action: action.into(),
        device_id: "mobile".into(),
        ..Default::default()
    }
}

fn record(request: CapabilityRequest, capability: ActionCapability) -> CapabilityRecord {
    CapabilityRecord {
        request,
        capability,
        consumed: false,
        result: None,
        action: None,
        snooze_target: None,
    }
}

#[test]
fn mint_capability_has_expected_fields() {
    let capability = mint_capability(request("task-1", "start"), InputPath::ScreenCapability);
    assert!(capability.id.starts_with("cap-"));
    assert!(capability.id.len() > "cap-".len());
    assert_eq!(capability.action, "start");
    assert_eq!(capability.input_path, InputPath::ScreenCapability);
    assert!(capability.one_shot);
    assert!(capability.expires_at > jiff::Timestamp::now().as_second());
}

#[test]
fn minted_capability_expires_after_the_ttl_or_the_grace_period() {
    let plain = mint_capability_with(request("task-1", "start"), InputPath::ScreenCapability, "abc", 1_000);
    assert_eq!(plain.id, "cap-abc");
    assert_eq!(plain.expires_at, 1_000 + 5 * 60);
    assert_eq!(plain.task_id, "task-1");

    let scheduled = CapabilityRequest { scheduled_at: Some(10_000), ..request("task-1", "start") };
    let notified = mint_capability_with(scheduled, InputPath::NotificationCapability, "def", 1_000);
    assert_eq!(notified.expires_at, 10_000 + 30 * 60);
    assert_eq!(notified.scheduled_at, Some(10_000));
}

#[test]
fn capability_store_retains_and_evicts() {
    let mut store = CapabilityStore::new();
    for i in 0..MAX_CAPABILITIES + 10 {
        let request = request(&format!("task-{i}"), "start");
        let capability = mint_capability(request.clone(), InputPath::ScreenCapability);
        store.insert(request, capability);
    }
    assert!(store.len() <= MAX_CAPABILITIES);
}

#[test]
fn capability_store_evicts_consumed_or_expired_first() {
    let mut store = CapabilityStore::new();
    let mut first_id = String::new();
    for i in 0..MAX_CAPABILITIES - 1 {
        let request = request(&format!("task-{i}"), "start");
        let capability = mint_capability(request.clone(), InputPath::ScreenCapability);
        if i == 0 {
            first_id = capability.id.clone();
        }
        store.insert(request, capability);
    }

    let consumed_request = request("consumed", "start");
    let consumed = mint_capability(consumed_request.clone(), InputPath::ScreenCapability);
    let consumed_id = consumed.id.clone();
    store.insert(consumed_request, consumed);
    let mut stored = store.get(&consumed_id).unwrap().clone();
    stored.consumed = true;
    assert!(store.replace(stored));

    let expired_request = request("expired", "start");
    let mut expired = mint_capability(expired_request.clone(), InputPath::ScreenCapability);
    expired.expires_at = 0;
    store.insert(expired_request, expired);

    let new_request = request("new", "start");
    let capability = mint_capability(new_request.clone(), InputPath::ScreenCapability);
    store.insert(new_request, capability);

    assert_eq!(store.len(), MAX_CAPABILITIES);
    assert!(store.get(&consumed_id).is_none());
    assert!(store.get(&first_id).is_some());
}

#[test]
fn authorize_action_rejects_expired() {
    let request = request("task-1", "start");
    let mut capability = mint_capability(request.clone(), InputPath::ScreenCapability);
    capability.expires_at = 0;
    let mut stored = record(request, capability.clone());
    let err = authorize_stored(&mut stored, &capability, jiff::Timestamp::now().as_second()).unwrap_err();
    assert!(matches!(err, CapabilityError::Expired));
    assert!(matches!(authorize_unstored(&capability, jiff::Timestamp::now().as_second()), Err(CapabilityError::Expired)));
}

#[test]
fn authorize_action_rejects_mismatch() {
    let request = request("task-1", "start");
    let capability = mint_capability(request.clone(), InputPath::ScreenCapability);
    let mut tampered = capability.clone();
    tampered.action = "pause".into();
    let mut stored = record(request, capability);
    let err = authorize_stored(&mut stored, &tampered, jiff::Timestamp::now().as_second()).unwrap_err();
    assert!(matches!(err, CapabilityError::Mismatch));
}

#[test]
fn authorize_action_replays_consumed_result() {
    let request = request("task-1", "start");
    let capability = mint_capability(request.clone(), InputPath::ScreenCapability);
    let mut stored = record(request, capability.clone());
    stored.consumed = true;
    stored.result = Some(Presentation::Text { text: "ok".to_string() });
    stored.action = Some(QuickAction::Start);
    let gate = authorize_stored(&mut stored, &capability, jiff::Timestamp::now().as_second()).unwrap();
    assert_eq!(gate, AuthorizeGate::Replay(QuickAction::Start));
    assert!(matches!(&stored.result, Some(Presentation::Text { text }) if text == "ok"));
}

#[test]
fn authorize_action_rejects_invalid_action() {
    let request = request("task-1", "unknown");
    let capability = mint_capability(request.clone(), InputPath::ScreenCapability);
    let mut stored = record(request, capability.clone());
    let err = authorize_stored(&mut stored, &capability, jiff::Timestamp::now().as_second()).unwrap_err();
    assert!(matches!(err, CapabilityError::InvalidAction));
}

#[test]
fn consumed_capability_without_result_is_refused() {
    let request = request("task-1", "start");
    let capability = mint_capability(request.clone(), InputPath::ScreenCapability);
    let mut stored = record(request, capability.clone());
    stored.consumed = true;
    let err = authorize_stored(&mut stored, &capability, jiff::Timestamp::now().as_second()).unwrap_err();
    assert_eq!(err, CapabilityError::Consumed);
    assert_eq!(err.to_string(), "capability already consumed");
}

#[test]
fn fresh_capability_proceeds_and_is_replayed_after_success() {
    let request = request("task-1", "start");
    let capability = mint_capability(request.clone(), InputPath::ScreenCapability);
    let mut stored = record(request, capability.clone());
    let now = jiff::Timestamp::now().as_second();
    let gate = authorize_stored(&mut stored, &capability, now).unwrap();
    assert_eq!(gate, AuthorizeGate::Proceed(QuickAction::Start));
    let plan = plan_action(QuickAction::Start, &mut stored, TaskStatus::Scheduled, now).unwrap();
    assert_eq!(plan, ActionPlan::Start);
    let result = plan_result(plan, 7, "レポート");
    record_success(&mut stored, result, QuickAction::Start);
    let again = authorize_stored(&mut stored, &capability, now).unwrap();
    assert_eq!(again, AuthorizeGate::Replay(QuickAction::Start));
}

#[test]
fn plan_refuses_start_of_a_running_task_and_caches_the_delay_target() {
    let request = request("task-1", "start");
    let capability = mint_capability(request.clone(), InputPath::ScreenCapability);
    let mut stored = record(request, capability);
    assert_eq!(
        plan_action(QuickAction::Start, &mut stored, TaskStatus::InProgress, 1_000),
        Err(CapabilityError::InvalidTaskState)
    );

    let delay_request = CapabilityRequest { snooze_minutes: Some(10), ..request_with_action("delay") };
    let delay = mint_capability_with(delay_request.clone(), InputPath::ScreenCapability, "d", 1_000);
    let mut delayed = record(delay_request, delay);
    let plan = plan_action(QuickAction::Delay, &mut delayed, TaskStatus::Scheduled, 1_000).unwrap();
    assert_eq!(plan, ActionPlan::Delay { minutes: 10, target: 1_600 });
    assert_eq!(delayed.snooze_target, Some(1_600));
    let retry = plan_action(QuickAction::Delay, &mut delayed, TaskStatus::Scheduled, 2_000).unwrap();
    assert_eq!(retry, ActionPlan::Delay { minutes: 10, target: 1_600 });
}

fn request_with_action(action: &str) -> CapabilityRequest {
    request("task-1", action)
}

#[test]
fn progress_quantity_above_the_safe_limit_is_refused() {
    let progress_request = CapabilityRequest { quantity_done: Some(9_007_199_254_740_992), ..request_with_action("progress") };
    let capability = mint_capability_with(progress_request.clone(), InputPath::ScreenCapability, "p", 1_000);
    let mut stored = record(progress_request, capability);
    let err = plan_action(QuickAction::Progress, &mut stored, TaskStatus::InProgress, 1_000).unwrap_err();
    assert_eq!(err, CapabilityError::QuantityTooLarge(9_007_199_254_740_992));
    assert_eq!(err.to_string(), "invalid quantity: quantity too large: 9007199254740992");
}

#[test]
fn quick_action_labels_round_trip() {
    for action in [QuickAction::Start, QuickAction::Pause, QuickAction::Progress, QuickAction::Complete, QuickAction::Delay] {
        assert_eq!(QuickAction::from_str(action.as_str()), Ok(action));
    }
    assert!(QuickAction::from_str("jump").is_err());
}
