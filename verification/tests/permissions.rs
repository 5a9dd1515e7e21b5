use takusu_agent::labels::{ChangeOperation, TargetKind};
use takusu_agent::permissions::{PermissionKey, Permissions};

#[test]
fn wildcard_lookup_order() {
    let mut perms = Permissions::default();
    perms.set(None, None, true);
    assert!(perms.is_allowed(TargetKind::Task, ChangeOperation::Create));
    perms.set(Some(TargetKind::Task), None, false);
    assert!(!perms.is_allowed(TargetKind::Task, ChangeOperation::Create));
    assert!(perms.is_allowed(TargetKind::Habit, ChangeOperation::Create));
    perms.set(Some(TargetKind::Task), Some(ChangeOperation::Create), true);
    assert!(perms.is_allowed(TargetKind::Task, ChangeOperation::Create));
    assert!(!perms.is_allowed(TargetKind::Task, ChangeOperation::Delete));
}

#[test]
fn permission_key_display_and_parse_round_trip() {
    for key in [
        PermissionKey::exact(TargetKind::Task, ChangeOperation::Create),
        PermissionKey::new(Some(TargetKind::Task), None),
        PermissionKey::new(None, Some(ChangeOperation::Create)),
        PermissionKey::new(None, None),
    ] {
        let s = key.to_string();
        assert_eq!(PermissionKey::from_str(&s).unwrap(), key);
    }
}

#[test]
fn permission_key_parse_rejects_invalid() {
    for bad in ["invalid", "task", "task:", ":create", "task:create:sub"] {
        assert!(PermissionKey::from_str(bad).is_err(), "{bad} should be rejected");
    }
}

#[test]
fn permission_key_texts_use_wildcards() {
    assert_eq!(PermissionKey::new(None, None).to_string(), "*:*");
    assert_eq!(PermissionKey::new(Some(TargetKind::Task), None).to_string(), "task:*");
    assert_eq!(
        PermissionKey::exact(TargetKind::Schedule, ChangeOperation::Generate).to_string(),
        "schedule:generate"
    );
}

#[test]
fn unset_permission_is_denied_and_resolves_to_none() {
    let perms = Permissions::default();
    assert_eq!(perms.resolve(TargetKind::Task, ChangeOperation::Create), None);
    assert!(!perms.is_allowed(TargetKind::Task, ChangeOperation::Create));
}

#[test]
fn operation_wildcard_sits_between_target_wildcard_and_global() {
    let mut perms = Permissions::default();
    perms.set(None, None, false);
    perms.set(None, Some(ChangeOperation::Create), true);
    assert!(perms.is_allowed(TargetKind::Habit, ChangeOperation::Create));
    perms.set(Some(TargetKind::Habit), None, false);
    assert!(!perms.is_allowed(TargetKind::Habit, ChangeOperation::Create));
}
