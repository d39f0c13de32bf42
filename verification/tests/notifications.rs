use ttl_legacy::backend::models::{
    DeliveryRecord, DeliveryStatus, NotificationPreferences, NotificationType, RegisterTokenRequest,
    UpdatePreferencesRequest, Vault, VaultStatus,
};
use ttl_legacy::backend::notifications::{
    create_delivery_store, create_schedule_store, create_token_store, notification_content,
    NotificationService, RETRY_DELAYS_SECS,
};
use ttl_legacy::backend::store::create_prefs_store;

fn make_service() -> NotificationService {
    NotificationService::new(
        create_token_store(),
        create_prefs_store(),
        create_schedule_store(),
        create_delivery_store(),
    )
}

fn make_vault(ttl: Option<u64>) -> Vault {
    Vault {
        id: "v1".into(),
        owner: "owner1".into(),
        beneficiary: "ben1".into(),
        balance: 1_000_000,
        check_in_interval: 86_400,
        last_check_in: 1_700_000_000,
        created_at: 1_700_000_000,
        status: VaultStatus::Active,
        ttl_remaining: ttl,
    }
}

fn prefs(owner: &str, warn: bool, remind: bool, released: bool) -> NotificationPreferences {
    NotificationPreferences {
        owner: owner.to_string(),
        expiry_warning_enabled: warn,
        check_in_reminder_enabled: remind,
        vault_released_enabled: released,
        warning_hours_before: 24,
    }
}

#[test]
fn register_token_stores_entry() {
    let mut svc = make_service();
    svc.register_token(RegisterTokenRequest {
        owner: "owner1".into(),
        token: "tok-abc".into(),
        platform: "android".into(),
    });
    let tokens = svc.get_tokens("owner1");
    assert_eq!(tokens.len(), 1);
    assert_eq!(tokens[0].token, "tok-abc");
}

#[test]
fn register_token_deduplicates() {
    let mut svc = make_service();
    for _ in 0..3 {
        svc.register_token(RegisterTokenRequest {
            owner: "owner1".into(),
            token: "tok-abc".into(),
            platform: "ios".into(),
        });
    }
    assert_eq!(svc.get_tokens("owner1").len(), 1);
}

#[test]
fn unregister_token_removes_entry() {
    let mut svc = make_service();
    svc.register_token(RegisterTokenRequest {
        owner: "owner1".into(),
        token: "tok-abc".into(),
        platform: "android".into(),
    });
    svc.unregister_token("owner1", "tok-abc");
    assert!(svc.get_tokens("owner1").is_empty());
}

#[test]
fn get_preferences_returns_default_when_unset() {
    let svc = make_service();
    let p = svc.get_preferences("unknown-owner");
    assert!(p.expiry_warning_enabled);
    assert!(p.check_in_reminder_enabled);
    assert!(p.vault_released_enabled);
}

#[test]
fn schedule_expiry_warning_creates_pending_notification() {
    let mut svc = make_service();
    let vault = make_vault(Some(172_800));
    svc.prefs.insert(prefs(&vault.owner, true, true, true));
    assert!(svc.schedule_expiry_warning(&vault));
    let pending = svc.get_pending_notifications();
    assert!(pending.is_empty());
    let all = &svc.schedule.items;
    assert_eq!(all.len(), 1);
    assert_eq!(all[0].notification_type, NotificationType::ExpiryWarning);
    assert_eq!(all[0].status, DeliveryStatus::Pending);
}

#[test]
fn schedule_expiry_warning_skips_when_disabled() {
    let mut svc = make_service();
    let vault = make_vault(Some(172_800));
    svc.prefs.insert(prefs(&vault.owner, false, true, true));
    svc.schedule_expiry_warning(&vault);
    assert!(svc.schedule.items.is_empty());
}

#[test]
fn schedule_expiry_warning_no_duplicate() {
    let mut svc = make_service();
    let vault = make_vault(Some(172_800));
    svc.schedule_expiry_warning(&vault);
    svc.schedule_expiry_warning(&vault);
    assert_eq!(svc.schedule.items.len(), 1);
}

#[test]
fn schedule_immediate_creates_due_notification() {
    let mut svc = make_service();
    svc.prefs.insert(prefs("owner1", true, true, true));
    svc.schedule_immediate("v1", "owner1", NotificationType::VaultReleased);
    let pending = svc.get_pending_notifications();
    assert_eq!(pending.len(), 1);
    assert_eq!(pending[0].notification_type, NotificationType::VaultReleased);
}

#[test]
fn schedule_immediate_skips_when_disabled() {
    let mut svc = make_service();
    svc.prefs.insert(prefs("owner1", true, true, false));
    svc.schedule_immediate("v1", "owner1", NotificationType::VaultReleased);
    assert!(svc.schedule.items.is_empty());
}

#[test]
fn delivery_log_filters_by_owner() {
    let mut svc = make_service();
    svc.delivery.records.push(DeliveryRecord {
        notification_id: "n1".into(),
        vault_id: "v1".into(),
        owner: "owner1".into(),
        notification_type: NotificationType::CheckInReminder,
        status: DeliveryStatus::Sent,
        sent_at: 1_700_000_000,
        provider_response: "msg/123".into(),
    });
    svc.delivery.records.push(DeliveryRecord {
        notification_id: "n2".into(),
        vault_id: "v2".into(),
        owner: "owner2".into(),
        notification_type: NotificationType::VaultReleased,
        status: DeliveryStatus::Sent,
        sent_at: 1_700_000_000,
        provider_response: "msg/456".into(),
    });
    assert_eq!(svc.get_delivery_log("owner1").len(), 1);
    assert_eq!(svc.get_delivery_log("owner2").len(), 1);
    assert!(svc.get_delivery_log("owner3").is_empty());
}

#[test]
fn notification_content_expiry_warning_includes_hours() {
    let c = notification_content(&NotificationType::ExpiryWarning, "v1", Some(6));
    assert!(c.title.contains("Expiring"));
    assert!(c.body.contains("6h"));
    assert_eq!(c.vault_id, "v1");
}

#[test]
fn notification_content_vault_released() {
    let c = notification_content(&NotificationType::VaultReleased, "v2", None);
    assert!(c.title.contains("Released"));
    assert!(c.body.contains("beneficiary"));
    assert_eq!(c.kind, "vault_released");
}

#[test]
fn retry_delays_are_ascending() {
    let delays = RETRY_DELAYS_SECS;
    for i in 1..delays.len() {
        assert!(delays[i] > delays[i - 1], "delay[{i}] should be > delay[{}]", i - 1);
    }
    assert_eq!(delays.len(), 5);
}

#[test]
fn retry_delays_match_spec() {
    // 1 min, 5 min, 15 min, 1 hr, 6 hr
    assert_eq!(RETRY_DELAYS_SECS, [60, 300, 900, 3_600, 21_600]);
}

/// Delivers every due notification the way the scheduler does when no
/// device answers: one send per registered token, none succeeding.
fn flush_pending_offline(svc: &mut NotificationService) {
    let now = 1_900_000_000;
    let due = svc.get_pending_at(now);
    for notif in due {
        let sends: Vec<Result<String, String>> = svc
            .get_tokens(&notif.owner)
            .iter()
            .map(|_| Err("unreachable".to_string()))
            .collect();
        svc.deliver_with_retry(&notif, 0, &sends, now);
    }
}

#[test]
fn deliver_with_no_tokens_records_failed() {
    let mut svc = make_service();
    svc.schedule_immediate("v1", "owner1", NotificationType::CheckInReminder);
    flush_pending_offline(&mut svc);
    let log = svc.get_delivery_log("owner1");
    assert_eq!(log.len(), 1);
    assert_eq!(log[0].status, DeliveryStatus::Failed);
    assert_eq!(log[0].provider_response, "no_tokens_registered");
}

#[test]
fn no_tokens_sets_retry_log_to_failed() {
    let mut svc = make_service();
    svc.schedule_immediate("v1", "owner1", NotificationType::CheckInReminder);
    flush_pending_offline(&mut svc);
    let status = svc.get_reminder_delivery_status("v1").unwrap();
    assert_eq!(status.status, DeliveryStatus::Failed);
    assert_eq!(status.attempts.len(), 1);
    assert_eq!(status.attempts[0].attempt, 0);
}

#[test]
fn retry_log_records_attempt_count() {
    let mut svc = make_service();
    svc.schedule_immediate("v1", "owner1", NotificationType::CheckInReminder);
    flush_pending_offline(&mut svc);
    let log = svc.get_reminder_delivery_status("v1").unwrap();
    assert_eq!(log.attempts.len(), 1);
    assert_eq!(log.attempts[0].error, "no_tokens_registered");
}

#[test]
fn get_reminder_delivery_status_returns_none_for_unknown_vault() {
    let svc = make_service();
    assert!(svc.get_reminder_delivery_status("unknown-vault").is_none());
}

#[test]
fn retry_log_vault_id_matches() {
    let mut svc = make_service();
    svc.schedule_immediate("vault-xyz", "owner1", NotificationType::CheckInReminder);
    flush_pending_offline(&mut svc);
    let log = svc.get_reminder_delivery_status("vault-xyz").unwrap();
    assert_eq!(log.vault_id, "vault-xyz");
    assert_eq!(log.owner, "owner1");
}

#[test]
fn failed_send_schedules_retry_with_backoff() {
    let mut svc = make_service();
    svc.register_token(RegisterTokenRequest { owner: "o".into(), token: "t".into(), platform: "web".into() });
    svc.schedule_immediate_at("v9", "o", NotificationType::CheckInReminder, "n9".to_string(), 100);
    let notif = svc.get_pending_at(100).remove(0);
    let sends = vec![Err("timeout".to_string())];
    assert!(!svc.deliver_with_retry(&notif, 0, &sends, 1_000));
    let log = svc.get_reminder_delivery_status("v9").unwrap();
    assert_eq!(log.status, DeliveryStatus::Retrying);
    assert_eq!(log.next_retry_at, Some(1_000 + 60));
    assert_eq!(log.attempts[0].error, "timeout");
    assert_eq!(svc.schedule.items[0].status, DeliveryStatus::Retrying);
    let due = svc.retries_due_at(1_060);
    assert_eq!(due.len(), 1);
    assert_eq!(due[0].1, 1);
    assert!(svc.retries_due_at(1_059).is_empty());
    // Each retry waits longer: 5 min, 15 min, 1 h, 6 h.
    let mut t = 1_060;
    for (attempt, delay) in [(1u32, 300i64), (2, 900), (3, 3_600), (4, 21_600)] {
        assert!(!svc.deliver_with_retry(&notif, attempt, &sends, t));
        let log = svc.get_reminder_delivery_status("v9").unwrap();
        assert_eq!(log.status, DeliveryStatus::Retrying);
        assert_eq!(log.next_retry_at, Some(t + delay));
        t += delay;
    }
    // The fifth retry failing gives up and calls for an alert.
    assert!(svc.deliver_with_retry(&notif, 5, &sends, t));
    let log = svc.get_reminder_delivery_status("v9").unwrap();
    assert_eq!(log.status, DeliveryStatus::Failed);
    assert_eq!(log.next_retry_at, None);
    assert_eq!(log.attempts.len(), 6);
    assert_eq!(svc.schedule.items[0].status, DeliveryStatus::Failed);
}

#[test]
fn successful_send_marks_sent() {
    let mut svc = make_service();
    svc.schedule_immediate_at("v7", "o", NotificationType::VaultPaused, "n7".to_string(), 5);
    let notif = svc.get_pending_at(5).remove(0);
    let sends = vec![Err("bad".to_string()), Ok("msg/1".to_string())];
    svc.deliver_with_retry(&notif, 0, &sends, 10);
    let log = svc.get_delivery_log("o");
    assert_eq!(log.len(), 1);
    assert_eq!(log[0].status, DeliveryStatus::Sent);
    assert_eq!(log[0].provider_response, "msg/1");
    assert_eq!(svc.schedule.items[0].status, DeliveryStatus::Sent);
    assert!(svc.get_pending_at(100).is_empty());
}

#[test]
fn update_preferences_changes_only_given_fields() {
    let mut svc = make_service();
    svc.update_preferences(UpdatePreferencesRequest {
        owner: "o".into(),
        expiry_warning_enabled: Some(false),
        check_in_reminder_enabled: None,
        vault_released_enabled: None,
        warning_hours_before: Some(6),
    });
    let p = svc.get_preferences("o");
    assert!(!p.expiry_warning_enabled);
    assert!(p.check_in_reminder_enabled);
    assert!(p.vault_released_enabled);
    assert_eq!(p.warning_hours_before, 6);
}

#[test]
fn expiry_warning_fires_before_expiry() {
    let mut svc = make_service();
    let vault = make_vault(Some(172_800));
    svc.schedule_expiry_warning_at(&vault, "n1".to_string(), 1_000);
    assert_eq!(svc.schedule.items[0].scheduled_at, 1_000 + 86_400);
    // Past the warning threshold nothing is scheduled.
    let late = make_vault(Some(3_600));
    let mut svc2 = make_service();
    svc2.schedule_expiry_warning_at(&late, "n2".to_string(), 1_000);
    assert!(svc2.schedule.items.is_empty());
}

#[test]
fn expiry_warning_body_spells_out_the_hours() {
    let c = notification_content(&NotificationType::ExpiryWarning, "v9", Some(1234));
    assert_eq!(c.body, "Your vault expires in ~1234h. Check in now to keep it active.");
    assert_eq!(c.kind, "expiry_warning");
    let d = notification_content(&NotificationType::ExpiryWarning, "v9", None);
    assert_eq!(d.body, "Your vault expires in ~24h. Check in now to keep it active.");
}
