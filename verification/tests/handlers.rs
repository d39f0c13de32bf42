use ttl_legacy::backend::handlers::{
    compare_vaults_handler, compliance_report_at, create_vault_from_template, create_vault_from_template_at,
    get_notification_preferences_handler, get_vault_templates, list_vault_shares_handler,
    backup_vault_handler, restore_payload, set_notification_preferences_handler, share_vault_handler,
};
use ttl_legacy::backend::models::{
    BeneficiaryChange, ComplianceReport, EventData, EventType, FundMovement, NotificationChannel, NotificationFrequency, NotificationPreferencesRequest,
    RestoreRequest, SharePermission, ShareRequest, Vault, VaultEvent, VaultStatus,
};
use ttl_legacy::backend::store::{
    create_backup_store, create_notification_store, create_share_store, create_vault_store, get_vault_history,
    create_event_store,
};
use ttl_legacy::backend::text::{base64_decode, base64_encode};
use ttl_legacy::backend::export::{
    compliance_report_text, export_format, export_to_csv, report_format, ExportFormat, ReportFormat,
};

fn vault(id: &str, balance: i128) -> Vault {
    Vault {
        id: id.to_string(),
        owner: "owner1".to_string(),
        beneficiary: "ben1".to_string(),
        balance,
        check_in_interval: 86400,
        last_check_in: 1_700_000_000,
        created_at: 1_700_000_000,
        status: VaultStatus::Active,
        ttl_remaining: Some(86400),
    }
}

#[test]
fn test_notification_preferences_vault_not_found() {
    let store = create_vault_store();
    let mut notif_store = create_notification_store();
    let req = NotificationPreferencesRequest {
        channels: vec![NotificationChannel::Email],
        frequency: NotificationFrequency::Monthly,
    };
    assert!(set_notification_preferences_handler(&store, &mut notif_store, "missing", req).is_err());
}

#[test]
fn test_set_notification_preferences() {
    let mut store = create_vault_store();
    let mut notif_store = create_notification_store();
    store.insert(vault("v1", 0));
    let req = NotificationPreferencesRequest {
        channels: vec![NotificationChannel::Email, NotificationChannel::Push],
        frequency: NotificationFrequency::Weekly,
    };
    let result = set_notification_preferences_handler(&store, &mut notif_store, "v1", req);
    assert!(result.is_ok());
    let prefs = result.unwrap();
    assert_eq!(prefs.owner, "v1");
    assert!(prefs.expiry_warning_enabled);
    assert!(prefs.vault_released_enabled || prefs.check_in_reminder_enabled);
}

#[test]
fn test_get_notification_preferences() {
    let mut store = create_vault_store();
    let mut notif_store = create_notification_store();
    store.insert(vault("v1", 0));
    set_notification_preferences_handler(&store, &mut notif_store, "v1", NotificationPreferencesRequest {
        channels: vec![NotificationChannel::Sms],
        frequency: NotificationFrequency::Daily,
    })
    .unwrap();
    let prefs = get_notification_preferences_handler(&notif_store, "v1");
    assert!(prefs.is_some());
    assert!(prefs.unwrap().check_in_reminder_enabled);
}

#[test]
fn test_notification_preferences_empty_channels_rejected() {
    let mut store = create_vault_store();
    let mut notif_store = create_notification_store();
    store.insert(vault("v1", 0));
    let req = NotificationPreferencesRequest { channels: vec![], frequency: NotificationFrequency::Daily };
    assert!(set_notification_preferences_handler(&store, &mut notif_store, "v1", req).is_err());
}

#[test]
fn sms_only_preferences_map_to_flags() {
    let mut store = create_vault_store();
    let mut notif_store = create_notification_store();
    store.insert(vault("v1", 0));
    let p = set_notification_preferences_handler(&store, &mut notif_store, "v1", NotificationPreferencesRequest {
        channels: vec![NotificationChannel::Sms],
        frequency: NotificationFrequency::Daily,
    })
    .unwrap();
    assert!(!p.expiry_warning_enabled);
    assert!(p.check_in_reminder_enabled);
    assert!(!p.vault_released_enabled);
    assert_eq!(p.warning_hours_before, 24);
}

#[test]
fn test_compare_vaults_handler() {
    let mut store = create_vault_store();
    store.insert(vault("v1", 1000));
    store.insert(vault("v2", 2000));
    let result = compare_vaults_handler(&store, vec!["v1".to_string(), "v2".to_string()]);
    assert_eq!(result.vaults.len(), 2);
    let result = compare_vaults_handler(&store, vec!["v2".to_string(), "nope".to_string()]);
    assert_eq!(result.vaults.len(), 1);
    assert_eq!(result.vaults[0].balance, 2000);
}

#[test]
fn templates_are_the_three_builtin_ones() {
    let list = get_vault_templates();
    assert_eq!(list.templates.len(), 3);
    assert_eq!(list.templates[0].id, "simple-inheritance");
    assert_eq!(list.templates[0].check_in_interval, 86400 * 30);
    assert_eq!(list.templates[1].id, "family-trust");
    assert_eq!(list.templates[1].check_in_interval, 86400 * 90);
    assert_eq!(list.templates[2].id, "business-succession");
    assert_eq!(list.templates[2].check_in_interval, 86400 * 60);
}

#[test]
fn create_vault_from_template_uses_template_interval() {
    let mut store = create_vault_store();
    let v = create_vault_from_template_at(&mut store, "family-trust", "o".into(), "b".into(), "id-1".into(), 42).unwrap();
    assert_eq!(v.check_in_interval, 86400 * 90);
    assert_eq!(v.ttl_remaining, Some(86400 * 90));
    assert_eq!(v.created_at, 42);
    assert_eq!(store.get("id-1").unwrap().owner, "o");
    let err = create_vault_from_template_at(&mut store, "nope", "o".into(), "b".into(), "id-2".into(), 42).unwrap_err();
    assert_eq!(err, "Template not found");
    let fresh = create_vault_from_template(&mut store, "simple-inheritance", "o".into(), "b".into()).unwrap();
    assert_eq!(fresh.id.len(), 36);
    assert!(store.contains(&fresh.id));
}

#[test]
fn test_backup_vault_creates_backup() {
    let mut store = create_vault_store();
    let mut backup_store = create_backup_store();
    store.insert(vault("v1", 500));
    let result = backup_vault_handler(&store, &mut backup_store, "v1", b"{\"id\":\"v1\",\"balance\":500}");
    assert!(result.is_ok());
    let backup = result.unwrap();
    assert_eq!(backup.vault_id, "v1");
    assert!(!backup.encrypted_payload.is_empty());
}

#[test]
fn test_backup_vault_not_found() {
    let store = create_vault_store();
    let mut backup_store = create_backup_store();
    let result = backup_vault_handler(&store, &mut backup_store, "missing", b"{}");
    assert!(result.is_err());
}

#[test]
fn test_restore_vault_from_backup() {
    let mut store = create_vault_store();
    let mut backup_store = create_backup_store();
    store.insert(vault("v1", 999));
    let payload = b"{\"id\":\"v1\",\"balance\":999}";
    let backup = backup_vault_handler(&store, &mut backup_store, "v1", payload).unwrap();
    assert_eq!(backup.vault_id, "v1");
    assert!(!backup.encrypted_payload.is_empty());
    store.remove("v1");
    assert!(store.get("v1").is_none());
    let req = RestoreRequest { backup_id: backup.backup_id, encryption_key: "dummy-key".to_string() };
    let restored = restore_payload(&backup_store, &req).unwrap();
    assert_eq!(restored, payload.to_vec());
}

#[test]
fn test_restore_missing_backup_returns_error() {
    let backup_store = create_backup_store();
    let req = RestoreRequest { backup_id: "nonexistent".to_string(), encryption_key: "key".to_string() };
    assert!(restore_payload(&backup_store, &req).is_err());
}

#[test]
fn base64_round_trips_and_matches_the_standard_alphabet() {
    assert_eq!(base64_encode(b"hi"), "aGk=");
    assert_eq!(base64_encode(b"abc"), "YWJj");
    assert_eq!(base64_encode(b"a"), "YQ==");
    assert_eq!(base64_encode(b""), "");
    assert_eq!(base64_decode("aGk=").unwrap(), b"hi".to_vec());
    let data: Vec<u8> = (0u8..=255).collect();
    assert_eq!(base64_decode(&base64_encode(&data)).unwrap(), data);
    assert_eq!(base64_decode("a*==").unwrap_err(), "Invalid base64 char: *");
    // A trailing incomplete group is ignored.
    assert_eq!(base64_decode("YQ==YW").unwrap(), b"a".to_vec());
}

#[test]
fn test_share_vault_creates_share() {
    let mut store = create_vault_store();
    let mut share_store = create_share_store();
    store.insert(vault("v1", 0));
    let req = ShareRequest { shared_with: "trusted@example.com".to_string(), permission: SharePermission::ViewOnly };
    let share = share_vault_handler(&store, &mut share_store, "v1", req).unwrap();
    assert_eq!(share.vault_id, "v1");
    assert_eq!(share.permission, SharePermission::ViewOnly);
}

#[test]
fn test_share_vault_not_found() {
    let store = create_vault_store();
    let mut share_store = create_share_store();
    let req = ShareRequest { shared_with: "someone".to_string(), permission: SharePermission::Edit };
    assert!(share_vault_handler(&store, &mut share_store, "missing", req).is_err());
}

#[test]
fn test_list_vault_shares() {
    let mut store = create_vault_store();
    let mut share_store = create_share_store();
    store.insert(vault("v1", 0));
    share_vault_handler(&store, &mut share_store, "v1", ShareRequest {
        shared_with: "a@example.com".to_string(),
        permission: SharePermission::ViewOnly,
    })
    .unwrap();
    share_vault_handler(&store, &mut share_store, "v1", ShareRequest {
        shared_with: "b@example.com".to_string(),
        permission: SharePermission::Admin,
    })
    .unwrap();
    assert_eq!(list_vault_shares_handler(&share_store, "v1").len(), 2);
}

#[test]
fn test_share_permission_levels() {
    let mut store = create_vault_store();
    let mut share_store = create_share_store();
    store.insert(vault("v1", 0));
    for perm in [SharePermission::ViewOnly, SharePermission::Edit, SharePermission::Admin] {
        let req = ShareRequest { shared_with: "x".to_string(), permission: perm };
        let share = share_vault_handler(&store, &mut share_store, "v1", req).unwrap();
        assert_eq!(share.permission, perm);
    }
}

#[test]
fn test_generate_compliance_report() {
    let mut store = create_vault_store();
    let mut events = create_event_store();
    store.insert(vault("v1", 1000));
    let ev = |t: EventType, amount: Option<i64>| VaultEvent {
        vault_id: "v1".to_string(),
        event_type: t,
        timestamp: 10,
        data: EventData { amount, ttl_remaining: Some(5), old_beneficiary: None, new_beneficiary: None },
    };
    events.add(ev(EventType::Deposit, Some(700)));
    events.add(ev(EventType::Withdrawal, Some(200)));
    events.add(ev(EventType::Deposit, None));
    events.add(ev(EventType::TtlUpdate, None));
    events.add(VaultEvent {
        vault_id: "other".to_string(),
        event_type: EventType::Deposit,
        timestamp: 11,
        data: EventData { amount: Some(1), ttl_remaining: None, old_beneficiary: None, new_beneficiary: None },
    });
    events.add(VaultEvent {
        vault_id: "v1".to_string(),
        event_type: EventType::StatusChange,
        timestamp: 12,
        data: EventData { amount: None, ttl_remaining: None, old_beneficiary: Some("a".into()), new_beneficiary: Some("b".into()) },
    });
    let history = get_vault_history(&events, "v1");
    assert_eq!(history.len(), 5);
    let v = store.get("v1").unwrap();
    let report = compliance_report_at(&v, &history, 99);
    assert_eq!(report.vault_id, "v1");
    assert_eq!(report.owner, "owner1");
    assert_eq!(report.current_balance, 1000);
    assert_eq!(report.total_deposits, 700);
    assert_eq!(report.total_withdrawals, 200);
    assert_eq!(report.fund_movements.len(), 2);
    assert_eq!(report.fund_movements[1].movement_type, "withdrawal");
    assert_eq!(report.ttl_history.len(), 1);
    assert_eq!(report.beneficiary_changes.len(), 1);
    assert_eq!(report.report_generated_at, 99);
}

fn report(movements: Vec<FundMovement>, changes: Vec<BeneficiaryChange>) -> ComplianceReport {
    ComplianceReport {
        vault_id: "v1".to_string(),
        owner: "owner1".to_string(),
        beneficiary: "ben1".to_string(),
        report_generated_at: 1_700_000_000,
        fund_movements: movements,
        beneficiary_changes: changes,
        ttl_history: vec![],
        total_deposits: 1000,
        total_withdrawals: 0,
        current_balance: 1000,
    }
}

#[test]
fn test_export_vaults_handler_csv() {
    let mut store = create_vault_store();
    let events = create_event_store();
    store.insert(vault("v1", 1000));
    let v = store.get("v1").unwrap();
    let history = get_vault_history(&events, "v1");
    let data: Vec<String> = history.iter().map(|_| "{}".to_string()).collect();
    assert_eq!(export_format("csv").unwrap(), ExportFormat::Csv);
    let result = export_to_csv(&v, &history, &data);
    assert!(result.is_ok());
    let csv_str = result.unwrap();
    assert!(csv_str.contains("v1"));
}

#[test]
fn csv_export_lists_the_vault_then_its_events() {
    let v = vault("v1", -25);
    let history = vec![
        VaultEvent {
            vault_id: "v1".to_string(),
            event_type: EventType::Deposit,
            timestamp: 1_700_000_060,
            data: EventData { amount: Some(5), ttl_remaining: None, old_beneficiary: None, new_beneficiary: None },
        },
        VaultEvent {
            vault_id: "v1".to_string(),
            event_type: EventType::CheckIn,
            timestamp: 0,
            data: EventData { amount: None, ttl_remaining: None, old_beneficiary: None, new_beneficiary: None },
        },
    ];
    let data = vec!["{\"amount\":5}".to_string(), "null".to_string()];
    let text = export_to_csv(&v, &history, &data).unwrap();
    assert_eq!(
        text,
        "Type,ID,Owner,Beneficiary,Balance,Status,Created\n\
         Vault,v1,owner1,ben1,-25,Active,2023-11-14T22:13:20+00:00\n\
         ,,,,,,\n\
         Event,Type,Timestamp,Data,,,\n\
         Event,Deposit,2023-11-14T22:14:20+00:00,\"{\"\"amount\"\":5}\",,,\n\
         Event,CheckIn,1970-01-01T00:00:00+00:00,null,,,\n"
    );
}

#[test]
fn csv_export_refuses_a_time_out_of_range() {
    let mut v = vault("v1", 1);
    v.created_at = i64::MAX;
    assert_eq!(export_to_csv(&v, &vec![], &vec![]).unwrap_err(), "Invalid timestamp");
}

#[test]
fn export_formats_are_read_by_name() {
    assert_eq!(export_format("json").unwrap(), ExportFormat::Json);
    assert_eq!(export_format("xml").unwrap_err(), "Unsupported format");
    assert_eq!(report_format("pdf").unwrap(), ReportFormat::Pdf);
    assert_eq!(report_format("json").unwrap(), ReportFormat::Json);
    assert_eq!(report_format("csv").unwrap_err(), "Unsupported format");
}

#[test]
fn test_export_compliance_report_pdf() {
    let r = report(vec![], vec![]);
    assert_eq!(report_format("pdf").unwrap(), ReportFormat::Pdf);
    let result = compliance_report_text(&r);
    assert!(result.is_ok());
    let pdf_str = result.unwrap();
    assert!(pdf_str.contains("COMPLIANCE REPORT"));
    assert!(pdf_str.contains("v1"));
}

#[test]
fn compliance_text_has_one_line_per_movement_and_change() {
    let r = report(
        vec![FundMovement { timestamp: 1_700_000_000, movement_type: "withdrawal".to_string(), amount: -40, balance_after: 1000 }],
        vec![BeneficiaryChange { timestamp: 86_400, old_beneficiary: "a".to_string(), new_beneficiary: "b".to_string() }],
    );
    assert_eq!(
        compliance_report_text(&r).unwrap(),
        "COMPLIANCE REPORT\n\
         Generated: 2023-11-14 22:13:20 UTC\n\n\
         Vault ID: v1\n\
         Owner: owner1\n\
         Beneficiary: ben1\n\
         Current Balance: 1000\n\
         Total Deposits: 1000\n\
         Total Withdrawals: 0\n\n\
         FUND MOVEMENTS:\n\
         2023-11-14 22:13:20 UTC - withdrawal -40\n\
         \nBENEFICIARY CHANGES:\n\
         1970-01-02 00:00:00 UTC - a -> b\n"
    );
}
