use vstd::prelude::*;
use crate::backend::models::{
    BeneficiaryChange, ComparisonResult, ComplianceReport, EventType, FundMovement,
    NotificationChannel, NotificationPreferences, NotificationPreferencesRequest, RestoreRequest,
    ShareRequest, TtlEvent, Vault, VaultBackup, VaultEvent, VaultShare, VaultStatus, VaultTemplate,
    VaultTemplateList,
};
use crate::backend::store::{
    add_vault_share, backup_lookup, get_backup, get_notification_preferences, get_vault_history,
    get_vault_shares, set_notification_preferences, store_backup, BackupStore, EventStore,
    NotificationStore, ShareStore, VaultNotificationPreferences, VaultStore,
};
use crate::backend::text::{
    ascii_chars, base64_decode, base64_decoded, base64_encode, base64_encoded, invalid_char_message,
    new_id, now_seconds,
};

verus! {

// ---------------------------------------------------------------------------
// Templates

/// Whether `t` is the template with the given fields.
pub open spec fn is_template(t: VaultTemplate, id: &str, name: &str, description: &str, interval: u64, recommended_for: &str) -> bool {
    &&& t.id@ == id@
    &&& t.name@ == name@
    &&& t.description@ == description@
    &&& t.check_in_interval == interval
    &&& t.recommended_for@ == recommended_for@
}

/// The three built-in templates.
pub open spec fn builtin_templates(ts: Seq<VaultTemplate>) -> bool {
    &&& ts.len() == 3
    &&& is_template(ts[0], "simple-inheritance", "Simple Inheritance",
        "Basic vault for single beneficiary inheritance", 2_592_000, "Individual asset protection")
    &&& is_template(ts[1], "family-trust", "Family Trust",
        "Multi-beneficiary vault for family wealth distribution", 7_776_000, "Family wealth management")
    &&& is_template(ts[2], "business-succession", "Business Succession",
        "Vault for business continuity and succession planning", 5_184_000, "Business asset protection")
}

fn template(id: &str, name: &str, description: &str, interval: u64, recommended_for: &str) -> (t: VaultTemplate)
    ensures
        is_template(t, id, name, description, interval, recommended_for),
{
    VaultTemplate {
        id: id.to_owned(),
        name: name.to_owned(),
        description: description.to_owned(),
        check_in_interval: interval,
        recommended_for: recommended_for.to_owned(),
    }
}

/// The built-in vault templates: check in every 30, 90 or 60 days.
pub fn get_vault_templates() -> (r: VaultTemplateList)
    ensures
        builtin_templates(r.templates@),
{
    let mut templates: Vec<VaultTemplate> = Vec::new();
    templates.push(template("simple-inheritance", "Simple Inheritance",
        "Basic vault for single beneficiary inheritance", 86400 * 30, "Individual asset protection"));
    templates.push(template("family-trust", "Family Trust",
        "Multi-beneficiary vault for family wealth distribution", 86400 * 90, "Family wealth management"));
    templates.push(template("business-succession", "Business Succession",
        "Vault for business continuity and succession planning", 86400 * 60, "Business asset protection"));
    VaultTemplateList { templates }
}

/// The first template in `ts` with the given id.
pub open spec fn template_lookup(ts: Seq<VaultTemplate>, id: Seq<char>) -> Option<VaultTemplate>
    decreases ts.len(),
{
    if ts.len() == 0 {
        None
    } else if ts[0].id@ == id {
        Some(ts[0])
    } else {
        template_lookup(ts.drop_first(), id)
    }
}

/// The check-in interval of the built-in template with the given id.
pub open spec fn template_interval(id: Seq<char>) -> Option<u64> {
    if id == "simple-inheritance"@ {
        Some(2_592_000u64)
    } else if id == "family-trust"@ {
        Some(7_776_000u64)
    } else if id == "business-succession"@ {
        Some(5_184_000u64)
    } else {
        None
    }
}

/// The check-in interval of the built-in template with the given id, if any.
pub fn find_template_interval(template_id: &str) -> (r: Option<u64>)
    ensures
        r == template_interval(template_id@),
{
    let templates = get_vault_templates();
    let key = template_id.to_owned();
    let ts = &templates.templates;
    let mut i: usize = 0;
    while i < ts.len()
        invariant
            i <= 3,
            builtin_templates(ts@),
            key@ == template_id@,
            forall|j: int| 0 <= j < i ==> ts@[j].id@ != template_id@,
        decreases ts@.len() - i,
    {
        if ts[i].id == key {
            proof {
                reveal_strlit("simple-inheritance");
                reveal_strlit("family-trust");
                reveal_strlit("business-succession");
            }
            return Some(ts[i].check_in_interval);
        }
        i = i + 1;
    }
    proof {
        reveal_strlit("simple-inheritance");
        reveal_strlit("family-trust");
        reveal_strlit("business-succession");
    }
    None
}

/// The vault made from a template.
pub open spec fn template_vault(v: Vault, id: Seq<char>, owner: Seq<char>, beneficiary: Seq<char>, interval: u64, now: i64) -> bool {
    &&& v.id@ == id
    &&& v.owner@ == owner
    &&& v.beneficiary@ == beneficiary
    &&& v.balance == 0
    &&& v.check_in_interval == interval
    &&& v.last_check_in == now
    &&& v.created_at == now
    &&& v.status == VaultStatus::Active
    &&& v.ttl_remaining == Some(interval)
}

/// Creates an active vault from the template `template_id`, with id `vault_id`
/// and created at `now`, and stores it.
pub fn create_vault_from_template_at(
    store: &mut VaultStore,
    template_id: &str,
    owner: String,
    beneficiary: String,
    vault_id: String,
    now: i64,
) -> (r: Result<Vault, String>)
    ensures
        match template_interval(template_id@) {
            Some(interval) => r matches Ok(v)
                && template_vault(v, vault_id@, owner@, beneficiary@, interval, now)
                && final(store).entries@ == old(store).entries@.push(v),
            None => r matches Err(e) && e@ == "Template not found"@ && final(store).entries@ == old(store).entries@,
        },
{
    let interval = match find_template_interval(template_id) {
        Some(i) => i,
        None => return Err(String::from_str("Template not found")),
    };
    let vault = Vault {
        id: vault_id,
        owner,
        beneficiary,
        balance: 0,
        check_in_interval: interval,
        last_check_in: now,
        created_at: now,
        status: VaultStatus::Active,
        ttl_remaining: Some(interval),
    };
    store.insert(vault.duplicate());
    Ok(vault)
}

/// Creates an active vault from the template `template_id` under a fresh id,
/// at the current time, and stores it.
pub fn create_vault_from_template(store: &mut VaultStore, template_id: &str, owner: String, beneficiary: String) -> (r: Result<Vault, String>)
    ensures
        match template_interval(template_id@) {
            Some(interval) => r matches Ok(v)
                && v.id@.len() == 36
                && template_vault(v, v.id@, owner@, beneficiary@, interval, v.created_at)
                && final(store).entries@ == old(store).entries@.push(v),
            None => r matches Err(e) && e@ == "Template not found"@ && final(store).entries@ == old(store).entries@,
        },
{
    let id = new_id();
    let now = now_seconds();
    create_vault_from_template_at(store, template_id, owner, beneficiary, id, now)
}

// ---------------------------------------------------------------------------
// Comparison

/// The vaults stored under the listed ids, skipping ids with no vault.
pub open spec fn found_vaults(entries: Seq<Vault>, ids: Seq<String>) -> Seq<Vault>
    decreases ids.len(),
{
    if ids.len() == 0 {
        Seq::empty()
    } else {
        let prev = found_vaults(entries, ids.drop_last());
        match crate::backend::store::vault_lookup(entries, ids.last()@) {
            Some(v) => prev.push(v),
            None => prev,
        }
    }
}

/// The stored vaults among `vault_ids`, in the order listed.
pub fn compare_vaults_handler(store: &VaultStore, vault_ids: Vec<String>) -> (r: ComparisonResult)
    ensures
        r.vaults@ == found_vaults(store.entries@, vault_ids@),
{
    let mut vaults: Vec<Vault> = Vec::new();
    let mut i: usize = 0;
    while i < vault_ids.len()
        invariant
            i <= vault_ids@.len(),
            vaults@ == found_vaults(store.entries@, vault_ids@.subrange(0, i as int)),
        decreases vault_ids@.len() - i,
    {
        assert(vault_ids@.subrange(0, i + 1).drop_last() =~= vault_ids@.subrange(0, i as int));
        assert(vault_ids@.subrange(0, i + 1).last() == vault_ids@[i as int]);
        if let Some(v) = store.get(vault_ids[i].as_str()) {
            vaults.push(v);
        }
        i = i + 1;
    }
    assert(vault_ids@.subrange(0, vault_ids@.len() as int) =~= vault_ids@);
    ComparisonResult { vaults }
}

// ---------------------------------------------------------------------------
// Backup and restore

/// Stores a backup of the vault `vault_id` whose serialized state is
/// `payload`: the payload is kept base64-encoded, under `backup_id`, made at `now`.
pub fn backup_vault_at(
    store: &VaultStore,
    backup_store: &mut BackupStore,
    vault_id: &str,
    payload: &[u8],
    backup_id: String,
    now: i64,
) -> (r: Result<VaultBackup, String>)
    ensures
        match store.lookup(vault_id@) {
            Some(_) => r matches Ok(b)
                && b.backup_id@ == backup_id@
                && b.vault_id@ == vault_id@
                && b.created_at == now
                && b.encrypted_payload@ == ascii_chars(base64_encoded(payload@))
                && final(backup_store).backups@ == old(backup_store).backups@.push(b),
            None => r matches Err(e) && e@ == "Vault not found"@ && final(backup_store).backups@ == old(backup_store).backups@,
        },
{
    if !store.contains(vault_id) {
        return Err(String::from_str("Vault not found"));
    }
    let backup = VaultBackup {
        backup_id,
        vault_id: vault_id.to_owned(),
        created_at: now,
        encrypted_payload: base64_encode(payload),
    };
    store_backup(backup_store, backup.duplicate());
    Ok(backup)
}

/// Stores a backup of the vault `vault_id` whose serialized state is
/// `payload`, under a fresh id, at the current time.
pub fn backup_vault_handler(store: &VaultStore, backup_store: &mut BackupStore, vault_id: &str, payload: &[u8]) -> (r: Result<VaultBackup, String>)
    ensures
        match store.lookup(vault_id@) {
            Some(_) => r matches Ok(b)
                && b.backup_id@.len() == 36
                && b.vault_id@ == vault_id@
                && b.encrypted_payload@ == ascii_chars(base64_encoded(payload@))
                && final(backup_store).backups@ == old(backup_store).backups@.push(b),
            None => r matches Err(e) && e@ == "Vault not found"@ && final(backup_store).backups@ == old(backup_store).backups@,
        },
{
    let id = new_id();
    let now = now_seconds();
    backup_vault_at(store, backup_store, vault_id, payload, id, now)
}

/// The message for a backup whose payload does not decode.
pub open spec fn decode_failure_message(inner: Seq<char>) -> Seq<char> {
    "Failed to decode backup: "@ + inner
}

/// The serialized vault state kept in the requested backup.
pub fn restore_payload(backup_store: &BackupStore, request: &RestoreRequest) -> (r: Result<Vec<u8>, String>)
    ensures
        match backup_lookup(backup_store.backups@, request.backup_id@) {
            None => r matches Err(e) && e@ == "Backup not found"@,
            Some(b) => match base64_decoded(vstd::utf8::encode_utf8(b.encrypted_payload@)) {
                Ok(bytes) => r matches Ok(v) && v@ == bytes,
                Err(c) => r matches Err(e) && e@ == decode_failure_message(invalid_char_message(c)),
            },
        },
{
    let backup = match get_backup(backup_store, request.backup_id.as_str()) {
        Some(b) => b,
        None => return Err(String::from_str("Backup not found")),
    };
    match base64_decode(backup.encrypted_payload.as_str()) {
        Ok(v) => Ok(v),
        Err(e) => {
            let mut m = String::from_str("Failed to decode backup: ");
            m.append(e.as_str());
            Err(m)
        }
    }
}

// ---------------------------------------------------------------------------
// Sharing

/// Shares the vault `vault_id` as requested, with share id `share_id`, at `now`.
pub fn share_vault_at(
    store: &VaultStore,
    share_store: &mut ShareStore,
    vault_id: &str,
    request: ShareRequest,
    share_id: String,
    now: i64,
) -> (r: Result<VaultShare, String>)
    ensures
        match store.lookup(vault_id@) {
            Some(_) => r matches Ok(s)
                && s.share_id@ == share_id@
                && s.vault_id@ == vault_id@
                && s.shared_with@ == request.shared_with@
                && s.permission == request.permission
                && s.created_at == now
                && final(share_store).shares@ == old(share_store).shares@.push(s),
            None => r matches Err(e) && e@ == "Vault not found"@ && final(share_store).shares@ == old(share_store).shares@,
        },
{
    if !store.contains(vault_id) {
        return Err(String::from_str("Vault not found"));
    }
    let share = VaultShare {
        share_id,
        vault_id: vault_id.to_owned(),
        shared_with: request.shared_with,
        permission: request.permission,
        created_at: now,
    };
    add_vault_share(share_store, share.duplicate());
    Ok(share)
}

/// Shares the vault `vault_id` as requested, under a fresh share id, at the current time.
pub fn share_vault_handler(store: &VaultStore, share_store: &mut ShareStore, vault_id: &str, request: ShareRequest) -> (r: Result<VaultShare, String>)
    ensures
        match store.lookup(vault_id@) {
            Some(_) => r matches Ok(s)
                && s.share_id@.len() == 36
                && s.vault_id@ == vault_id@
                && s.shared_with@ == request.shared_with@
                && s.permission == request.permission
                && final(share_store).shares@ == old(share_store).shares@.push(s),
            None => r matches Err(e) && e@ == "Vault not found"@ && final(share_store).shares@ == old(share_store).shares@,
        },
{
    let id = new_id();
    let now = now_seconds();
    share_vault_at(store, share_store, vault_id, request, id, now)
}

/// The shares of a vault, in the order they were made.
pub fn list_vault_shares_handler(share_store: &ShareStore, vault_id: &str) -> (r: Vec<VaultShare>)
    ensures
        r@ == share_store.shares@.filter(|s: VaultShare| s.vault_id@ == vault_id@),
{
    get_vault_shares(share_store, vault_id)
}

// ---------------------------------------------------------------------------
// Notification preferences

/// Whether a channel list holds a channel satisfying `p`.
pub open spec fn has_channel(cs: Seq<NotificationChannel>, p: spec_fn(NotificationChannel) -> bool) -> bool {
    exists|i: int| 0 <= i < cs.len() && p(#[trigger] cs[i])
}

/// The preferences a vault gets from a channel list: expiry warnings by email
/// or push, check-in reminders by SMS or push, release notices by push.
pub open spec fn channel_preferences(vault_id: Seq<char>, cs: Seq<NotificationChannel>, p: NotificationPreferences) -> bool {
    &&& p.owner@ == vault_id
    &&& p.expiry_warning_enabled == has_channel(cs, |c: NotificationChannel| c == NotificationChannel::Email || c == NotificationChannel::Push)
    &&& p.check_in_reminder_enabled == has_channel(cs, |c: NotificationChannel| c == NotificationChannel::Sms || c == NotificationChannel::Push)
    &&& p.vault_released_enabled == has_channel(cs, |c: NotificationChannel| c == NotificationChannel::Push)
    &&& p.warning_hours_before == 24
}

/// Sets a vault's notification preferences from the requested channels.
/// At least one channel is required and the vault must exist.
pub fn set_notification_preferences_handler(
    store: &VaultStore,
    notif_store: &mut NotificationStore,
    vault_id: &str,
    request: NotificationPreferencesRequest,
) -> (r: Result<VaultNotificationPreferences, String>)
    ensures
        request.channels@.len() == 0 ==> (r matches Err(e)
            && e@ == "At least one notification channel is required"@
            && final(notif_store).entries@ == old(notif_store).entries@),
        request.channels@.len() > 0 && store.lookup(vault_id@) is None ==> (r matches Err(e)
            && e@ == "Vault not found"@
            && final(notif_store).entries@ == old(notif_store).entries@),
        request.channels@.len() > 0 && store.lookup(vault_id@) is Some ==> (r matches Ok(p)
            && channel_preferences(vault_id@, request.channels@, p)
            && final(notif_store).entries@ == old(notif_store).entries@.push(p)),
{
    if request.channels.len() == 0 {
        return Err(String::from_str("At least one notification channel is required"));
    }
    if !store.contains(vault_id) {
        return Err(String::from_str("Vault not found"));
    }
    let cs = &request.channels;
    let mut email_or_push = false;
    let mut sms_or_push = false;
    let mut push = false;
    let mut i: usize = 0;
    while i < cs.len()
        invariant
            i <= cs@.len(),
            email_or_push == exists|j: int| 0 <= j < i && (cs@[j] == NotificationChannel::Email || cs@[j] == NotificationChannel::Push),
            sms_or_push == exists|j: int| 0 <= j < i && (cs@[j] == NotificationChannel::Sms || cs@[j] == NotificationChannel::Push),
            push == exists|j: int| 0 <= j < i && cs@[j] == NotificationChannel::Push,
        decreases cs@.len() - i,
    {
        let c = cs[i];
        match c {
            NotificationChannel::Email => { email_or_push = true; }
            NotificationChannel::Sms => { sms_or_push = true; }
            NotificationChannel::Push => {
                email_or_push = true;
                sms_or_push = true;
                push = true;
            }
        }
        i = i + 1;
    }
    let prefs = NotificationPreferences {
        owner: vault_id.to_owned(),
        expiry_warning_enabled: email_or_push,
        check_in_reminder_enabled: sms_or_push,
        vault_released_enabled: push,
        warning_hours_before: 24,
    };
    set_notification_preferences(notif_store, prefs.duplicate());
    Ok(prefs)
}

/// The notification preferences stored for a vault.
pub fn get_notification_preferences_handler(notif_store: &NotificationStore, vault_id: &str) -> (r: Option<VaultNotificationPreferences>)
    ensures
        r == notif_store.lookup(vault_id@),
{
    get_notification_preferences(notif_store, vault_id)
}

// ---------------------------------------------------------------------------
// Compliance reports

/// The sum of the amounts of the events of type `t` that carry an amount.
pub open spec fn amount_total(h: Seq<VaultEvent>, t: EventType) -> int
    decreases h.len(),
{
    if h.len() == 0 {
        0
    } else {
        amount_total(h.drop_last(), t) + if h.last().event_type == t && h.last().data.amount is Some {
            h.last().data.amount->0 as int
        } else {
            0
        }
    }
}

/// The fund movements of a history, as (time, kind, amount) with the
/// balance after each left to the caller.
pub open spec fn movements(h: Seq<VaultEvent>) -> Seq<(i64, Seq<char>, int)>
    decreases h.len(),
{
    if h.len() == 0 {
        Seq::empty()
    } else {
        let prev = movements(h.drop_last());
        let e = h.last();
        if e.event_type == EventType::Deposit && e.data.amount is Some {
            prev.push((e.timestamp, "deposit"@, e.data.amount->0 as int))
        } else if e.event_type == EventType::Withdrawal && e.data.amount is Some {
            prev.push((e.timestamp, "withdrawal"@, e.data.amount->0 as int))
        } else {
            prev
        }
    }
}

/// The TTL updates of a history that carry a remaining time.
pub open spec fn ttl_updates(h: Seq<VaultEvent>) -> Seq<(i64, u64)>
    decreases h.len(),
{
    if h.len() == 0 {
        Seq::empty()
    } else {
        let prev = ttl_updates(h.drop_last());
        let e = h.last();
        if e.event_type == EventType::TtlUpdate && e.data.ttl_remaining is Some {
            prev.push((e.timestamp, e.data.ttl_remaining->0))
        } else {
            prev
        }
    }
}

/// The beneficiary changes of a history: status changes that name both the
/// old and the new beneficiary.
pub open spec fn beneficiary_changes(h: Seq<VaultEvent>) -> Seq<(i64, Seq<char>, Seq<char>)>
    decreases h.len(),
{
    if h.len() == 0 {
        Seq::empty()
    } else {
        let prev = beneficiary_changes(h.drop_last());
        let e = h.last();
        if e.event_type == EventType::StatusChange && e.data.old_beneficiary is Some && e.data.new_beneficiary is Some {
            prev.push((e.timestamp, e.data.old_beneficiary->0@, e.data.new_beneficiary->0@))
        } else {
            prev
        }
    }
}

pub open spec fn movement_view(m: FundMovement) -> (i64, Seq<char>, int) {
    (m.timestamp, m.movement_type@, m.amount as int)
}

pub open spec fn ttl_event_view(t: TtlEvent) -> (i64, u64) {
    (t.timestamp, t.ttl_remaining->0)
}

pub open spec fn change_view(c: BeneficiaryChange) -> (i64, Seq<char>, Seq<char>) {
    (c.timestamp, c.old_beneficiary@, c.new_beneficiary@)
}

/// The compliance report of `vault` for its history `h`, generated at `now`.
pub open spec fn is_compliance_report(r: ComplianceReport, vault: Vault, h: Seq<VaultEvent>, now: i64) -> bool {
    &&& r.vault_id == vault.id
    &&& r.owner == vault.owner
    &&& r.beneficiary == vault.beneficiary
    &&& r.report_generated_at == now
    &&& r.fund_movements@.map_values(|m: FundMovement| movement_view(m)) == movements(h)
    &&& forall|i: int| 0 <= i < r.fund_movements@.len() ==> #[trigger] r.fund_movements@[i].balance_after == vault.balance
    &&& r.ttl_history@.map_values(|t: TtlEvent| ttl_event_view(t)) == ttl_updates(h)
    &&& forall|i: int| 0 <= i < r.ttl_history@.len() ==> (#[trigger] r.ttl_history@[i]).event_type@ == "ttl_extended"@
        && r.ttl_history@[i].ttl_remaining is Some
    &&& r.beneficiary_changes@.map_values(|c: BeneficiaryChange| change_view(c)) == beneficiary_changes(h)
    &&& r.total_deposits == amount_total(h, EventType::Deposit)
    &&& r.total_withdrawals == amount_total(h, EventType::Withdrawal)
    &&& r.current_balance == vault.balance
}

proof fn lemma_total_bound(total: int, k: int, a: int)
    requires
        0 <= k < 0x1_0000_0000_0000_0000,
        -k * 0x8000_0000_0000_0000 <= total <= k * 0x8000_0000_0000_0000,
        -0x8000_0000_0000_0000 <= a < 0x8000_0000_0000_0000,
    ensures
        -(k + 1) * 0x8000_0000_0000_0000 <= total + a <= (k + 1) * 0x8000_0000_0000_0000,
        (k + 1) * 0x8000_0000_0000_0000 <= 0x8000_0000_0000_0000_0000_0000_0000_0000,
{
    assert((k + 1) * 0x8000_0000_0000_0000 <= 0x8000_0000_0000_0000_0000_0000_0000_0000) by (nonlinear_arith)
        requires 0 <= k < 0x1_0000_0000_0000_0000;
    assert(-(k + 1) * 0x8000_0000_0000_0000 == -k * 0x8000_0000_0000_0000 - 0x8000_0000_0000_0000) by (nonlinear_arith);
    assert((k + 1) * 0x8000_0000_0000_0000 == k * 0x8000_0000_0000_0000 + 0x8000_0000_0000_0000) by (nonlinear_arith);
}

/// The compliance report of `vault` for its history, generated at `now`:
/// its fund movements and their totals, its TTL updates and its beneficiary changes.
pub fn compliance_report_at(vault: &Vault, history: &Vec<VaultEvent>, now: i64) -> (r: ComplianceReport)
    ensures
        is_compliance_report(r, *vault, history@, now),
{
    let mut fund_movements: Vec<FundMovement> = Vec::new();
    let mut changes: Vec<BeneficiaryChange> = Vec::new();
    let mut ttl_history: Vec<TtlEvent> = Vec::new();
    let mut total_deposits: i128 = 0;
    let mut total_withdrawals: i128 = 0;
    let mut i: usize = 0;
    while i < history.len()
        invariant
            i <= history@.len(),
            fund_movements@.map_values(|m: FundMovement| movement_view(m)) == movements(history@.subrange(0, i as int)),
            forall|j: int| 0 <= j < fund_movements@.len() ==> #[trigger] fund_movements@[j].balance_after == vault.balance,
            ttl_history@.map_values(|t: TtlEvent| ttl_event_view(t)) == ttl_updates(history@.subrange(0, i as int)),
            forall|j: int| 0 <= j < ttl_history@.len() ==> (#[trigger] ttl_history@[j]).event_type@ == "ttl_extended"@
                && ttl_history@[j].ttl_remaining is Some,
            changes@.map_values(|c: BeneficiaryChange| change_view(c)) == beneficiary_changes(history@.subrange(0, i as int)),
            total_deposits == amount_total(history@.subrange(0, i as int), EventType::Deposit),
            total_withdrawals == amount_total(history@.subrange(0, i as int), EventType::Withdrawal),
            -i * 0x8000_0000_0000_0000 <= total_deposits <= i * 0x8000_0000_0000_0000,
            -i * 0x8000_0000_0000_0000 <= total_withdrawals <= i * 0x8000_0000_0000_0000,
        decreases history@.len() - i,
    {
        let ghost pre = history@.subrange(0, i as int);
        let ghost post = history@.subrange(0, i + 1);
        assert(post.drop_last() =~= pre);
        assert(post.last() == history@[i as int]);
        let ghost fm = fund_movements@;
        let ghost th = ttl_history@;
        let ghost bc = changes@;
        let e = &history[i];
        proof {
            lemma_total_bound(total_deposits as int, i as int, if e.data.amount is Some { e.data.amount->0 as int } else { 0 });
            lemma_total_bound(total_withdrawals as int, i as int, if e.data.amount is Some { e.data.amount->0 as int } else { 0 });
            lemma_total_bound(total_deposits as int, i as int, 0);
            lemma_total_bound(total_withdrawals as int, i as int, 0);
        }
        match e.event_type {
            EventType::Deposit => {
                if let Some(amount) = e.data.amount {
                    total_deposits = total_deposits + amount as i128;
                    fund_movements.push(FundMovement {
                        timestamp: e.timestamp,
                        movement_type: String::from_str("deposit"),
                        amount: amount as i128,
                        balance_after: vault.balance,
                    });
                    assert(fund_movements@.map_values(|m: FundMovement| movement_view(m))
                        =~= fm.map_values(|m: FundMovement| movement_view(m)).push((e.timestamp, "deposit"@, amount as int)));
                }
            }
            EventType::Withdrawal => {
                if let Some(amount) = e.data.amount {
                    total_withdrawals = total_withdrawals + amount as i128;
                    fund_movements.push(FundMovement {
                        timestamp: e.timestamp,
                        movement_type: String::from_str("withdrawal"),
                        amount: amount as i128,
                        balance_after: vault.balance,
                    });
                    assert(fund_movements@.map_values(|m: FundMovement| movement_view(m))
                        =~= fm.map_values(|m: FundMovement| movement_view(m)).push((e.timestamp, "withdrawal"@, amount as int)));
                }
            }
            EventType::TtlUpdate => {
                if let Some(ttl) = e.data.ttl_remaining {
                    ttl_history.push(TtlEvent {
                        timestamp: e.timestamp,
                        event_type: String::from_str("ttl_extended"),
                        ttl_remaining: Some(ttl),
                    });
                    assert(ttl_history@.map_values(|t: TtlEvent| ttl_event_view(t))
                        =~= th.map_values(|t: TtlEvent| ttl_event_view(t)).push((e.timestamp, ttl)));
                }
            }
            EventType::StatusChange => {
                match (&e.data.old_beneficiary, &e.data.new_beneficiary) {
                    (Some(old_ben), Some(new_ben)) => {
                        changes.push(BeneficiaryChange {
                            timestamp: e.timestamp,
                            old_beneficiary: old_ben.clone(),
                            new_beneficiary: new_ben.clone(),
                        });
                        assert(changes@.map_values(|c: BeneficiaryChange| change_view(c))
                            =~= bc.map_values(|c: BeneficiaryChange| change_view(c)).push((e.timestamp, old_ben@, new_ben@)));
                    }
                    _ => {}
                }
            }
            _ => {}
        }
        i = i + 1;
    }
    assert(history@.subrange(0, history@.len() as int) =~= history@);
    ComplianceReport {
        vault_id: vault.id.clone(),
        owner: vault.owner.clone(),
        beneficiary: vault.beneficiary.clone(),
        report_generated_at: now,
        fund_movements,
        beneficiary_changes: changes,
        ttl_history,
        total_deposits,
        total_withdrawals,
        current_balance: vault.balance,
    }
}

/// The compliance report of a stored vault, generated now.
pub fn generate_compliance_report(store: &VaultStore, event_store: &EventStore, vault_id: &str) -> (r: Result<ComplianceReport, String>)
    ensures
        match store.lookup(vault_id@) {
            None => r matches Err(e) && e@ == "Vault not found"@,
            Some(v) => r matches Ok(rep) && is_compliance_report(rep, v,
                event_store.events@.filter(|e: VaultEvent| e.vault_id@ == vault_id@), rep.report_generated_at),
        },
{
    let vault = match store.get(vault_id) {
        Some(v) => v,
        None => return Err(String::from_str("Vault not found")),
    };
    let history = get_vault_history(event_store, vault_id);
    let now = now_seconds();
    Ok(compliance_report_at(&vault, &history, now))
}

} // verus!
