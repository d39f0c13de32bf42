use vstd::prelude::*;

verus! {

/// Notification type sent to a device.
#[derive(Clone, Copy, Debug, PartialEq, Eq, Structural)]
pub enum NotificationType {
    ExpiryWarning,
    CheckInReminder,
    VaultReleased,
    VaultPaused,
}

/// Delivery status of a single notification attempt.
#[derive(Clone, Copy, Debug, PartialEq, Eq, Structural)]
pub enum DeliveryStatus {
    Pending,
    Sent,
    Failed,
    Retrying,
}

/// A single attempt entry within a reminder delivery log.
#[derive(Clone, Debug)]
pub struct DeliveryAttempt {
    pub attempt: u32,
    /// Unix time in seconds.
    pub attempted_at: i64,
    pub error: String,
}

/// Per-notification retry log, one per notification id.
#[derive(Clone, Debug)]
pub struct ReminderDeliveryLog {
    pub notification_id: String,
    pub vault_id: String,
    pub owner: String,
    pub status: DeliveryStatus,
    pub attempts: Vec<DeliveryAttempt>,
    /// When the next retry should fire (None if not retrying).
    pub next_retry_at: Option<i64>,
}

/// A registered device push token.
#[derive(Clone, Debug)]
pub struct DeviceToken {
    pub owner: String,
    pub token: String,
    /// "ios" | "android" | "web"
    pub platform: String,
    pub registered_at: i64,
}

/// Per-owner notification preferences.
#[derive(Clone, Debug)]
pub struct NotificationPreferences {
    pub owner: String,
    pub expiry_warning_enabled: bool,
    pub check_in_reminder_enabled: bool,
    pub vault_released_enabled: bool,
    /// Hours before expiry to send the warning (default 24).
    pub warning_hours_before: u64,
}

/// The preferences every owner starts with: all notifications on, warnings
/// 24 hours ahead.
pub open spec fn default_preferences(owner: Seq<char>, p: NotificationPreferences) -> bool {
    &&& p.owner@ == owner
    &&& p.expiry_warning_enabled
    &&& p.check_in_reminder_enabled
    &&& p.vault_released_enabled
    &&& p.warning_hours_before == 24
}

impl Default for NotificationPreferences {
    fn default() -> (r: Self)
        ensures
            default_preferences(Seq::empty(), r),
    {
        NotificationPreferences {
            owner: String::new(),
            expiry_warning_enabled: true,
            check_in_reminder_enabled: true,
            vault_released_enabled: true,
            warning_hours_before: 24,
        }
    }
}

impl NotificationPreferences {
    /// The default preferences of `owner`.
    pub fn default_for(owner: String) -> (r: Self)
        ensures
            default_preferences(owner@, r),
    {
        NotificationPreferences {
            owner,
            expiry_warning_enabled: true,
            check_in_reminder_enabled: true,
            vault_released_enabled: true,
            warning_hours_before: 24,
        }
    }

    /// A copy of these preferences.
    pub fn duplicate(&self) -> (r: Self)
        ensures
            r == *self,
    {
        NotificationPreferences {
            owner: self.owner.clone(),
            expiry_warning_enabled: self.expiry_warning_enabled,
            check_in_reminder_enabled: self.check_in_reminder_enabled,
            vault_released_enabled: self.vault_released_enabled,
            warning_hours_before: self.warning_hours_before,
        }
    }
}

/// A scheduled notification (pending delivery).
#[derive(Clone, Debug)]
pub struct ScheduledNotification {
    pub id: String,
    pub vault_id: String,
    pub owner: String,
    pub notification_type: NotificationType,
    /// Unix time in seconds when this should fire.
    pub scheduled_at: i64,
    pub status: DeliveryStatus,
}

/// Delivery record written after each send attempt.
#[derive(Clone, Debug)]
pub struct DeliveryRecord {
    pub notification_id: String,
    pub vault_id: String,
    pub owner: String,
    pub notification_type: NotificationType,
    pub status: DeliveryStatus,
    pub sent_at: i64,
    /// The push provider's message id on success, the error on failure.
    pub provider_response: String,
}

/// Request body for registering a device token.
#[derive(Debug)]
pub struct RegisterTokenRequest {
    pub owner: String,
    pub token: String,
    pub platform: String,
}

/// Request body for updating preferences; absent fields stay unchanged.
#[derive(Debug)]
pub struct UpdatePreferencesRequest {
    pub owner: String,
    pub expiry_warning_enabled: Option<bool>,
    pub check_in_reminder_enabled: Option<bool>,
    pub vault_released_enabled: Option<bool>,
    pub warning_hours_before: Option<u64>,
}

/// A vault as the backend tracks it.
#[derive(Clone, Debug)]
pub struct Vault {
    pub id: String,
    pub owner: String,
    pub beneficiary: String,
    pub balance: i128,
    pub check_in_interval: u64,
    /// Unix time in seconds.
    pub last_check_in: i64,
    /// Unix time in seconds.
    pub created_at: i64,
    pub status: VaultStatus,
    pub ttl_remaining: Option<u64>,
}

#[derive(Clone, Copy, Debug, PartialEq, Eq, Structural)]
pub enum VaultStatus {
    Active,
    Expired,
    Released,
    Paused,
}

#[derive(Clone, Copy, Debug, PartialEq, Eq, Structural)]
pub enum EventType {
    CheckIn,
    TtlUpdate,
    StatusChange,
    Deposit,
    Withdrawal,
    Release,
}

/// The fields of an event's data that reports read.
#[derive(Clone, Debug)]
pub struct EventData {
    pub amount: Option<i64>,
    pub ttl_remaining: Option<u64>,
    pub old_beneficiary: Option<String>,
    pub new_beneficiary: Option<String>,
}

/// An event in a vault's history.
#[derive(Clone, Debug)]
pub struct VaultEvent {
    pub vault_id: String,
    pub event_type: EventType,
    pub timestamp: i64,
    pub data: EventData,
}

#[derive(Debug)]
pub struct ComparisonResult {
    pub vaults: Vec<Vault>,
}

#[derive(Debug)]
pub struct ComplianceReport {
    pub vault_id: String,
    pub owner: String,
    pub beneficiary: String,
    pub report_generated_at: i64,
    pub fund_movements: Vec<FundMovement>,
    pub beneficiary_changes: Vec<BeneficiaryChange>,
    pub ttl_history: Vec<TtlEvent>,
    pub total_deposits: i128,
    pub total_withdrawals: i128,
    pub current_balance: i128,
}

#[derive(Debug)]
pub struct FundMovement {
    pub timestamp: i64,
    /// "deposit" or "withdrawal".
    pub movement_type: String,
    pub amount: i128,
    pub balance_after: i128,
}

#[derive(Debug)]
pub struct BeneficiaryChange {
    pub timestamp: i64,
    pub old_beneficiary: String,
    pub new_beneficiary: String,
}

#[derive(Debug)]
pub struct TtlEvent {
    pub timestamp: i64,
    pub event_type: String,
    pub ttl_remaining: Option<u64>,
}

#[derive(Clone, Debug)]
pub struct VaultTemplate {
    pub id: String,
    pub name: String,
    pub description: String,
    pub check_in_interval: u64,
    pub recommended_for: String,
}

#[derive(Debug)]
pub struct VaultTemplateList {
    pub templates: Vec<VaultTemplate>,
}

#[derive(Debug)]
pub struct CreateVaultFromTemplate {
    pub template_id: String,
    pub owner: String,
    pub beneficiary: String,
}

#[derive(Debug)]
pub struct TimeSeriesPoint {
    /// ISO-8601 date (YYYY-MM-DD).
    pub date: String,
    pub vaults_created: u64,
    pub vaults_released: u64,
}

/// A stored backup of a vault.
#[derive(Clone, Debug)]
pub struct VaultBackup {
    pub backup_id: String,
    pub vault_id: String,
    pub created_at: i64,
    /// The vault's serialized state, base64-encoded.
    pub encrypted_payload: String,
}

#[derive(Debug)]
pub struct RestoreRequest {
    pub backup_id: String,
    /// The key used during backup (base64-encoded 32-byte key).
    pub encryption_key: String,
}

#[derive(Clone, Copy, Debug, PartialEq, Eq, Structural)]
pub enum SharePermission {
    ViewOnly,
    Edit,
    Admin,
}

#[derive(Clone, Debug)]
pub struct VaultShare {
    pub share_id: String,
    pub vault_id: String,
    /// Address or email.
    pub shared_with: String,
    pub permission: SharePermission,
    pub created_at: i64,
}

#[derive(Debug)]
pub struct ShareRequest {
    pub shared_with: String,
    pub permission: SharePermission,
}

#[derive(Clone, Copy, Debug, PartialEq, Eq, Structural)]
pub enum NotificationChannel {
    Email,
    Sms,
    Push,
}

#[derive(Clone, Copy, Debug, PartialEq, Eq, Structural)]
pub enum NotificationFrequency {
    Daily,
    Weekly,
    Monthly,
}

/// Reminder preferences of a vault.
#[derive(Clone, Debug)]
pub struct ReminderPreferences {
    pub vault_id: u64,
    pub channels: Vec<Channel>,
    pub hours_before_expiry: u32,
    pub frequency: Frequency,
}

#[derive(Clone, Debug)]
pub struct SetPreferencesRequest {
    pub channels: Vec<Channel>,
    pub hours_before_expiry: u32,
    pub frequency: Frequency,
}

#[derive(Clone, Copy, Debug, PartialEq, Eq, Structural)]
pub enum Channel {
    Email,
    Sms,
    Push,
}

#[derive(Clone, Copy, Debug, PartialEq, Eq, Structural)]
pub enum Frequency {
    Once,
    Daily,
    Weekly,
    Hourly,
    Monthly,
}

#[derive(Debug)]
pub struct NotificationPreferencesRequest {
    pub channels: Vec<NotificationChannel>,
    pub frequency: NotificationFrequency,
}

} // verus!

verus! {

/// A copy of an optional string.
pub fn copy_opt_string(s: &Option<String>) -> (r: Option<String>)
    ensures
        r == *s,
{
    match s {
        Some(x) => Some(x.clone()),
        None => None,
    }
}

impl Vault {
    /// A copy of this vault.
    pub fn duplicate(&self) -> (r: Self)
        ensures
            r == *self,
    {
        Vault {
            id: self.id.clone(),
            owner: self.owner.clone(),
            beneficiary: self.beneficiary.clone(),
            balance: self.balance,
            check_in_interval: self.check_in_interval,
            last_check_in: self.last_check_in,
            created_at: self.created_at,
            status: self.status,
            ttl_remaining: self.ttl_remaining,
        }
    }
}

impl VaultEvent {
    /// A copy of this event.
    pub fn duplicate(&self) -> (r: Self)
        ensures
            r == *self,
    {
        VaultEvent {
            vault_id: self.vault_id.clone(),
            event_type: self.event_type,
            timestamp: self.timestamp,
            data: EventData {
                amount: self.data.amount,
                ttl_remaining: self.data.ttl_remaining,
                old_beneficiary: copy_opt_string(&self.data.old_beneficiary),
                new_beneficiary: copy_opt_string(&self.data.new_beneficiary),
            },
        }
    }
}

impl VaultBackup {
    /// A copy of this backup.
    pub fn duplicate(&self) -> (r: Self)
        ensures
            r == *self,
    {
        VaultBackup {
            backup_id: self.backup_id.clone(),
            vault_id: self.vault_id.clone(),
            created_at: self.created_at,
            encrypted_payload: self.encrypted_payload.clone(),
        }
    }
}

impl VaultShare {
    /// A copy of this share.
    pub fn duplicate(&self) -> (r: Self)
        ensures
            r == *self,
    {
        VaultShare {
            share_id: self.share_id.clone(),
            vault_id: self.vault_id.clone(),
            shared_with: self.shared_with.clone(),
            permission: self.permission,
            created_at: self.created_at,
        }
    }
}

impl DeviceToken {
    /// A copy of this token.
    pub fn duplicate(&self) -> (r: Self)
        ensures
            r == *self,
    {
        DeviceToken {
            owner: self.owner.clone(),
            token: self.token.clone(),
            platform: self.platform.clone(),
            registered_at: self.registered_at,
        }
    }
}

impl ScheduledNotification {
    /// A copy of this notification.
    pub fn duplicate(&self) -> (r: Self)
        ensures
            r == *self,
    {
        ScheduledNotification {
            id: self.id.clone(),
            vault_id: self.vault_id.clone(),
            owner: self.owner.clone(),
            notification_type: self.notification_type,
            scheduled_at: self.scheduled_at,
            status: self.status,
        }
    }
}

impl DeliveryRecord {
    /// A copy of this record.
    pub fn duplicate(&self) -> (r: Self)
        ensures
            r == *self,
    {
        DeliveryRecord {
            notification_id: self.notification_id.clone(),
            vault_id: self.vault_id.clone(),
            owner: self.owner.clone(),
            notification_type: self.notification_type,
            status: self.status,
            sent_at: self.sent_at,
            provider_response: self.provider_response.clone(),
        }
    }
}

impl DeliveryAttempt {
    /// A copy of this attempt.
    pub fn duplicate(&self) -> (r: Self)
        ensures
            r == *self,
    {
        DeliveryAttempt { attempt: self.attempt, attempted_at: self.attempted_at, error: self.error.clone() }
    }
}

impl ReminderDeliveryLog {
    /// A copy of this log.
    pub fn duplicate(&self) -> (r: Self)
        ensures
            r.notification_id == self.notification_id,
            r.vault_id == self.vault_id,
            r.owner == self.owner,
            r.status == self.status,
            r.attempts@ == self.attempts@,
            r.next_retry_at == self.next_retry_at,
    {
        let mut attempts: Vec<DeliveryAttempt> = Vec::new();
        let mut i: usize = 0;
        while i < self.attempts.len()
            invariant
                i <= self.attempts@.len(),
                attempts@ == self.attempts@.subrange(0, i as int),
            decreases self.attempts@.len() - i,
        {
            attempts.push(self.attempts[i].duplicate());
            i = i + 1;
        }
        assert(self.attempts@.subrange(0, self.attempts@.len() as int) =~= self.attempts@);
        ReminderDeliveryLog {
            notification_id: self.notification_id.clone(),
            vault_id: self.vault_id.clone(),
            owner: self.owner.clone(),
            status: self.status,
            attempts,
            next_retry_at: self.next_retry_at,
        }
    }
}

} // verus!
