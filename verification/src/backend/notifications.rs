use vstd::prelude::*;
use crate::backend::models::{
    default_preferences, DeliveryAttempt, DeliveryRecord, DeliveryStatus, DeviceToken,
    NotificationPreferences, NotificationType, RegisterTokenRequest, ReminderDeliveryLog,
    ScheduledNotification, UpdatePreferencesRequest, Vault,
};
use crate::backend::store::{create_prefs_store, lemma_filter_step, PrefsStore};
use crate::backend::text::{decimal_chars, decimal_string, new_id, now_seconds};

verus! {

/// Backoff delays in seconds before each retry: 1 min, 5 min, 15 min, 1 h, 6 h.
pub const RETRY_DELAYS_SECS: [u64; 5] = [60, 300, 900, 3_600, 21_600];

/// The delay before the retry that follows failed attempt `n` (0 for the first
/// try): 1 min, 5 min, 15 min, 1 h, then 6 h.
pub open spec fn retry_delay(n: int) -> u64 {
    if n == 0 { 60 } else if n == 1 { 300 } else if n == 2 { 900 } else if n == 3 { 3_600 } else { 21_600 }
}

/// The response recorded when an owner has no device to notify.
pub open spec fn no_tokens_message() -> Seq<char> {
    "no_tokens_registered"@
}

// ---------------------------------------------------------------------------
// Notification content

/// What a notification says: its title, its body, and the kind and vault
/// that go into its data payload.
#[derive(Debug)]
pub struct NotificationContent {
    pub title: String,
    pub body: String,
    pub kind: String,
    pub vault_id: String,
}

/// The body of an expiry warning for a vault expiring in about `hours` hours.
pub open spec fn expiry_warning_body(hours: u64) -> Seq<char> {
    "Your vault expires in ~"@ + decimal_chars(hours as nat) + "h. Check in now to keep it active."@
}

/// Title, body and data kind of each notification type.
pub open spec fn content_of(t: NotificationType, ttl_hours: Option<u64>) -> (Seq<char>, Seq<char>, Seq<char>) {
    match t {
        NotificationType::ExpiryWarning => ("⚠️ Vault Expiring Soon"@, expiry_warning_body(
            match ttl_hours { Some(h) => h, None => 24 }), "expiry_warning"@),
        NotificationType::CheckInReminder => ("🔔 Check-In Reminder"@, "Time to check in to your TTL-Legacy vault."@, "check_in_reminder"@),
        NotificationType::VaultReleased => ("🔓 Vault Released"@, "Your vault has been released to the beneficiary."@, "vault_released"@),
        NotificationType::VaultPaused => ("⏸ Vault Paused"@, "Your vault has been paused."@, "vault_paused"@),
    }
}

/// The content of a notification of type `t` about `vault_id`; expiry warnings
/// mention `ttl_hours` (24 when absent).
pub fn notification_content(notification_type: &NotificationType, vault_id: &str, ttl_hours: Option<u64>) -> (r: NotificationContent)
    ensures
        (r.title@, r.body@, r.kind@) == content_of(*notification_type, ttl_hours),
        r.vault_id@ == vault_id@,
{
    match notification_type {
        NotificationType::ExpiryWarning => {
            let hours = match ttl_hours {
                Some(h) => h,
                None => 24,
            };
            let mut body = String::from_str("Your vault expires in ~");
            let digits = decimal_string(hours);
            body.append(digits.as_str());
            body.append("h. Check in now to keep it active.");
            NotificationContent {
                title: String::from_str("⚠️ Vault Expiring Soon"),
                body,
                kind: String::from_str("expiry_warning"),
                vault_id: vault_id.to_owned(),
            }
        }
        NotificationType::CheckInReminder => NotificationContent {
            title: String::from_str("🔔 Check-In Reminder"),
            body: String::from_str("Time to check in to your TTL-Legacy vault."),
            kind: String::from_str("check_in_reminder"),
            vault_id: vault_id.to_owned(),
        },
        NotificationType::VaultReleased => NotificationContent {
            title: String::from_str("🔓 Vault Released"),
            body: String::from_str("Your vault has been released to the beneficiary."),
            kind: String::from_str("vault_released"),
            vault_id: vault_id.to_owned(),
        },
        NotificationType::VaultPaused => NotificationContent {
            title: String::from_str("⏸ Vault Paused"),
            body: String::from_str("Your vault has been paused."),
            kind: String::from_str("vault_paused"),
            vault_id: vault_id.to_owned(),
        },
    }
}

// ---------------------------------------------------------------------------
// Stores

/// Registered device tokens of all owners, in registration order.
pub struct TokenStore {
    pub tokens: Vec<DeviceToken>,
}

/// Scheduled notifications, in scheduling order.
pub struct ScheduleStore {
    pub items: Vec<ScheduledNotification>,
}

/// Delivery records, in the order they were written.
pub struct DeliveryStore {
    pub records: Vec<DeliveryRecord>,
}

/// Retry logs, at most one per notification id.
pub struct RetryStore {
    pub logs: Vec<ReminderDeliveryLog>,
}

pub fn create_token_store() -> (r: TokenStore)
    ensures
        r.tokens@.len() == 0,
{
    TokenStore { tokens: Vec::new() }
}

pub fn create_schedule_store() -> (r: ScheduleStore)
    ensures
        r.items@.len() == 0,
{
    ScheduleStore { items: Vec::new() }
}

pub fn create_delivery_store() -> (r: DeliveryStore)
    ensures
        r.records@.len() == 0,
{
    DeliveryStore { records: Vec::new() }
}

pub fn create_retry_store() -> (r: RetryStore)
    ensures
        r.logs@.len() == 0,
{
    RetryStore { logs: Vec::new() }
}

/// A delivery attempt as plain values: its number, time and error.
pub open spec fn attempt_view(a: DeliveryAttempt) -> (u32, i64, Seq<char>) {
    (a.attempt, a.attempted_at, a.error@)
}

/// A retry log as plain values: notification id, vault id, owner, status,
/// attempts and next retry time.
pub type LogView = (Seq<char>, Seq<char>, Seq<char>, DeliveryStatus, Seq<(u32, i64, Seq<char>)>, Option<i64>);

pub open spec fn log_view(l: ReminderDeliveryLog) -> LogView {
    (l.notification_id@, l.vault_id@, l.owner@, l.status, l.attempts@.map_values(|a: DeliveryAttempt| attempt_view(a)), l.next_retry_at)
}

pub open spec fn logs_view(s: Seq<ReminderDeliveryLog>) -> Seq<LogView> {
    s.map_values(|l: ReminderDeliveryLog| log_view(l))
}

/// The index of the first element of `s` satisfying `p`, if any.
pub open spec fn first_index<A>(s: Seq<A>, p: spec_fn(A) -> bool) -> Option<int> {
    if exists|i: int| 0 <= i < s.len() && p(s[i]) {
        Some(choose|i: int| 0 <= i < s.len() && p(s[i]) && forall|j: int| 0 <= j < i ==> !p(s[j]))
    } else {
        None
    }
}

/// The notification service's state: device tokens, preferences, the
/// schedule, delivery records and retry logs. Sending goes through the
/// caller, which hands the outcome of each send back.
pub struct NotificationService {
    pub tokens: TokenStore,
    pub prefs: PrefsStore,
    pub schedule: ScheduleStore,
    pub delivery: DeliveryStore,
    pub retry_log: RetryStore,
}

/// The tokens registered by `owner`.
pub open spec fn tokens_of(s: Seq<DeviceToken>, owner: Seq<char>) -> Seq<DeviceToken> {
    s.filter(|t: DeviceToken| t.owner@ == owner)
}

/// The delivery records of `owner`.
pub open spec fn records_of(s: Seq<DeliveryRecord>, owner: Seq<char>) -> Seq<DeliveryRecord> {
    s.filter(|r: DeliveryRecord| r.owner@ == owner)
}

/// The preferences an owner has: the stored ones, or the defaults.
pub open spec fn effective_preferences(store: PrefsStore, owner: Seq<char>, p: NotificationPreferences) -> bool {
    match store.lookup(owner) {
        Some(q) => p == q,
        None => default_preferences(owner, p),
    }
}

/// Whether a notification is an expiry warning for `vault_id` still pending.
pub open spec fn pending_warning_for(n: ScheduledNotification, vault_id: Seq<char>) -> bool {
    n.vault_id@ == vault_id && n.notification_type == NotificationType::ExpiryWarning && n.status == DeliveryStatus::Pending
}

/// Whether the owner's preferences `p` want an immediate notification of type `t`.
pub open spec fn immediate_enabled(p: NotificationPreferences, t: NotificationType) -> bool {
    match t {
        NotificationType::VaultReleased => p.vault_released_enabled,
        NotificationType::CheckInReminder => p.check_in_reminder_enabled,
        _ => true,
    }
}

/// Whether `owner`'s preferences (stored or default) want an immediate
/// notification of type `t`.
pub open spec fn owner_wants(store: PrefsStore, owner: Seq<char>, t: NotificationType) -> bool {
    match store.lookup(owner) {
        Some(q) => immediate_enabled(q, t),
        None => true,
    }
}

/// The pending notifications due at `now`, in scheduling order.
pub open spec fn due_notifications(items: Seq<ScheduledNotification>, now: i64) -> Seq<ScheduledNotification> {
    items.filter(|n: ScheduledNotification| is_due(n, now))
}

/// Whether a notification is due at `now`.
pub open spec fn is_due(n: ScheduledNotification, now: i64) -> bool {
    n.status == DeliveryStatus::Pending && n.scheduled_at <= now
}


/// The largest second count that a schedule offset may take.
pub const MAX_OFFSET_SECS: u64 = 9_223_372_036_854_775;

/// A record of a delivery attempt as plain values.
pub open spec fn record_view(r: DeliveryRecord) -> (Seq<char>, Seq<char>, Seq<char>, NotificationType, DeliveryStatus, i64, Seq<char>) {
    (r.notification_id@, r.vault_id@, r.owner@, r.notification_type, r.status, r.sent_at, r.provider_response@)
}

/// The record written for a notification.
pub open spec fn record_for(n: ScheduledNotification, status: DeliveryStatus, response: Seq<char>, now: i64) -> (Seq<char>, Seq<char>, Seq<char>, NotificationType, DeliveryStatus, i64, Seq<char>) {
    (n.id@, n.vault_id@, n.owner@, n.notification_type, status, now, response)
}

pub open spec fn records_view(s: Seq<DeliveryRecord>) -> Seq<(Seq<char>, Seq<char>, Seq<char>, NotificationType, DeliveryStatus, i64, Seq<char>)> {
    s.map_values(|r: DeliveryRecord| record_view(r))
}

/// Whether some send succeeded.
pub open spec fn any_sent(sends: Seq<Result<String, String>>) -> bool {
    exists|i: int| 0 <= i < sends.len() && sends[i] is Ok
}

/// The error of the last failed send, or nothing if none failed.
pub open spec fn last_error(sends: Seq<Result<String, String>>) -> Seq<char>
    decreases sends.len(),
{
    if sends.len() == 0 {
        Seq::empty()
    } else {
        match sends.last() {
            Err(e) => e@,
            Ok(_) => last_error(sends.drop_last()),
        }
    }
}

/// A record for every successful send, in order.
pub open spec fn sent_records(n: ScheduledNotification, sends: Seq<Result<String, String>>, now: i64) -> Seq<(Seq<char>, Seq<char>, Seq<char>, NotificationType, DeliveryStatus, i64, Seq<char>)>
    decreases sends.len(),
{
    if sends.len() == 0 {
        Seq::empty()
    } else {
        let prev = sent_records(n, sends.drop_last(), now);
        match sends.last() {
            Ok(id) => prev.push(record_for(n, DeliveryStatus::Sent, id@, now)),
            Err(_) => prev,
        }
    }
}

/// The status a notification ends in after attempt `attempt` with these sends:
/// sent if any send succeeded; otherwise retrying while retries are left (the
/// first try and five retries), else failed.
pub open spec fn outcome_status(sends: Seq<Result<String, String>>, attempt: u32) -> DeliveryStatus {
    if sends.len() == 0 {
        DeliveryStatus::Failed
    } else if any_sent(sends) {
        DeliveryStatus::Sent
    } else if attempt < 5 {
        DeliveryStatus::Retrying
    } else {
        DeliveryStatus::Failed
    }
}

/// The error noted in the retry log for the attempt.
pub open spec fn outcome_error(sends: Seq<Result<String, String>>) -> Seq<char> {
    if sends.len() == 0 {
        no_tokens_message()
    } else if any_sent(sends) {
        Seq::empty()
    } else {
        last_error(sends)
    }
}

/// When the next retry fires, if one is scheduled.
pub open spec fn outcome_next_retry(sends: Seq<Result<String, String>>, attempt: u32, now: i64) -> Option<i64> {
    if outcome_status(sends, attempt) == DeliveryStatus::Retrying {
        Some((now + retry_delay(attempt as int)) as i64)
    } else {
        None
    }
}

/// The records a delivery writes.
pub open spec fn outcome_records(n: ScheduledNotification, sends: Seq<Result<String, String>>, attempt: u32, now: i64) -> Seq<(Seq<char>, Seq<char>, Seq<char>, NotificationType, DeliveryStatus, i64, Seq<char>)> {
    if sends.len() == 0 {
        seq![record_for(n, DeliveryStatus::Failed, no_tokens_message(), now)]
    } else if any_sent(sends) {
        sent_records(n, sends, now)
    } else {
        sent_records(n, sends, now).push(record_for(n, outcome_status(sends, attempt), last_error(sends), now))
    }
}

/// The schedule with the first notification of id `id` given status `status`.
pub open spec fn schedule_marked(items: Seq<ScheduledNotification>, id: Seq<char>, status: DeliveryStatus) -> Seq<ScheduledNotification> {
    match first_index(items, |n: ScheduledNotification| n.id@ == id) {
        Some(k) => items.update(k, ScheduledNotification { status, ..items[k] }),
        None => items,
    }
}

/// The retry logs after noting an attempt for notification `n`.
pub open spec fn logs_noted(
    logs: Seq<ReminderDeliveryLog>,
    n: ScheduledNotification,
    attempt: u32,
    status: DeliveryStatus,
    error: Seq<char>,
    next: Option<i64>,
    now: i64,
) -> Seq<LogView> {
    let views = logs_view(logs);
    match first_index(logs, |l: ReminderDeliveryLog| l.notification_id@ == n.id@) {
        Some(k) => views.update(k, (views[k].0, views[k].1, views[k].2, status, views[k].4.push((attempt, now, error)), next)),
        None => views.push((n.id@, n.vault_id@, n.owner@, status, seq![(attempt, now, error)], next)),
    }
}



/// The time of a log's last attempt, if it has any.
pub open spec fn last_attempt_time(l: ReminderDeliveryLog) -> Option<i64> {
    if l.attempts@.len() == 0 { None } else { Some(l.attempts@.last().attempted_at) }
}

/// The order of optional times: no time comes before every time.
pub open spec fn time_le(a: Option<i64>, b: Option<i64>) -> bool {
    match (a, b) {
        (None, _) => true,
        (Some(_), None) => false,
        (Some(x), Some(y)) => x <= y,
    }
}

/// The retries due at `now`: for each retrying log whose retry time has come,
/// in log order, its scheduled notification (if it is still scheduled) and
/// the number of attempts made so far.
pub open spec fn retries_due(logs: Seq<ReminderDeliveryLog>, items: Seq<ScheduledNotification>, now: i64) -> Seq<(ScheduledNotification, u32)>
    decreases logs.len(),
{
    if logs.len() == 0 {
        Seq::empty()
    } else {
        let prev = retries_due(logs.drop_last(), items, now);
        let l = logs.last();
        if l.status == DeliveryStatus::Retrying && l.next_retry_at is Some && l.next_retry_at->0 <= now {
            match first_index(items, |n: ScheduledNotification| n.id@ == l.notification_id@) {
                Some(k) => prev.push((items[k], l.attempts@.len() as u32)),
                None => prev,
            }
        } else {
            prev
        }
    }
}

/// The first index is the one that passes with none passing before it.
pub proof fn lemma_first_index<A>(s: Seq<A>, p: spec_fn(A) -> bool, j: int)
    requires
        0 <= j < s.len(),
        p(s[j]),
        forall|i: int| 0 <= i < j ==> !p(s[i]),
    ensures
        first_index(s, p) == Some(j),
{
    assert(exists|i: int| 0 <= i < s.len() && p(s[i]));
    let c = choose|i: int| 0 <= i < s.len() && p(s[i]) && forall|k: int| 0 <= k < i ==> !p(s[k]);
    assert(0 <= j < s.len() && p(s[j]) && forall|k: int| 0 <= k < j ==> !p(s[k]));
    if c < j {
        assert(!p(s[c]));
    }
    if c > j {
        assert(!p(s[j]));
    }
}

/// With no element passing there is no first index.
pub proof fn lemma_first_index_none<A>(s: Seq<A>, p: spec_fn(A) -> bool)
    requires
        forall|i: int| 0 <= i < s.len() ==> !p(s[i]),
    ensures
        first_index(s, p) is None,
{
}

/// The schedule `s1` is `s0` after scheduling an expiry warning for `vault`
/// as notification `id` at time `now`: a pending warning fires
/// `warning_hours_before` hours before the vault expires, unless the owner
/// turned warnings off, the vault has no time left, the warning time has
/// passed, or a warning for the vault is already pending.
pub open spec fn warning_scheduled(prefs: PrefsStore, s0: Seq<ScheduledNotification>, s1: Seq<ScheduledNotification>, vault: Vault, id: Seq<char>, now: i64) -> bool {
    exists|p: NotificationPreferences| effective_preferences(prefs, vault.owner@, p) && {
        if p.expiry_warning_enabled && vault.ttl_remaining is Some
            && vault.ttl_remaining->0 > p.warning_hours_before * 3600
            && !(exists|i: int| 0 <= i < s0.len() && pending_warning_for(#[trigger] s0[i], vault.id@)) {
            &&& s1.len() == s0.len() + 1
            &&& s1.drop_last() == s0
            &&& s1.last().id@ == id
            &&& s1.last().vault_id == vault.id
            &&& s1.last().owner == vault.owner
            &&& s1.last().notification_type == NotificationType::ExpiryWarning
            &&& s1.last().scheduled_at == now + (vault.ttl_remaining->0 - p.warning_hours_before * 3600)
            &&& s1.last().status == DeliveryStatus::Pending
        } else {
            s1 == s0
        }
    }
}

impl NotificationService {
    pub fn new(tokens: TokenStore, prefs: PrefsStore, schedule: ScheduleStore, delivery: DeliveryStore) -> (r: Self)
        ensures
            r.tokens == tokens,
            r.prefs == prefs,
            r.schedule == schedule,
            r.delivery == delivery,
            r.retry_log.logs@.len() == 0,
    {
        NotificationService { tokens, prefs, schedule, delivery, retry_log: create_retry_store() }
    }

    // -- Tokens ---------------------------------------------------------------

    /// Registers a device token for an owner at `now`, unless the owner already
    /// has that token.
    pub fn register_token_at(&mut self, req: RegisterTokenRequest, now: i64)
        ensures
            final(self).prefs == old(self).prefs,
            final(self).schedule == old(self).schedule,
            final(self).delivery == old(self).delivery,
            final(self).retry_log == old(self).retry_log,
            (exists|i: int| 0 <= i < old(self).tokens.tokens@.len()
                && (#[trigger] old(self).tokens.tokens@[i]).owner@ == req.owner@ && old(self).tokens.tokens@[i].token@ == req.token@)
                ==> final(self).tokens.tokens@ == old(self).tokens.tokens@,
            !(exists|i: int| 0 <= i < old(self).tokens.tokens@.len()
                && (#[trigger] old(self).tokens.tokens@[i]).owner@ == req.owner@ && old(self).tokens.tokens@[i].token@ == req.token@)
                ==> final(self).tokens.tokens@ == old(self).tokens.tokens@.push(DeviceToken {
                    owner: req.owner, token: req.token, platform: req.platform, registered_at: now }),
    {
        let s = &self.tokens.tokens;
        let mut i: usize = 0;
        while i < s.len()
            invariant
                i <= s@.len(),
                s@ == old(self).tokens.tokens@,
                forall|j: int| 0 <= j < i ==> !((#[trigger] s@[j]).owner@ == req.owner@ && s@[j].token@ == req.token@),
            decreases s@.len() - i,
        {
            if s[i].owner == req.owner && s[i].token == req.token {
                return;
            }
            i = i + 1;
        }
        self.tokens.tokens.push(DeviceToken { owner: req.owner, token: req.token, platform: req.platform, registered_at: now });
    }

    /// Registers a device token for an owner, unless the owner already has it.
    pub fn register_token(&mut self, req: RegisterTokenRequest)
        ensures
            final(self).prefs == old(self).prefs,
            final(self).schedule == old(self).schedule,
            final(self).delivery == old(self).delivery,
            final(self).retry_log == old(self).retry_log,
            (exists|i: int| 0 <= i < old(self).tokens.tokens@.len()
                && (#[trigger] old(self).tokens.tokens@[i]).owner@ == req.owner@ && old(self).tokens.tokens@[i].token@ == req.token@)
                ==> final(self).tokens.tokens@ == old(self).tokens.tokens@,
            !(exists|i: int| 0 <= i < old(self).tokens.tokens@.len()
                && (#[trigger] old(self).tokens.tokens@[i]).owner@ == req.owner@ && old(self).tokens.tokens@[i].token@ == req.token@)
                ==> (final(self).tokens.tokens@ == old(self).tokens.tokens@.push(final(self).tokens.tokens@.last())
                    && final(self).tokens.tokens@.last().owner == req.owner
                    && final(self).tokens.tokens@.last().token == req.token
                    && final(self).tokens.tokens@.last().platform == req.platform),
    {
        let now = now_seconds();
        self.register_token_at(req, now);
    }

    /// Removes an owner's device token.
    pub fn unregister_token(&mut self, owner: &str, token: &str)
        ensures
            final(self).prefs == old(self).prefs,
            final(self).schedule == old(self).schedule,
            final(self).delivery == old(self).delivery,
            final(self).retry_log == old(self).retry_log,
            final(self).tokens.tokens@ == old(self).tokens.tokens@.filter(|t: DeviceToken| !(t.owner@ == owner@ && t.token@ == token@)),
    {
        let o = owner.to_owned();
        let k = token.to_owned();
        let mut kept: Vec<DeviceToken> = Vec::new();
        let s = &self.tokens.tokens;
        let mut i: usize = 0;
        while i < s.len()
            invariant
                i <= s@.len(),
                s@ == old(self).tokens.tokens@,
                o@ == owner@,
                k@ == token@,
                kept@ == s@.subrange(0, i as int).filter(|t: DeviceToken| !(t.owner@ == owner@ && t.token@ == token@)),
            decreases s@.len() - i,
        {
            proof { lemma_filter_step(s@, i as int, |t: DeviceToken| !(t.owner@ == owner@ && t.token@ == token@)); }
            if !(s[i].owner == o && s[i].token == k) {
                kept.push(s[i].duplicate());
            }
            i = i + 1;
        }
        assert(s@.subrange(0, s@.len() as int) =~= s@);
        self.tokens.tokens = kept;
    }

    /// The device tokens of an owner, in registration order.
    pub fn get_tokens(&self, owner: &str) -> (r: Vec<DeviceToken>)
        ensures
            r@ == tokens_of(self.tokens.tokens@, owner@),
    {
        let o = owner.to_owned();
        let s = &self.tokens.tokens;
        let mut r: Vec<DeviceToken> = Vec::new();
        let mut i: usize = 0;
        while i < s.len()
            invariant
                i <= s@.len(),
                s@ == self.tokens.tokens@,
                o@ == owner@,
                r@ == s@.subrange(0, i as int).filter(|t: DeviceToken| t.owner@ == owner@),
            decreases s@.len() - i,
        {
            proof { lemma_filter_step(s@, i as int, |t: DeviceToken| t.owner@ == owner@); }
            if s[i].owner == o {
                r.push(s[i].duplicate());
            }
            i = i + 1;
        }
        assert(s@.subrange(0, s@.len() as int) =~= s@);
        r
    }

    // -- Preferences ----------------------------------------------------------

    /// An owner's preferences: the stored ones, or the defaults.
    pub fn get_preferences(&self, owner: &str) -> (r: NotificationPreferences)
        ensures
            effective_preferences(self.prefs, owner@, r),
    {
        match self.prefs.get(owner) {
            Some(p) => p,
            None => NotificationPreferences::default_for(owner.to_owned()),
        }
    }

    /// Updates the fields of an owner's preferences that the request sets,
    /// starting from the defaults if none are stored.
    pub fn update_preferences(&mut self, req: UpdatePreferencesRequest)
        ensures
            final(self).tokens == old(self).tokens,
            final(self).schedule == old(self).schedule,
            final(self).delivery == old(self).delivery,
            final(self).retry_log == old(self).retry_log,
            final(self).prefs.entries@.len() == old(self).prefs.entries@.len() + 1,
            final(self).prefs.entries@.drop_last() == old(self).prefs.entries@,
            ({
                let p = final(self).prefs.entries@.last();
                exists|q: NotificationPreferences| effective_preferences(old(self).prefs, req.owner@, q) && {
                    &&& p.owner@ == req.owner@
                    &&& p.expiry_warning_enabled == match req.expiry_warning_enabled { Some(v) => v, None => q.expiry_warning_enabled }
                    &&& p.check_in_reminder_enabled == match req.check_in_reminder_enabled { Some(v) => v, None => q.check_in_reminder_enabled }
                    &&& p.vault_released_enabled == match req.vault_released_enabled { Some(v) => v, None => q.vault_released_enabled }
                    &&& p.warning_hours_before == match req.warning_hours_before { Some(v) => v, None => q.warning_hours_before }
                }
            }),
    {
        let mut p = self.get_preferences(req.owner.as_str());
        let ghost q = p;
        if let Some(v) = req.expiry_warning_enabled {
            p.expiry_warning_enabled = v;
        }
        if let Some(v) = req.check_in_reminder_enabled {
            p.check_in_reminder_enabled = v;
        }
        if let Some(v) = req.vault_released_enabled {
            p.vault_released_enabled = v;
        }
        if let Some(v) = req.warning_hours_before {
            p.warning_hours_before = v;
        }
        proof {
            assert(p.owner@ == req.owner@) by {
                match old(self).prefs.lookup(req.owner@) {
                    Some(x) => { lemma_prefs_lookup_key(old(self).prefs.entries@, req.owner@); }
                    None => {}
                }
            }
        }
        self.prefs.insert(p);
        assert(self.prefs.entries@.drop_last() =~= old(self).prefs.entries@);
    }

    // -- Scheduling -----------------------------------------------------------

    /// Schedules an expiry warning for a vault, as notification `id`, to fire
    /// `warning_hours_before` hours before the vault expires as seen at `now`.
    /// Nothing is scheduled when the owner turned warnings off, the vault has
    /// no remaining time, the warning time has passed, or a warning for the
    /// vault is already pending.
    pub fn schedule_expiry_warning_at(&mut self, vault: &Vault, id: String, now: i64)
        requires
            forall|p: NotificationPreferences| effective_preferences(old(self).prefs, vault.owner@, p) && p.expiry_warning_enabled
                ==> p.warning_hours_before * 3600 <= u64::MAX,
            vault.ttl_remaining matches Some(t) ==> t <= MAX_OFFSET_SECS,
            0 <= now <= i64::MAX - MAX_OFFSET_SECS,
        ensures
            final(self).tokens == old(self).tokens,
            final(self).prefs == old(self).prefs,
            final(self).delivery == old(self).delivery,
            final(self).retry_log == old(self).retry_log,
            warning_scheduled(old(self).prefs, old(self).schedule.items@, final(self).schedule.items@, *vault, id@, now),
    {
        let prefs = self.get_preferences(vault.owner.as_str());
        let ghost p = prefs;
        assert(effective_preferences(old(self).prefs, vault.owner@, p));
        if !prefs.expiry_warning_enabled {
            assert(self.schedule.items@ == old(self).schedule.items@);
            return;
        }
        let ttl = match vault.ttl_remaining {
            Some(t) => t,
            None => return,
        };
        let warning_secs = prefs.warning_hours_before * 3600;
        if ttl <= warning_secs {
            return;
        }
        let fire_at: i64 = now + (ttl - warning_secs) as i64;
        let s = &self.schedule.items;
        let mut i: usize = 0;
        while i < s.len()
            invariant
                i <= s@.len(),
                s@ == old(self).schedule.items@,
                self.schedule == old(self).schedule,
                self.tokens == old(self).tokens,
                self.prefs == old(self).prefs,
                self.delivery == old(self).delivery,
                self.retry_log == old(self).retry_log,
                effective_preferences(old(self).prefs, vault.owner@, p),
                p.expiry_warning_enabled,
                vault.ttl_remaining == Some(ttl),
                warning_secs == p.warning_hours_before * 3600,
                ttl > warning_secs,
                forall|j: int| 0 <= j < i ==> !pending_warning_for(#[trigger] s@[j], vault.id@),
            decreases s@.len() - i,
        {
            if s[i].vault_id == vault.id && s[i].notification_type == NotificationType::ExpiryWarning
                && s[i].status == DeliveryStatus::Pending {
                assert(pending_warning_for(s@[i as int], vault.id@));
                assert(effective_preferences(old(self).prefs, vault.owner@, p));
                return;
            }
            i = i + 1;
        }
        let ghost s0 = self.schedule.items@;
        self.schedule.items.push(ScheduledNotification {
            id,
            vault_id: vault.id.clone(),
            owner: vault.owner.clone(),
            notification_type: NotificationType::ExpiryWarning,
            scheduled_at: fire_at,
            status: DeliveryStatus::Pending,
        });
        assert(self.schedule.items@.drop_last() =~= s0);
        assert(effective_preferences(old(self).prefs, vault.owner@, p));
    }

    /// Schedules an expiry warning for a vault at the current time, as
    /// `schedule_expiry_warning_at` does. Returns false, scheduling nothing,
    /// when the clock reads a time outside the range schedules can use.
    pub fn schedule_expiry_warning(&mut self, vault: &Vault) -> (r: bool)
        requires
            forall|p: NotificationPreferences| effective_preferences(old(self).prefs, vault.owner@, p) && p.expiry_warning_enabled
                ==> p.warning_hours_before * 3600 <= u64::MAX,
            vault.ttl_remaining matches Some(t) ==> t <= MAX_OFFSET_SECS,
        ensures
            !r ==> final(self).schedule.items@ == old(self).schedule.items@,
            r ==> exists|now: i64, id: Seq<char>| 0 <= now && id.len() == 36
                && #[trigger] warning_scheduled(old(self).prefs, old(self).schedule.items@, final(self).schedule.items@, *vault, id, now),
            final(self).schedule.items@.len() <= old(self).schedule.items@.len() + 1,
            final(self).tokens == old(self).tokens,
            final(self).prefs == old(self).prefs,
            final(self).delivery == old(self).delivery,
            final(self).retry_log == old(self).retry_log,
    {
        let now = now_seconds();
        if now < 0 || now > i64::MAX - MAX_OFFSET_SECS as i64 {
            return false;
        }
        let id = new_id();
        let ghost idv = id@;
        self.schedule_expiry_warning_at(vault, id, now);
        assert(warning_scheduled(old(self).prefs, old(self).schedule.items@, self.schedule.items@, *vault, idv, now));
        true
    }

    /// Schedules a notification of type `t` for a vault to fire at `now`, as
    /// notification `id`, when the owner's preferences want it.
    pub fn schedule_immediate_at(&mut self, vault_id: &str, owner: &str, notification_type: NotificationType, id: String, now: i64)
        ensures
            final(self).tokens == old(self).tokens,
            final(self).prefs == old(self).prefs,
            final(self).delivery == old(self).delivery,
            final(self).retry_log == old(self).retry_log,
            owner_wants(old(self).prefs, owner@, notification_type) ==> ({
                let s1 = final(self).schedule.items@;
                &&& s1.len() == old(self).schedule.items@.len() + 1
                &&& s1.drop_last() == old(self).schedule.items@
                &&& s1.last().id@ == id@
                &&& s1.last().vault_id@ == vault_id@
                &&& s1.last().owner@ == owner@
                &&& s1.last().notification_type == notification_type
                &&& s1.last().scheduled_at == now
                &&& s1.last().status == DeliveryStatus::Pending
            }),
            !owner_wants(old(self).prefs, owner@, notification_type)
                ==> final(self).schedule.items@ == old(self).schedule.items@,
    {
        let p = self.get_preferences(owner);
        let enabled = match notification_type {
            NotificationType::VaultReleased => p.vault_released_enabled,
            NotificationType::CheckInReminder => p.check_in_reminder_enabled,
            _ => true,
        };
        if !enabled {
            return;
        }
        let ghost s0 = self.schedule.items@;
        self.schedule.items.push(ScheduledNotification {
            id,
            vault_id: vault_id.to_owned(),
            owner: owner.to_owned(),
            notification_type,
            scheduled_at: now,
            status: DeliveryStatus::Pending,
        });
        assert(self.schedule.items@.drop_last() =~= s0);
    }

    /// Schedules a notification of type `t` for a vault to fire now, when the
    /// owner's preferences want it.
    pub fn schedule_immediate(&mut self, vault_id: &str, owner: &str, notification_type: NotificationType)
        ensures
            final(self).tokens == old(self).tokens,
            final(self).prefs == old(self).prefs,
            final(self).delivery == old(self).delivery,
            final(self).retry_log == old(self).retry_log,
            owner_wants(old(self).prefs, owner@, notification_type) ==> ({
                let s1 = final(self).schedule.items@;
                &&& s1.len() == old(self).schedule.items@.len() + 1
                &&& s1.drop_last() == old(self).schedule.items@
                &&& s1.last().vault_id@ == vault_id@
                &&& s1.last().owner@ == owner@
                &&& s1.last().notification_type == notification_type
                &&& s1.last().status == DeliveryStatus::Pending
            }),
            !owner_wants(old(self).prefs, owner@, notification_type)
                ==> final(self).schedule.items@ == old(self).schedule.items@,
    {
        let id = new_id();
        let now = now_seconds();
        self.schedule_immediate_at(vault_id, owner, notification_type, id, now);
    }

    /// The pending notifications due at `now`, in scheduling order.
    pub fn get_pending_at(&self, now: i64) -> (r: Vec<ScheduledNotification>)
        ensures
            r@ == due_notifications(self.schedule.items@, now),
    {
        let s = &self.schedule.items;
        let mut r: Vec<ScheduledNotification> = Vec::new();
        let mut i: usize = 0;
        while i < s.len()
            invariant
                i <= s@.len(),
                s@ == self.schedule.items@,
                r@ == s@.subrange(0, i as int).filter(|n: ScheduledNotification| is_due(n, now)),
            decreases s@.len() - i,
        {
            proof { lemma_filter_step(s@, i as int, |n: ScheduledNotification| is_due(n, now)); }
            if s[i].status == DeliveryStatus::Pending && s[i].scheduled_at <= now {
                r.push(s[i].duplicate());
            }
            i = i + 1;
        }
        assert(s@.subrange(0, s@.len() as int) =~= s@);
        r
    }

    /// The pending notifications due now, in scheduling order.
    pub fn get_pending_notifications(&self) -> (r: Vec<ScheduledNotification>)
        ensures
            exists|now: i64| r@ == #[trigger] due_notifications(self.schedule.items@, now),
    {
        let now = now_seconds();
        self.get_pending_at(now)
    }

    // -- Delivery -------------------------------------------------------------

    fn record(&mut self, notif: &ScheduledNotification, status: DeliveryStatus, response: &str, now: i64)
        ensures
            final(self).tokens == old(self).tokens,
            final(self).prefs == old(self).prefs,
            final(self).schedule == old(self).schedule,
            final(self).retry_log == old(self).retry_log,
            records_view(final(self).delivery.records@) == records_view(old(self).delivery.records@).push(record_for(*notif, status, response@, now)),
    {
        let ghost before = self.delivery.records@;
        self.delivery.records.push(DeliveryRecord {
            notification_id: notif.id.clone(),
            vault_id: notif.vault_id.clone(),
            owner: notif.owner.clone(),
            notification_type: notif.notification_type,
            status,
            sent_at: now,
            provider_response: response.to_owned(),
        });
        assert(records_view(self.delivery.records@) =~= records_view(before).push(record_for(*notif, status, response@, now)));
    }

    fn mark_sent(&mut self, id: &String, status: DeliveryStatus)
        ensures
            final(self).tokens == old(self).tokens,
            final(self).prefs == old(self).prefs,
            final(self).delivery == old(self).delivery,
            final(self).retry_log == old(self).retry_log,
            final(self).schedule.items@ == schedule_marked(old(self).schedule.items@, id@, status),
    {
        let mut i: usize = 0;
        while i < self.schedule.items.len()
            invariant
                i <= self.schedule.items@.len(),
                self.schedule.items@ == old(self).schedule.items@,
                self.tokens == old(self).tokens,
                self.prefs == old(self).prefs,
                self.delivery == old(self).delivery,
                self.retry_log == old(self).retry_log,
                forall|j: int| 0 <= j < i ==> (#[trigger] self.schedule.items@[j]).id@ != id@,
            decreases self.schedule.items@.len() - i,
        {
            if self.schedule.items[i].id == *id {
                proof { lemma_first_index(self.schedule.items@, |n: ScheduledNotification| n.id@ == id@, i as int); }
                let ghost s0 = self.schedule.items@;
                self.schedule.items[i].status = status;
                assert(self.schedule.items@ =~= s0.update(i as int, ScheduledNotification { status, ..s0[i as int] }));
                return;
            }
            i = i + 1;
        }
        proof { lemma_first_index_none(self.schedule.items@, |n: ScheduledNotification| n.id@ == id@); }
    }

    fn note_attempt(&mut self, notif: &ScheduledNotification, attempt: u32, status: DeliveryStatus, error: &str, next_retry_at: Option<i64>, now: i64)
        ensures
            final(self).tokens == old(self).tokens,
            final(self).prefs == old(self).prefs,
            final(self).delivery == old(self).delivery,
            final(self).schedule == old(self).schedule,
            logs_view(final(self).retry_log.logs@) == logs_noted(old(self).retry_log.logs@, *notif, attempt, status, error@, next_retry_at, now),
    {
        let ghost v0 = logs_view(self.retry_log.logs@);
        let mut i: usize = 0;
        while i < self.retry_log.logs.len()
            invariant
                i <= self.retry_log.logs@.len(),
                self.retry_log.logs@ == old(self).retry_log.logs@,
                self.tokens == old(self).tokens,
                self.prefs == old(self).prefs,
                self.delivery == old(self).delivery,
                self.schedule == old(self).schedule,
                v0 == logs_view(old(self).retry_log.logs@),
                forall|j: int| 0 <= j < i ==> (#[trigger] self.retry_log.logs@[j]).notification_id@ != notif.id@,
            decreases self.retry_log.logs@.len() - i,
        {
            if self.retry_log.logs[i].notification_id == notif.id {
                proof { lemma_first_index(self.retry_log.logs@, |l: ReminderDeliveryLog| l.notification_id@ == notif.id@, i as int); }
                let ghost a0 = self.retry_log.logs@[i as int].attempts@;
                let ghost l0 = self.retry_log.logs@[i as int];
                self.retry_log.logs[i].attempts.push(DeliveryAttempt { attempt, attempted_at: now, error: error.to_owned() });
                self.retry_log.logs[i].status = status;
                self.retry_log.logs[i].next_retry_at = next_retry_at;
                proof {
                    let l1 = self.retry_log.logs@[i as int];
                    assert(l1.attempts@ == a0.push(l1.attempts@.last()));
                    assert(l1.attempts@.map_values(|a: DeliveryAttempt| attempt_view(a))
                        =~= a0.map_values(|a: DeliveryAttempt| attempt_view(a)).push((attempt, now, error@)));
                    assert(logs_view(self.retry_log.logs@) =~= v0.update(i as int, (v0[i as int].0, v0[i as int].1, v0[i as int].2, status,
                        v0[i as int].4.push((attempt, now, error@)), next_retry_at)));
                }
                return;
            }
            i = i + 1;
        }
        proof { lemma_first_index_none(self.retry_log.logs@, |l: ReminderDeliveryLog| l.notification_id@ == notif.id@); }
        let mut attempts: Vec<DeliveryAttempt> = Vec::new();
        attempts.push(DeliveryAttempt { attempt, attempted_at: now, error: error.to_owned() });
        self.retry_log.logs.push(ReminderDeliveryLog {
            notification_id: notif.id.clone(),
            vault_id: notif.vault_id.clone(),
            owner: notif.owner.clone(),
            status,
            attempts,
            next_retry_at,
        });
        proof {
            let l1 = self.retry_log.logs@.last();
            assert(l1.attempts@.map_values(|a: DeliveryAttempt| attempt_view(a)) =~= seq![(attempt, now, error@)]);
            assert(logs_view(self.retry_log.logs@) =~= v0.push((notif.id@, notif.vault_id@, notif.owner@, status, seq![(attempt, now, error@)], next_retry_at)));
        }
    }

    /// Completes delivery attempt number `attempt` of a notification, given the
    /// outcome of sending it to each of the owner's devices in turn (an empty
    /// list when the owner has no device): writes the delivery records, sets the
    /// notification's status and notes the attempt in its retry log, with the
    /// time of the next retry when one is due. Returns whether the last retry
    /// has failed, which calls for an alert.
    pub fn deliver_with_retry(&mut self, notif: &ScheduledNotification, attempt: u32, sends: &Vec<Result<String, String>>, now: i64) -> (alert: bool)
        requires
            attempt < u32::MAX,
            now <= i64::MAX - 21_600,
        ensures
            alert == (sends@.len() > 0 && !any_sent(sends@) && attempt >= 5),
            final(self).tokens == old(self).tokens,
            final(self).prefs == old(self).prefs,
            records_view(final(self).delivery.records@) == records_view(old(self).delivery.records@)
                + outcome_records(*notif, sends@, attempt, now),
            final(self).schedule.items@ == schedule_marked(old(self).schedule.items@, notif.id@, outcome_status(sends@, attempt)),
            logs_view(final(self).retry_log.logs@) == logs_noted(old(self).retry_log.logs@, *notif, attempt,
                outcome_status(sends@, attempt), outcome_error(sends@), outcome_next_retry(sends@, attempt, now), now),
    {
        let ghost r0 = records_view(self.delivery.records@);
        if sends.len() == 0 {
            self.record(notif, DeliveryStatus::Failed, "no_tokens_registered", now);
            self.mark_sent(&notif.id, DeliveryStatus::Failed);
            self.note_attempt(notif, attempt, DeliveryStatus::Failed, "no_tokens_registered", None, now);
            assert(records_view(self.delivery.records@) =~= r0 + outcome_records(*notif, sends@, attempt, now));
            return false;
        }
        let mut last_err = String::new();
        let mut any_ok = false;
        let mut i: usize = 0;
        while i < sends.len()
            invariant
                i <= sends@.len(),
                self.tokens == old(self).tokens,
                self.prefs == old(self).prefs,
                self.schedule == old(self).schedule,
                self.retry_log == old(self).retry_log,
                r0 == records_view(old(self).delivery.records@),
                records_view(self.delivery.records@) == r0 + sent_records(*notif, sends@.subrange(0, i as int), now),
                any_ok == any_sent(sends@.subrange(0, i as int)),
                last_err@ == last_error(sends@.subrange(0, i as int)),
            decreases sends@.len() - i,
        {
            let ghost pre = sends@.subrange(0, i as int);
            let ghost post = sends@.subrange(0, i + 1);
            assert(post.drop_last() =~= pre);
            assert(post.last() == sends@[i as int]);
            let ghost rv = records_view(self.delivery.records@);
            match &sends[i] {
                Ok(msg_id) => {
                    self.record(notif, DeliveryStatus::Sent, msg_id.as_str(), now);
                    any_ok = true;
                    assert(post[i as int] is Ok);
                }
                Err(e) => {
                    last_err = e.clone();
                    assert forall|j: int| 0 <= j < post.len() && post[j] is Ok implies pre[j] is Ok by {
                        if j < i { assert(post[j] == pre[j]); }
                    }
                    assert forall|j: int| 0 <= j < pre.len() && pre[j] is Ok implies post[j] is Ok by {
                        assert(post[j] == pre[j]);
                    }
                }
            }
            proof {
                if any_sent(pre) {
                    let j = choose|j: int| 0 <= j < pre.len() && pre[j] is Ok;
                    assert(post[j] == pre[j]);
                }
                assert(records_view(self.delivery.records@) =~= r0 + sent_records(*notif, post, now));
            }
            i = i + 1;
        }
        assert(sends@.subrange(0, sends@.len() as int) =~= sends@);
        if any_ok {
            proof {
                reveal_strlit("");
                assert(""@ =~= Seq::<char>::empty());
            }
            self.mark_sent(&notif.id, DeliveryStatus::Sent);
            self.note_attempt(notif, attempt, DeliveryStatus::Sent, "", None, now);
            false
        } else {
            if attempt < 5 {
                let delay = RETRY_DELAYS_SECS[attempt as usize];
                assert(delay == retry_delay(attempt as int));
                let next_at: i64 = now + delay as i64;
                let ghost rv = records_view(self.delivery.records@);
                self.record(notif, DeliveryStatus::Retrying, last_err.as_str(), now);
                self.mark_sent(&notif.id, DeliveryStatus::Retrying);
                self.note_attempt(notif, attempt, DeliveryStatus::Retrying, last_err.as_str(), Some(next_at), now);
                assert(records_view(self.delivery.records@) =~= r0 + outcome_records(*notif, sends@, attempt, now));
                false
            } else {
                let ghost rv = records_view(self.delivery.records@);
                self.record(notif, DeliveryStatus::Failed, last_err.as_str(), now);
                self.mark_sent(&notif.id, DeliveryStatus::Failed);
                self.note_attempt(notif, attempt, DeliveryStatus::Failed, last_err.as_str(), None, now);
                assert(records_view(self.delivery.records@) =~= r0 + outcome_records(*notif, sends@, attempt, now));
                true
            }
        }
    }


    /// The position of the first scheduled notification with id `id`.
    fn find_scheduled(&self, id: &String) -> (r: Option<usize>)
        ensures
            first_index(self.schedule.items@, |n: ScheduledNotification| n.id@ == id@) == (match r {
                Some(k) => Some(k as int),
                None => None,
            }),
            r matches Some(k) ==> k < self.schedule.items@.len(),
    {
        let s = &self.schedule.items;
        let mut i: usize = 0;
        while i < s.len()
            invariant
                i <= s@.len(),
                s@ == self.schedule.items@,
                forall|j: int| 0 <= j < i ==> (#[trigger] s@[j]).id@ != id@,
            decreases s@.len() - i,
        {
            if s[i].id == *id {
                proof { lemma_first_index(s@, |n: ScheduledNotification| n.id@ == id@, i as int); }
                return Some(i);
            }
            i = i + 1;
        }
        proof { lemma_first_index_none(s@, |n: ScheduledNotification| n.id@ == id@); }
        None
    }

    /// The retries due at `now`, with the attempt number each continues from.
    pub fn retries_due_at(&self, now: i64) -> (r: Vec<(ScheduledNotification, u32)>)
        ensures
            r@ == retries_due(self.retry_log.logs@, self.schedule.items@, now),
    {
        let logs = &self.retry_log.logs;
        let mut r: Vec<(ScheduledNotification, u32)> = Vec::new();
        let mut i: usize = 0;
        while i < logs.len()
            invariant
                i <= logs@.len(),
                logs@ == self.retry_log.logs@,
                r@ == retries_due(logs@.subrange(0, i as int), self.schedule.items@, now),
            decreases logs@.len() - i,
        {
            assert(logs@.subrange(0, i + 1).drop_last() =~= logs@.subrange(0, i as int));
            assert(logs@.subrange(0, i + 1).last() == logs@[i as int]);
            let l = &logs[i];
            let due = match l.next_retry_at {
                Some(t) => l.status == DeliveryStatus::Retrying && t <= now,
                None => false,
            };
            if due {
                if let Some(k) = self.find_scheduled(&l.notification_id) {
                    r.push((self.schedule.items[k].duplicate(), l.attempts.len() as u32));
                }
            }
            i = i + 1;
        }
        assert(logs@.subrange(0, logs@.len() as int) =~= logs@);
        r
    }

    /// The retry log of a vault's most recently attempted reminder: among the
    /// logs of the vault, one whose last attempt is latest.
    pub fn get_reminder_delivery_status(&self, vault_id: &str) -> (r: Option<ReminderDeliveryLog>)
        ensures
            r is None <==> !(exists|k: int| 0 <= k < self.retry_log.logs@.len() && (#[trigger] self.retry_log.logs@[k]).vault_id@ == vault_id@),
            r matches Some(l) ==> exists|k: int| 0 <= k < self.retry_log.logs@.len() && {
                let best = #[trigger] self.retry_log.logs@[k];
                &&& best.vault_id@ == vault_id@
                &&& log_view(l) == log_view(best)
                &&& forall|j: int| 0 <= j < self.retry_log.logs@.len() && (#[trigger] self.retry_log.logs@[j]).vault_id@ == vault_id@
                    ==> time_le(last_attempt_time(self.retry_log.logs@[j]), last_attempt_time(best))
            },
    {
        let key = vault_id.to_owned();
        let logs = &self.retry_log.logs;
        let mut best: Option<usize> = None;
        let mut i: usize = 0;
        while i < logs.len()
            invariant
                i <= logs@.len(),
                logs@ == self.retry_log.logs@,
                key@ == vault_id@,
                best is None <==> !(exists|k: int| 0 <= k < i && (#[trigger] logs@[k]).vault_id@ == vault_id@),
                best matches Some(b) ==> b < i && logs@[b as int].vault_id@ == vault_id@
                    && forall|j: int| 0 <= j < i && (#[trigger] logs@[j]).vault_id@ == vault_id@
                        ==> time_le(last_attempt_time(logs@[j]), last_attempt_time(logs@[b as int])),
            decreases logs@.len() - i,
        {
            if logs[i].vault_id == key {
                let take = match best {
                    None => true,
                    Some(b) => {
                        let kb: Option<i64> = if logs[b].attempts.len() == 0 { None } else { Some(logs[b].attempts[logs[b].attempts.len() - 1].attempted_at) };
                        let ki: Option<i64> = if logs[i].attempts.len() == 0 { None } else { Some(logs[i].attempts[logs[i].attempts.len() - 1].attempted_at) };
                        assert(kb == last_attempt_time(logs@[b as int]));
                        assert(ki == last_attempt_time(logs@[i as int]));
                        match (kb, ki) {
                            (None, _) => true,
                            (Some(_), None) => false,
                            (Some(x), Some(y)) => x <= y,
                        }
                    }
                };
                if take {
                    best = Some(i);
                }
            }
            i = i + 1;
        }
        match best {
            None => None,
            Some(b) => Some(logs[b].duplicate()),
        }
    }

    /// The delivery records of an owner, in the order they were written.
    pub fn get_delivery_log(&self, owner: &str) -> (r: Vec<DeliveryRecord>)
        ensures
            r@ == records_of(self.delivery.records@, owner@),
    {
        let o = owner.to_owned();
        let s = &self.delivery.records;
        let mut r: Vec<DeliveryRecord> = Vec::new();
        let mut i: usize = 0;
        while i < s.len()
            invariant
                i <= s@.len(),
                s@ == self.delivery.records@,
                o@ == owner@,
                r@ == s@.subrange(0, i as int).filter(|x: DeliveryRecord| x.owner@ == owner@),
            decreases s@.len() - i,
        {
            proof { lemma_filter_step(s@, i as int, |x: DeliveryRecord| x.owner@ == owner@); }
            if s[i].owner == o {
                r.push(s[i].duplicate());
            }
            i = i + 1;
        }
        assert(s@.subrange(0, s@.len() as int) =~= s@);
        r
    }

}

/// A stored entry is found under its own key.
pub proof fn lemma_prefs_lookup_key(s: Seq<NotificationPreferences>, key: Seq<char>)
    requires
        crate::backend::store::prefs_lookup(s, key) is Some,
    ensures
        crate::backend::store::prefs_lookup(s, key)->0.owner@ == key,
    decreases s.len(),
{
    if s.len() > 0 && s.last().owner@ != key {
        lemma_prefs_lookup_key(s.drop_last(), key);
    }
}

} // verus!
