use vstd::prelude::*;
use crate::backend::models::{NotificationPreferences, Vault, VaultBackup, VaultEvent, VaultShare};

verus! {

/// Filtering one more element of a sequence keeps it exactly when it passes.
pub proof fn lemma_filter_step<A>(s: Seq<A>, i: int, p: spec_fn(A) -> bool)
    requires
        0 <= i < s.len(),
    ensures
        s.subrange(0, i + 1).filter(p) == (if p(s[i]) { s.subrange(0, i).filter(p).push(s[i]) } else { s.subrange(0, i).filter(p) }),
{
    reveal(Seq::filter);
    assert(s.subrange(0, i + 1).drop_last() =~= s.subrange(0, i));
    assert(s.subrange(0, i + 1).last() == s[i]);
}

/// Notification preferences keyed by their `owner` field (an owner, or a
/// vault id); a later entry replaces an earlier one with the same key.
pub struct PrefsStore {
    pub entries: Vec<NotificationPreferences>,
}

/// Per-vault notification preferences, keyed by vault id.
pub type NotificationStore = PrefsStore;

/// Notification preferences stored for a vault; `owner` holds the vault id.
pub type VaultNotificationPreferences = NotificationPreferences;

/// The preferences stored under `key`, the latest entry winning.
pub open spec fn prefs_lookup(s: Seq<NotificationPreferences>, key: Seq<char>) -> Option<NotificationPreferences>
    decreases s.len(),
{
    if s.len() == 0 {
        None
    } else if s.last().owner@ == key {
        Some(s.last())
    } else {
        prefs_lookup(s.drop_last(), key)
    }
}

impl PrefsStore {
    pub open spec fn lookup(&self, key: Seq<char>) -> Option<NotificationPreferences> {
        prefs_lookup(self.entries@, key)
    }

    /// The preferences stored under `key`.
    pub fn get(&self, key: &str) -> (r: Option<NotificationPreferences>)
        ensures
            r == self.lookup(key@),
    {
        let k = key.to_owned();
        let s = &self.entries;
        let mut i: usize = s.len();
        assert(s@.subrange(0, i as int) =~= s@);
        while i > 0
            invariant
                i <= s@.len(),
                s@ == self.entries@,
                k@ == key@,
                prefs_lookup(s@, key@) == prefs_lookup(s@.subrange(0, i as int), key@),
            decreases i,
        {
            assert(s@.subrange(0, i - 1) =~= s@.subrange(0, i as int).drop_last());
            assert(s@.subrange(0, i as int).last() == s@[i - 1]);
            if s[i - 1].owner == k {
                return Some(s[i - 1].duplicate());
            }
            i = i - 1;
        }
        None
    }

    /// Stores preferences under their `owner` field.
    pub fn insert(&mut self, prefs: NotificationPreferences)
        ensures
            final(self).entries@ == old(self).entries@.push(prefs),
    {
        self.entries.push(prefs);
    }
}

/// An empty preference store.
pub fn create_prefs_store() -> (r: PrefsStore)
    ensures
        r.entries@.len() == 0,
{
    PrefsStore { entries: Vec::new() }
}

/// An empty per-vault preference store.
pub fn create_notification_store() -> (r: NotificationStore)
    ensures
        r.entries@.len() == 0,
{
    create_prefs_store()
}

/// Stores a vault's notification preferences under the vault id in `prefs.owner`.
pub fn set_notification_preferences(store: &mut NotificationStore, prefs: VaultNotificationPreferences)
    ensures
        final(store).entries@ == old(store).entries@.push(prefs),
{
    store.insert(prefs);
}

/// The notification preferences stored for a vault.
pub fn get_notification_preferences(store: &NotificationStore, vault_id: &str) -> (r: Option<VaultNotificationPreferences>)
    ensures
        r == store.lookup(vault_id@),
{
    store.get(vault_id)
}

/// Vaults keyed by id; a later entry replaces an earlier one with the same id.
pub struct VaultStore {
    pub entries: Vec<Vault>,
}

/// The vault stored under `id`, the latest entry winning.
pub open spec fn vault_lookup(s: Seq<Vault>, id: Seq<char>) -> Option<Vault>
    decreases s.len(),
{
    if s.len() == 0 {
        None
    } else if s.last().id@ == id {
        Some(s.last())
    } else {
        vault_lookup(s.drop_last(), id)
    }
}

impl VaultStore {
    pub open spec fn lookup(&self, id: Seq<char>) -> Option<Vault> {
        vault_lookup(self.entries@, id)
    }

    /// The vault stored under `id`.
    pub fn get(&self, id: &str) -> (r: Option<Vault>)
        ensures
            r == self.lookup(id@),
    {
        let k = id.to_owned();
        let s = &self.entries;
        let mut i: usize = s.len();
        assert(s@.subrange(0, i as int) =~= s@);
        while i > 0
            invariant
                i <= s@.len(),
                s@ == self.entries@,
                k@ == id@,
                vault_lookup(s@, id@) == vault_lookup(s@.subrange(0, i as int), id@),
            decreases i,
        {
            assert(s@.subrange(0, i - 1) =~= s@.subrange(0, i as int).drop_last());
            assert(s@.subrange(0, i as int).last() == s@[i - 1]);
            if s[i - 1].id == k {
                return Some(s[i - 1].duplicate());
            }
            i = i - 1;
        }
        None
    }

    /// Whether a vault is stored under `id`.
    pub fn contains(&self, id: &str) -> (r: bool)
        ensures
            r == (self.lookup(id@) is Some),
    {
        self.get(id).is_some()
    }

    /// Stores a vault under its id.
    pub fn insert(&mut self, vault: Vault)
        ensures
            final(self).entries@ == old(self).entries@.push(vault),
    {
        self.entries.push(vault);
    }

    /// Removes the vault stored under `id`.
    pub fn remove(&mut self, id: &str)
        ensures
            final(self).entries@ == old(self).entries@.filter(|v: Vault| v.id@ != id@),
    {
        let k = id.to_owned();
        let mut kept: Vec<Vault> = Vec::new();
        let mut i: usize = 0;
        while i < self.entries.len()
            invariant
                i <= self.entries@.len(),
                self.entries@ == old(self).entries@,
                k@ == id@,
                kept@ == self.entries@.subrange(0, i as int).filter(|v: Vault| v.id@ != id@),
            decreases self.entries@.len() - i,
        {
            proof { lemma_filter_step(self.entries@, i as int, |v: Vault| v.id@ != id@); }
            if self.entries[i].id != k {
                kept.push(self.entries[i].duplicate());
            }
            i = i + 1;
        }
        assert(self.entries@.subrange(0, self.entries@.len() as int) =~= self.entries@);
        self.entries = kept;
    }
}

/// An empty vault store.
pub fn create_vault_store() -> (r: VaultStore)
    ensures
        r.entries@.len() == 0,
{
    VaultStore { entries: Vec::new() }
}

/// The events of all vaults, in the order they happened.
pub struct EventStore {
    pub events: Vec<VaultEvent>,
}

/// An empty event store.
pub fn create_event_store() -> (r: EventStore)
    ensures
        r.events@.len() == 0,
{
    EventStore { events: Vec::new() }
}

impl EventStore {
    /// Records an event.
    pub fn add(&mut self, event: VaultEvent)
        ensures
            final(self).events@ == old(self).events@.push(event),
    {
        self.events.push(event);
    }
}

/// The events of one vault, in the order they happened.
pub fn get_vault_history(store: &EventStore, vault_id: &str) -> (r: Vec<VaultEvent>)
    ensures
        r@ == store.events@.filter(|e: VaultEvent| e.vault_id@ == vault_id@),
{
    let k = vault_id.to_owned();
    let s = &store.events;
    let mut r: Vec<VaultEvent> = Vec::new();
    let mut i: usize = 0;
    while i < s.len()
        invariant
            i <= s@.len(),
            k@ == vault_id@,
            r@ == s@.subrange(0, i as int).filter(|e: VaultEvent| e.vault_id@ == vault_id@),
        decreases s@.len() - i,
    {
        proof { lemma_filter_step(s@, i as int, |e: VaultEvent| e.vault_id@ == vault_id@); }
        if s[i].vault_id == k {
            r.push(s[i].duplicate());
        }
        i = i + 1;
    }
    assert(s@.subrange(0, s@.len() as int) =~= s@);
    r
}

/// Backups keyed by backup id; a later entry replaces an earlier one.
pub struct BackupStore {
    pub backups: Vec<VaultBackup>,
}

/// The backup stored under `id`, the latest entry winning.
pub open spec fn backup_lookup(s: Seq<VaultBackup>, id: Seq<char>) -> Option<VaultBackup>
    decreases s.len(),
{
    if s.len() == 0 {
        None
    } else if s.last().backup_id@ == id {
        Some(s.last())
    } else {
        backup_lookup(s.drop_last(), id)
    }
}

/// An empty backup store.
pub fn create_backup_store() -> (r: BackupStore)
    ensures
        r.backups@.len() == 0,
{
    BackupStore { backups: Vec::new() }
}

/// Stores a backup under its id.
pub fn store_backup(store: &mut BackupStore, backup: VaultBackup)
    ensures
        final(store).backups@ == old(store).backups@.push(backup),
{
    store.backups.push(backup);
}

/// The backup stored under `backup_id`.
pub fn get_backup(store: &BackupStore, backup_id: &str) -> (r: Option<VaultBackup>)
    ensures
        r == backup_lookup(store.backups@, backup_id@),
{
    let k = backup_id.to_owned();
    let s = &store.backups;
    let mut i: usize = s.len();
    assert(s@.subrange(0, i as int) =~= s@);
    while i > 0
        invariant
            i <= s@.len(),
            s@ == store.backups@,
            k@ == backup_id@,
            backup_lookup(s@, backup_id@) == backup_lookup(s@.subrange(0, i as int), backup_id@),
        decreases i,
    {
        assert(s@.subrange(0, i - 1) =~= s@.subrange(0, i as int).drop_last());
        if s[i - 1].backup_id == k {
            return Some(s[i - 1].duplicate());
        }
        i = i - 1;
    }
    None
}

/// Shares of all vaults, in the order they were made.
pub struct ShareStore {
    pub shares: Vec<VaultShare>,
}

/// An empty share store.
pub fn create_share_store() -> (r: ShareStore)
    ensures
        r.shares@.len() == 0,
{
    ShareStore { shares: Vec::new() }
}

/// Records a share.
pub fn add_vault_share(store: &mut ShareStore, share: VaultShare)
    ensures
        final(store).shares@ == old(store).shares@.push(share),
{
    store.shares.push(share);
}

/// The shares of one vault, in the order they were made.
pub fn get_vault_shares(store: &ShareStore, vault_id: &str) -> (r: Vec<VaultShare>)
    ensures
        r@ == store.shares@.filter(|s: VaultShare| s.vault_id@ == vault_id@),
{
    let k = vault_id.to_owned();
    let s = &store.shares;
    let mut r: Vec<VaultShare> = Vec::new();
    let mut i: usize = 0;
    while i < s.len()
        invariant
            i <= s@.len(),
            k@ == vault_id@,
            r@ == s@.subrange(0, i as int).filter(|x: VaultShare| x.vault_id@ == vault_id@),
        decreases s@.len() - i,
    {
        proof { lemma_filter_step(s@, i as int, |x: VaultShare| x.vault_id@ == vault_id@); }
        if s[i].vault_id == k {
            r.push(s[i].duplicate());
        }
        i = i + 1;
    }
    assert(s@.subrange(0, s@.len() as int) =~= s@);
    r
}

} // verus!
