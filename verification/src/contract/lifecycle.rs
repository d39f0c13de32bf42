use vstd::prelude::*;
use crate::contract::access::owner_locked_error;
use crate::contract::error::ContractError;
use crate::contract::state::{
    expired, expiry_lookup, ContractView, TtlVaultContract, VaultRecord, VaultRecordView,
};
use crate::contract::types::{
    hash_eq, Address, AuditAction, AuditEntry, BeneficiaryStatus, DisputeStatus, Hash32,
    PasskeyUsageEntry, ReleaseCondition, ReleaseConditionView, ReleaseStatus, Transfer, Vault,
    VaultView,
};

verus! {

/// An audit-log entry, which records the operation as well as the action.
pub open spec fn audit_entry(action: AuditAction, caller: Address, now: u64) -> AuditEntry {
    AuditEntry { action, caller, timestamp: now, operation_recorded: true }
}

/// An activity-log entry.
pub open spec fn activity_entry(action: AuditAction, caller: Address, now: u64) -> AuditEntry {
    AuditEntry { action, caller, timestamp: now, operation_recorded: false }
}

/// Both log entries that an audited operation appends.
pub open spec fn audited(log: Seq<AuditEntry>, action: AuditAction, caller: Address, now: u64) -> Seq<AuditEntry> {
    log.push(audit_entry(action, caller, now)).push(activity_entry(action, caller, now))
}

/// A freshly created vault.
pub open spec fn new_vault_view(
    owner: Address,
    beneficiary: Address,
    check_in_interval: u64,
    token: Address,
    now: u64,
    parent: Option<u64>,
) -> VaultView {
    VaultView {
        owner,
        beneficiary,
        balance: 0,
        check_in_interval,
        last_check_in: now,
        created_at: now,
        status: ReleaseStatus::Locked,
        beneficiaries: Seq::empty(),
        metadata: Seq::empty(),
        token_address: token,
        custom_metadata: Seq::empty(),
        is_paused: false,
        release_condition: ReleaseConditionView::OnExpiry,
        parent_vault_id: parent,
        passkey_hash: None,
        max_deposit_amount: None,
        withdrawal_approval_threshold: None,
        spending_limit: None,
    }
}

/// The record of a new vault, with nothing attached yet.
pub open spec fn fresh_record_view(v: VaultView, log: Seq<AuditEntry>) -> VaultRecordView {
    VaultRecordView {
        vault: v,
        vesting: None,
        passkeys: Seq::empty(),
        backup_codes: Seq::empty(),
        passkey_expiries: Seq::empty(),
        passkey_usage: Seq::empty(),
        beneficiary_status: BeneficiaryStatus::Pending,
        pending_ownership: None,
        delegate: None,
        withdrawal_schedule: None,
        dispute: DisputeStatus::NoDispute,
        conditional_acceptance: None,
        multisig: None,
        proposals: Seq::empty(),
        archived: None,
        audit_log: log,
        decayed_at: None,
    }
}

/// The state after adding a vault record under the next id and indexing it.
pub open spec fn with_new_vault(s: ContractView, r: VaultRecordView) -> ContractView {
    let id = (s.vaults.len() + 1) as u64;
    ContractView {
        vaults: s.vaults.push(r),
        owner_index: s.owner_index.push((r.vault.owner, id)),
        beneficiary_index: s.beneficiary_index.push((r.vault.beneficiary, id)),
        ..s
    }
}

/// The token a new vault uses: the requested one, or the default token.
pub open spec fn chosen_token(s: ContractView, token: Option<Address>) -> Address {
    match token {
        Some(t) => t,
        None => s.config.token->0,
    }
}

/// Why `create_vault` refuses its arguments, if it does.
pub open spec fn create_vault_error(
    s: ContractView,
    owner: Address,
    beneficiary: Address,
    check_in_interval: u64,
    token: Option<Address>,
) -> Option<ContractError> {
    if !s.initialized() {
        Some(ContractError::NotInitialized)
    } else if check_in_interval == 0 {
        Some(ContractError::InvalidInterval)
    } else if s.interval_bounds_error(check_in_interval) is Some {
        s.interval_bounds_error(check_in_interval)
    } else if owner == beneficiary {
        Some(ContractError::InvalidBeneficiary)
    } else if token matches Some(t) && !s.token_allowed(t) {
        Some(ContractError::NotOwner)
    } else {
        None
    }
}

/// Why `check_in` refuses, if it does.
pub open spec fn check_in_error(s: ContractView, vault_id: u64, caller: Address, passkey_hash: Hash32, now: u64) -> Option<ContractError> {
    if s.config.paused {
        Some(ContractError::Paused)
    } else if !s.has_vault(vault_id) {
        Some(ContractError::VaultNotFound)
    } else if s.vault(vault_id).is_paused {
        Some(ContractError::Paused)
    } else if owner_locked_error(s, vault_id, caller) is Some {
        owner_locked_error(s, vault_id, caller)
    } else if expiry_lookup(s.rec(vault_id).passkey_expiries, passkey_hash) matches Some(exp) && now > exp {
        Some(ContractError::InvalidAmount)
    } else if s.vault(vault_id).check_in_interval > s.max_ttl() {
        Some(ContractError::MaxTtlExceeded)
    } else {
        None
    }
}

/// The state after a successful check-in.
pub open spec fn check_in_effect(s: ContractView, vault_id: u64, caller: Address, passkey_hash: Hash32, now: u64) -> ContractView {
    let r = s.rec(vault_id);
    s.with_record(vault_id, VaultRecordView {
        vault: VaultView { last_check_in: now, ..r.vault },
        passkey_usage: r.passkey_usage.push(PasskeyUsageEntry { passkey_hash, timestamp: now }),
        audit_log: audited(r.audit_log, AuditAction::CheckIn, caller, now),
        ..r
    })
}

/// Why `deposit` refuses, if it does.
pub open spec fn deposit_error(s: ContractView, vault_id: u64, amount: i128, now: u64) -> Option<ContractError> {
    if s.config.paused {
        Some(ContractError::Paused)
    } else if !s.initialized() {
        Some(ContractError::NotInitialized)
    } else if amount <= 0 {
        Some(ContractError::InvalidAmount)
    } else if !s.has_vault(vault_id) {
        Some(ContractError::VaultNotFound)
    } else if s.vault(vault_id).is_paused {
        Some(ContractError::Paused)
    } else if s.vault(vault_id).status != ReleaseStatus::Locked {
        Some(ContractError::AlreadyReleased)
    } else if expired(s.vault(vault_id), now) {
        Some(ContractError::VaultExpired)
    } else if s.vault(vault_id).balance + amount > i128::MAX {
        Some(ContractError::BalanceOverflow)
    } else if s.vault(vault_id).max_deposit_amount matches Some(m) && s.vault(vault_id).balance + amount > m {
        Some(ContractError::DepositLimitExceeded)
    } else {
        None
    }
}

/// The state after moving `delta` into the balance of a vault and auditing
/// `action` by `caller`: what `deposit` (positive) and `withdraw` (negative) do.
pub open spec fn balance_moved(s: ContractView, vault_id: u64, delta: int, action: AuditAction, caller: Address, now: u64) -> ContractView {
    let rec = s.rec(vault_id);
    s.with_record(vault_id, VaultRecordView {
        vault: VaultView { balance: (rec.vault.balance + delta) as i128, ..rec.vault },
        audit_log: audited(rec.audit_log, action, caller, now),
        ..rec
    })
}

/// Why `withdraw` refuses, if it does.
pub open spec fn withdraw_error(s: ContractView, vault_id: u64, caller: Address, amount: i128) -> Option<ContractError> {
    if s.config.paused {
        Some(ContractError::Paused)
    } else if amount <= 0 {
        Some(ContractError::InvalidAmount)
    } else if !s.has_vault(vault_id) {
        Some(ContractError::VaultNotFound)
    } else if s.vault(vault_id).is_paused {
        Some(ContractError::Paused)
    } else if owner_locked_error(s, vault_id, caller) is Some {
        owner_locked_error(s, vault_id, caller)
    } else if s.rec(vault_id).multisig is Some {
        Some(ContractError::MultiSigRequired)
    } else if s.vault(vault_id).balance < amount {
        Some(ContractError::InsufficientBalance)
    } else if s.vault(vault_id).withdrawal_approval_threshold matches Some(t) && amount > t {
        Some(ContractError::WithdrawalNotApproved)
    } else {
        None
    }
}

impl TtlVaultContract {
    pub proof fn lemma_view_index(&self, i: int)
        requires
            0 <= i < self.vaults@.len(),
        ensures
            self@.vaults[i] == self.vaults@[i]@,
    {
    }

    /// The expiry recorded for a passkey of a vault, if any.
    pub fn get_passkey_expiry(&self, vault_id: u64, passkey_hash: Hash32) -> (r: Option<u64>)
        ensures
            r == (if self@.has_vault(vault_id) { expiry_lookup(self@.rec(vault_id).passkey_expiries, passkey_hash) } else { None }),
    {
        match self.vault_index(vault_id) {
            None => None,
            Some(idx) => {
                proof { self.lemma_view_index(idx as int); }
                let s = &self.vaults[idx].passkey_expiries;
                let mut i: usize = s.len();
                assert(s@.subrange(0, i as int) =~= s@);
                while i > 0
                    invariant
                        i <= s@.len(),
                        self@.has_vault(vault_id),
                        s@ == self@.rec(vault_id).passkey_expiries,
                        expiry_lookup(s@, passkey_hash) == expiry_lookup(s@.subrange(0, i as int), passkey_hash),
                    decreases i,
                {
                    let e = s[i - 1];
                    assert(s@.subrange(0, i - 1) =~= s@.subrange(0, i as int).drop_last());
                    assert(s@.subrange(0, i as int).last() == e);
                    if hash_eq(&e.hash, &passkey_hash) {
                        return Some(e.expiry);
                    }
                    i = i - 1;
                }
                None
            }
        }
    }

    pub(crate) fn fresh_record(vault: Vault, log: Vec<AuditEntry>) -> (r: VaultRecord)
        ensures
            r@ == fresh_record_view(vault@, log@),
    {
        let r = VaultRecord {
            vault,
            vesting: None,
            passkeys: Vec::new(),
            backup_codes: Vec::new(),
            passkey_expiries: Vec::new(),
            passkey_usage: Vec::new(),
            beneficiary_status: BeneficiaryStatus::Pending,
            pending_ownership: None,
            delegate: None,
            withdrawal_schedule: None,
            dispute: DisputeStatus::NoDispute,
            conditional_acceptance: None,
            multisig: None,
            proposals: Vec::new(),
            archived: None,
            audit_log: log,
            decayed_at: None,
        };
        assert(r@.backup_codes =~= Seq::empty());
        assert(r@.proposals =~= Seq::empty());
        r
    }

    pub(crate) fn new_vault(owner: Address, beneficiary: Address, check_in_interval: u64, token: Address, now: u64, parent: Option<u64>) -> (v: Vault)
        ensures
            v@ == new_vault_view(owner, beneficiary, check_in_interval, token, now, parent),
    {
        Vault {
            owner,
            beneficiary,
            balance: 0,
            check_in_interval,
            last_check_in: now,
            created_at: now,
            status: ReleaseStatus::Locked,
            beneficiaries: Vec::new(),
            metadata: Vec::new(),
            token_address: token,
            custom_metadata: Vec::new(),
            is_paused: false,
            release_condition: ReleaseCondition::OnExpiry,
            parent_vault_id: parent,
            passkey_hash: None,
            max_deposit_amount: None,
            withdrawal_approval_threshold: None,
            spending_limit: None,
        }
    }

    /// Adds a record under the next vault id and indexes it by owner and beneficiary.
    pub(crate) fn push_record(&mut self, r: VaultRecord) -> (id: u64)
        requires
            old(self).wf(),
            old(self)@.vaults.len() + 2 < u64::MAX,
            crate::contract::state::record_wf(r@),
        ensures
            final(self).wf(),
            id == old(self)@.vaults.len() + 1,
            final(self)@ == with_new_vault(old(self)@, r@),
    {
        let id: u64 = self.vaults.len() as u64 + 1;
        let owner = r.vault.owner;
        let beneficiary = r.vault.beneficiary;
        let ghost rv = r@;
        self.vaults.push(r);
        self.owner_index.push((owner, id));
        self.beneficiary_index.push((beneficiary, id));
        assert(self@.vaults =~= old(self)@.vaults.push(rv));
        assert forall|j: int| 0 <= j < self@.vaults.len() implies crate::contract::state::record_wf(#[trigger] self@.vaults[j]) by {
            if j < old(self)@.vaults.len() {
                assert(self@.vaults[j] == old(self)@.vaults[j]);
            }
        }
        id
    }

    pub(crate) fn check_interval_bounds(&self, interval: u64) -> (r: Result<(), ContractError>)
        ensures
            match r {
                Ok(()) => self@.interval_bounds_error(interval) is None,
                Err(e) => self@.interval_bounds_error(interval) == Some(e),
            },
    {
        if let Some(min) = self.config.min_interval {
            if interval < min {
                return Err(ContractError::IntervalTooLow);
            }
        }
        if let Some(max) = self.config.max_interval {
            if interval > max {
                return Err(ContractError::IntervalTooHigh);
            }
        }
        Ok(())
    }

    /// Checks that a token may be used by vaults (on an initialized contract).
    pub(crate) fn check_token(&self, token: Address) -> (r: Result<(), ContractError>)
        requires
            self@.config.token is Some,
        ensures
            match r {
                Ok(()) => self@.token_allowed(token),
                Err(e) => !self@.token_allowed(token) && e == ContractError::NotOwner,
            },
    {
        match self.is_token_whitelisted(token) {
            Ok(true) => Ok(()),
            _ => Err(ContractError::NotOwner),
        }
    }

    /// Creates a new locked vault with a zero balance and returns its id.
    /// The vault uses `token_address` (which must be usable) or the default token.
    pub fn create_vault(
        &mut self,
        owner: Address,
        beneficiary: Address,
        check_in_interval: u64,
        token_address: Option<Address>,
        now: u64,
    ) -> (r: Result<u64, ContractError>)
        requires
            old(self).wf(),
            old(self)@.vaults.len() + 2 < u64::MAX,
        ensures
            final(self).wf(),
            match r {
                Ok(id) => create_vault_error(old(self)@, owner, beneficiary, check_in_interval, token_address) is None
                    && id == old(self)@.vaults.len() + 1
                    && final(self)@ == with_new_vault(old(self)@, fresh_record_view(
                        new_vault_view(owner, beneficiary, check_in_interval, chosen_token(old(self)@, token_address), now, None),
                        seq![activity_entry(AuditAction::CreateVault, owner, now)])),
                Err(e) => create_vault_error(old(self)@, owner, beneficiary, check_in_interval, token_address) == Some(e)
                    && final(self)@ == old(self)@,
            },
    {
        if self.config.admin.is_none() {
            return Err(ContractError::NotInitialized);
        }
        if check_in_interval == 0 {
            return Err(ContractError::InvalidInterval);
        }
        self.check_interval_bounds(check_in_interval)?;
        if owner == beneficiary {
            return Err(ContractError::InvalidBeneficiary);
        }
        let token = match token_address {
            Some(t) => {
                self.check_token(t)?;
                t
            }
            None => self.config.token.unwrap(),
        };
        let vault = Self::new_vault(owner, beneficiary, check_in_interval, token, now, None);
        let mut log: Vec<AuditEntry> = Vec::new();
        log.push(AuditEntry { action: AuditAction::CreateVault, caller: owner, timestamp: now, operation_recorded: false });
        assert(log@ =~= seq![activity_entry(AuditAction::CreateVault, owner, now)]);
        let rec = Self::fresh_record(vault, log);
        let id = self.push_record(rec);
        Ok(id)
    }

    /// Records an owner check-in, resetting the vault's expiry timer to `now`.
    pub fn check_in(&mut self, vault_id: u64, caller: Address, passkey_hash: Hash32, now: u64) -> (r: Result<(), ContractError>)
        requires
            old(self).wf(),
        ensures
            final(self).wf(),
            match r {
                Ok(()) => check_in_error(old(self)@, vault_id, caller, passkey_hash, now) is None
                    && final(self)@ == check_in_effect(old(self)@, vault_id, caller, passkey_hash, now),
                Err(e) => check_in_error(old(self)@, vault_id, caller, passkey_hash, now) == Some(e)
                    && final(self)@ == old(self)@,
            },
    {
        if self.config.paused {
            return Err(ContractError::Paused);
        }
        let idx = match self.vault_index(vault_id) {
            None => return Err(ContractError::VaultNotFound),
            Some(i) => i,
        };
        proof { self.lemma_view_index(idx as int); }
        if self.vaults[idx].vault.is_paused {
            return Err(ContractError::Paused);
        }
        self.check_owner_locked(vault_id, caller)?;
        if let Some(expiry) = self.get_passkey_expiry(vault_id, passkey_hash) {
            if now > expiry {
                return Err(ContractError::InvalidAmount);
            }
        }
        if self.vaults[idx].vault.check_in_interval > self.get_max_ttl_seconds() {
            return Err(ContractError::MaxTtlExceeded);
        }
        self.vaults[idx].vault.last_check_in = now;
        self.vaults[idx].passkey_usage.push(PasskeyUsageEntry { passkey_hash, timestamp: now });
        self.vaults[idx].audit_log.push(AuditEntry { action: AuditAction::CheckIn, caller, timestamp: now, operation_recorded: true });
        self.vaults[idx].audit_log.push(AuditEntry { action: AuditAction::CheckIn, caller, timestamp: now, operation_recorded: false });
        proof { self.lemma_view_index(idx as int); }
        assert(self@.vaults =~= old(self)@.vaults.update(idx as int, self@.vaults[idx as int]));
        Ok(())
    }

    /// Deposits `amount` from `from` into a locked, unexpired vault. Returns the
    /// transfer into the contract that the deposit makes.
    pub fn deposit(&mut self, vault_id: u64, from: Address, amount: i128, now: u64) -> (r: Result<Vec<Transfer>, ContractError>)
        requires
            old(self).wf(),
        ensures
            final(self).wf(),
            match r {
                Ok(t) => deposit_error(old(self)@, vault_id, amount, now) is None && {
                    let rec = old(self)@.rec(vault_id);
                    &&& final(self)@ == balance_moved(old(self)@, vault_id, amount as int, AuditAction::Deposit, from, now)
                    &&& t@ == seq![Transfer { token: rec.vault.token_address, from, to: old(self)@.contract_address, amount }]
                },
                Err(e) => deposit_error(old(self)@, vault_id, amount, now) == Some(e) && final(self)@ == old(self)@,
            },
    {
        if self.config.paused {
            return Err(ContractError::Paused);
        }
        if self.config.admin.is_none() {
            return Err(ContractError::NotInitialized);
        }
        if amount <= 0 {
            return Err(ContractError::InvalidAmount);
        }
        let idx = match self.vault_index(vault_id) {
            None => return Err(ContractError::VaultNotFound),
            Some(i) => i,
        };
        proof { self.lemma_view_index(idx as int); }
        if self.vaults[idx].vault.is_paused {
            return Err(ContractError::Paused);
        }
        if self.vaults[idx].vault.status != ReleaseStatus::Locked {
            return Err(ContractError::AlreadyReleased);
        }
        let last = self.vaults[idx].vault.last_check_in;
        let interval = self.vaults[idx].vault.check_in_interval;
        if now as u128 >= last as u128 + interval as u128 {
            return Err(ContractError::VaultExpired);
        }
        let balance = self.vaults[idx].vault.balance;
        let new_balance = match balance.checked_add(amount) {
            None => return Err(ContractError::BalanceOverflow),
            Some(b) => b,
        };
        if let Some(m) = self.vaults[idx].vault.max_deposit_amount {
            if new_balance > m {
                return Err(ContractError::DepositLimitExceeded);
            }
        }
        let token = self.vaults[idx].vault.token_address;
        self.vaults[idx].vault.balance = new_balance;
        self.vaults[idx].audit_log.push(AuditEntry { action: AuditAction::Deposit, caller: from, timestamp: now, operation_recorded: true });
        self.vaults[idx].audit_log.push(AuditEntry { action: AuditAction::Deposit, caller: from, timestamp: now, operation_recorded: false });
        proof { self.lemma_view_index(idx as int); }
        assert(self@.vaults =~= old(self)@.vaults.update(idx as int, self@.vaults[idx as int]));
        Ok(vec![Transfer { token, from, to: self.contract_address, amount }])
    }

    /// The owner withdraws `amount` from a locked vault back to itself. Returns
    /// the transfer out of the contract.
    pub fn withdraw(&mut self, vault_id: u64, caller: Address, amount: i128, now: u64) -> (r: Result<Vec<Transfer>, ContractError>)
        requires
            old(self).wf(),
        ensures
            final(self).wf(),
            match r {
                Ok(t) => withdraw_error(old(self)@, vault_id, caller, amount) is None && {
                    let rec = old(self)@.rec(vault_id);
                    &&& final(self)@ == balance_moved(old(self)@, vault_id, -amount, AuditAction::Withdraw, caller, now)
                    &&& t@ == seq![Transfer { token: rec.vault.token_address, from: old(self)@.contract_address, to: rec.vault.owner, amount }]
                },
                Err(e) => withdraw_error(old(self)@, vault_id, caller, amount) == Some(e) && final(self)@ == old(self)@,
            },
    {
        if self.config.paused {
            return Err(ContractError::Paused);
        }
        if amount <= 0 {
            return Err(ContractError::InvalidAmount);
        }
        let idx = match self.vault_index(vault_id) {
            None => return Err(ContractError::VaultNotFound),
            Some(i) => i,
        };
        proof { self.lemma_view_index(idx as int); }
        if self.vaults[idx].vault.is_paused {
            return Err(ContractError::Paused);
        }
        self.check_owner_locked(vault_id, caller)?;
        if self.vaults[idx].multisig.is_some() {
            return Err(ContractError::MultiSigRequired);
        }
        let balance = self.vaults[idx].vault.balance;
        if balance < amount {
            return Err(ContractError::InsufficientBalance);
        }
        if let Some(t) = self.vaults[idx].vault.withdrawal_approval_threshold {
            if amount > t {
                return Err(ContractError::WithdrawalNotApproved);
            }
        }
        let token = self.vaults[idx].vault.token_address;
        let owner = self.vaults[idx].vault.owner;
        self.vaults[idx].vault.balance = balance - amount;
        self.vaults[idx].audit_log.push(AuditEntry { action: AuditAction::Withdraw, caller, timestamp: now, operation_recorded: true });
        self.vaults[idx].audit_log.push(AuditEntry { action: AuditAction::Withdraw, caller, timestamp: now, operation_recorded: false });
        proof { self.lemma_view_index(idx as int); }
        assert(self@.vaults =~= old(self)@.vaults.update(idx as int, self@.vaults[idx as int]));
        Ok(vec![Transfer { token, from: self.contract_address, to: owner, amount }])
    }
}

} // verus!
