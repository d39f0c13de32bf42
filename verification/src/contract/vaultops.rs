use vstd::prelude::*;
use crate::contract::error::ContractError;
use crate::contract::lifecycle::{activity_entry, chosen_token, fresh_record_view, new_vault_view, with_new_vault};
use crate::contract::state::{record_wf, ContractView, TtlVaultContract, VaultRecordView};
use crate::contract::types::{copy_vec, Address, AuditAction, AuditEntry, ReleaseStatus, Vault, VaultView};

verus! {

/// Why `create_vault_from_inheritance` refuses its arguments, if it does.
pub open spec fn inheritance_error(
    s: ContractView,
    parent_vault_id: u64,
    caller: Address,
    new_beneficiary: Address,
    check_in_interval: u64,
    token: Option<Address>,
) -> Option<ContractError> {
    if !s.initialized() {
        Some(ContractError::NotInitialized)
    } else if !s.has_vault(parent_vault_id) {
        Some(ContractError::VaultNotFound)
    } else if caller != s.vault(parent_vault_id).beneficiary {
        Some(ContractError::NotOwner)
    } else if s.vault(parent_vault_id).status != ReleaseStatus::Released {
        Some(ContractError::NotExpired)
    } else if check_in_interval == 0 {
        Some(ContractError::InvalidInterval)
    } else if s.interval_bounds_error(check_in_interval) is Some {
        s.interval_bounds_error(check_in_interval)
    } else if caller == new_beneficiary {
        Some(ContractError::InvalidBeneficiary)
    } else if token matches Some(t) && !s.token_allowed(t) {
        Some(ContractError::NotOwner)
    } else {
        None
    }
}

/// The vault that `clone_vault` makes: the source's settings for a new owner
/// and beneficiary, with nothing in it.
pub open spec fn cloned_vault_view(v: VaultView, source_id: u64, owner: Address, beneficiary: Address, now: u64) -> VaultView {
    VaultView {
        owner,
        beneficiary,
        balance: 0,
        last_check_in: now,
        created_at: now,
        status: ReleaseStatus::Locked,
        is_paused: false,
        parent_vault_id: Some(source_id),
        passkey_hash: None,
        ..v
    }
}

/// Why `clone_vault` refuses, if it does.
pub open spec fn clone_error(s: ContractView, source_id: u64, new_owner: Address, new_beneficiary: Address) -> Option<ContractError> {
    if !s.has_vault(source_id) {
        Some(ContractError::VaultNotFound)
    } else if new_owner != s.vault(source_id).owner {
        Some(ContractError::NotOwner)
    } else if s.vault(source_id).status != ReleaseStatus::Locked {
        Some(ContractError::AlreadyReleased)
    } else if new_owner == new_beneficiary {
        Some(ContractError::InvalidBeneficiary)
    } else {
        None
    }
}

impl TtlVaultContract {
    /// The beneficiary of a released vault starts a new vault of its own, which
    /// records the released vault as its parent. Returns the new vault's id.
    pub fn create_vault_from_inheritance(
        &mut self,
        parent_vault_id: u64,
        caller: Address,
        new_beneficiary: Address,
        check_in_interval: u64,
        token_address: Option<Address>,
        now: u64,
    ) -> (r: Result<u64, ContractError>)
        requires
            old(self).wf(),
            old(self)@.vaults.len() + 2 < u64::MAX,
        ensures
            final(self).wf(),
            match r {
                Ok(id) => inheritance_error(old(self)@, parent_vault_id, caller, new_beneficiary, check_in_interval, token_address) is None
                    && id == old(self)@.vaults.len() + 1
                    && final(self)@ == with_new_vault(old(self)@, fresh_record_view(
                        new_vault_view(caller, new_beneficiary, check_in_interval, chosen_token(old(self)@, token_address), now, Some(parent_vault_id)),
                        Seq::empty())),
                Err(e) => inheritance_error(old(self)@, parent_vault_id, caller, new_beneficiary, check_in_interval, token_address) == Some(e)
                    && final(self)@ == old(self)@,
            },
    {
        if self.config.admin.is_none() {
            return Err(ContractError::NotInitialized);
        }
        let p = match self.vault_index(parent_vault_id) {
            None => return Err(ContractError::VaultNotFound),
            Some(p) => p,
        };
        proof { self.lemma_view_index(p as int); }
        if caller != self.vaults[p].vault.beneficiary {
            return Err(ContractError::NotOwner);
        }
        if self.vaults[p].vault.status != ReleaseStatus::Released {
            return Err(ContractError::NotExpired);
        }
        if check_in_interval == 0 {
            return Err(ContractError::InvalidInterval);
        }
        self.check_interval_bounds(check_in_interval)?;
        if caller == new_beneficiary {
            return Err(ContractError::InvalidBeneficiary);
        }
        let token = match token_address {
            Some(t) => {
                self.check_token(t)?;
                t
            }
            None => self.config.token.unwrap(),
        };
        let vault = Self::new_vault(caller, new_beneficiary, check_in_interval, token, now, Some(parent_vault_id));
        let log: Vec<AuditEntry> = Vec::new();
        let rec = Self::fresh_record(vault, log);
        let id = self.push_record(rec);
        Ok(id)
    }

    /// The vault an inherited vault came from, if any.
    pub fn get_parent_vault(&self, vault_id: u64) -> (r: Option<u64>)
        ensures
            r == (if self@.has_vault(vault_id) { self@.vault(vault_id).parent_vault_id } else { None }),
    {
        match self.vault_index(vault_id) {
            None => None,
            Some(i) => {
                proof { self.lemma_view_index(i as int); }
                self.vaults[i].vault.parent_vault_id
            }
        }
    }

    /// The owner of a locked vault creates an empty copy of its settings for a
    /// new beneficiary. Returns the new vault's id.
    pub fn clone_vault(&mut self, source_vault_id: u64, new_owner: Address, new_beneficiary: Address, now: u64) -> (r: Result<u64, ContractError>)
        requires
            old(self).wf(),
            old(self)@.vaults.len() + 2 < u64::MAX,
        ensures
            final(self).wf(),
            match r {
                Ok(id) => clone_error(old(self)@, source_vault_id, new_owner, new_beneficiary) is None
                    && id == old(self)@.vaults.len() + 1
                    && final(self)@ == with_new_vault(old(self)@, fresh_record_view(
                        cloned_vault_view(old(self)@.vault(source_vault_id), source_vault_id, new_owner, new_beneficiary, now),
                        seq![activity_entry(AuditAction::CloneVault, new_owner, now)])),
                Err(e) => clone_error(old(self)@, source_vault_id, new_owner, new_beneficiary) == Some(e)
                    && final(self)@ == old(self)@,
            },
    {
        let p = match self.vault_index(source_vault_id) {
            None => return Err(ContractError::VaultNotFound),
            Some(p) => p,
        };
        proof { self.lemma_view_index(p as int); }
        let o = &self.vaults[p].vault;
        if new_owner != o.owner {
            return Err(ContractError::NotOwner);
        }
        if o.status != ReleaseStatus::Locked {
            return Err(ContractError::AlreadyReleased);
        }
        if new_owner == new_beneficiary {
            return Err(ContractError::InvalidBeneficiary);
        }
        let vault = Vault {
            owner: new_owner,
            beneficiary: new_beneficiary,
            balance: 0,
            check_in_interval: o.check_in_interval,
            last_check_in: now,
            created_at: now,
            status: ReleaseStatus::Locked,
            beneficiaries: copy_vec(&o.beneficiaries),
            metadata: copy_vec(&o.metadata),
            token_address: o.token_address,
            custom_metadata: copy_vec(&o.custom_metadata),
            is_paused: false,
            release_condition: o.release_condition.duplicate(),
            parent_vault_id: Some(source_vault_id),
            passkey_hash: None,
            max_deposit_amount: o.max_deposit_amount,
            withdrawal_approval_threshold: o.withdrawal_approval_threshold,
            spending_limit: o.spending_limit,
        };
        assert(vault@ =~= cloned_vault_view(old(self)@.vault(source_vault_id), source_vault_id, new_owner, new_beneficiary, now));
        let mut log: Vec<AuditEntry> = Vec::new();
        log.push(AuditEntry { action: AuditAction::CloneVault, caller: new_owner, timestamp: now, operation_recorded: false });
        assert(log@ =~= seq![activity_entry(AuditAction::CloneVault, new_owner, now)]);
        let rec = Self::fresh_record(vault, log);
        proof {
            assert(record_wf(old(self)@.vaults[p as int]));
            assert(rec@.vault.beneficiaries == old(self)@.vault(source_vault_id).beneficiaries);
        }
        let id = self.push_record(rec);
        Ok(id)
    }

    /// Brings an archived vault back into use and drops its archive snapshot.
    pub fn restore_vault(&mut self, vault_id: u64) -> (r: Result<(), ContractError>)
        requires
            old(self).wf(),
        ensures
            final(self).wf(),
            match r {
                Ok(()) => old(self)@.has_vault(vault_id)
                    && final(self)@ == old(self)@.with_record(vault_id, VaultRecordView { archived: None, ..old(self)@.rec(vault_id) }),
                Err(e) => !old(self)@.has_vault(vault_id) && e == ContractError::VaultNotFound && final(self)@ == old(self)@,
            },
    {
        let i = match self.vault_index(vault_id) {
            None => return Err(ContractError::VaultNotFound),
            Some(i) => i,
        };
        self.vaults[i].archived = None;
        proof { self.lemma_view_index(i as int); }
        assert(self@.vaults[i as int] =~= VaultRecordView { archived: None, ..old(self)@.rec(vault_id) });
        assert(self@.vaults =~= old(self)@.vaults.update(i as int, self@.vaults[i as int]));
        Ok(())
    }

    /// The archive snapshot of a vault, if one was kept.
    pub fn get_archived_vault_info(&self, vault_id: u64) -> (r: Option<Vault>)
        ensures
            match r {
                Some(v) => self@.has_vault(vault_id) && self@.rec(vault_id).archived == Some(v@),
                None => !self@.has_vault(vault_id) || self@.rec(vault_id).archived is None,
            },
    {
        match self.vault_index(vault_id) {
            None => None,
            Some(i) => {
                proof { self.lemma_view_index(i as int); }
                match &self.vaults[i].archived {
                    None => None,
                    Some(v) => Some(v.duplicate()),
                }
            }
        }
    }
}

} // verus!

verus! {

/// Why source `sid` cannot be merged into vault `target_id`, if it cannot.
pub open spec fn merge_source_error(s: ContractView, target_id: u64, sid: u64) -> Option<ContractError> {
    if sid == target_id {
        Some(ContractError::InvalidAmount)
    } else if !s.has_vault(sid) {
        Some(ContractError::VaultNotFound)
    } else if s.vault(sid).owner != s.vault(target_id).owner {
        Some(ContractError::NotOwner)
    } else if s.vault(sid).token_address != s.vault(target_id).token_address {
        Some(ContractError::InvalidAmount)
    } else if s.vault(sid).status != ReleaseStatus::Locked {
        Some(ContractError::AlreadyReleased)
    } else {
        None
    }
}

/// The first source error among the first `k` sources.
pub open spec fn first_merge_error(s: ContractView, target_id: u64, sources: Seq<u64>, k: int) -> Option<ContractError>
    decreases k,
{
    if k <= 0 {
        None
    } else {
        let prev = first_merge_error(s, target_id, sources, k - 1);
        if prev is Some { prev } else { merge_source_error(s, target_id, sources[k - 1]) }
    }
}

/// The state after emptying and cancelling source `sid`.
pub open spec fn merge_step(s: ContractView, sid: u64, caller: Address, now: u64) -> ContractView {
    let r = s.rec(sid);
    let v = r.vault;
    ContractView {
        owner_index: crate::contract::state::without_pair(s.owner_index, v.owner, sid),
        beneficiary_index: crate::contract::state::without_pair(s.beneficiary_index, v.beneficiary, sid),
        ..s.with_record(sid, VaultRecordView {
            vault: VaultView { balance: 0, status: ReleaseStatus::Cancelled, ..v },
            audit_log: r.audit_log.push(activity_entry(AuditAction::MergeVaultsSource, caller, now)),
            ..r
        })
    }
}

/// The state after the first `k` sources are emptied, with the total moved out of them.
pub open spec fn merge_fold(s: ContractView, sources: Seq<u64>, caller: Address, now: u64, k: int) -> (ContractView, int)
    decreases k,
{
    if k <= 0 {
        (s, 0)
    } else {
        let (prev, acc) = merge_fold(s, sources, caller, now, k - 1);
        (merge_step(prev, sources[k - 1], caller, now), acc + prev.vault(sources[k - 1]).balance)
    }
}

/// Why `merge_vaults` refuses, if it does.
pub open spec fn merge_error(s: ContractView, target_id: u64, sources: Seq<u64>, caller: Address, now: u64) -> Option<ContractError> {
    if s.config.paused {
        Some(ContractError::Paused)
    } else if crate::contract::access::owner_locked_error(s, target_id, caller) is Some {
        crate::contract::access::owner_locked_error(s, target_id, caller)
    } else if first_merge_error(s, target_id, sources, sources.len() as int) is Some {
        first_merge_error(s, target_id, sources, sources.len() as int)
    } else if s.vault(target_id).balance + merge_fold(s, sources, caller, now, sources.len() as int).1 > i128::MAX {
        Some(ContractError::BalanceOverflow)
    } else {
        None
    }
}

/// The state after a merge: every source emptied and cancelled, and the
/// target holding what they held.
pub open spec fn merge_effect(s: ContractView, target_id: u64, sources: Seq<u64>, caller: Address, now: u64) -> ContractView {
    let (sn, acc) = merge_fold(s, sources, caller, now, sources.len() as int);
    let r = sn.rec(target_id);
    sn.with_record(target_id, VaultRecordView {
        vault: VaultView { balance: (s.vault(target_id).balance + acc) as i128, ..r.vault },
        audit_log: r.audit_log.push(activity_entry(AuditAction::MergeVaultsTarget, caller, now)),
        ..r
    })
}

proof fn lemma_first_merge_error_stable(s: ContractView, target_id: u64, sources: Seq<u64>, k: int, m: int)
    requires
        0 <= k <= m,
        first_merge_error(s, target_id, sources, k) is Some,
    ensures
        first_merge_error(s, target_id, sources, m) == first_merge_error(s, target_id, sources, k),
    decreases m - k,
{
    if m > k {
        lemma_first_merge_error_stable(s, target_id, sources, k, m - 1);
    }
}

proof fn lemma_first_merge_error_prefix(s: ContractView, target_id: u64, sources: Seq<u64>, k: int, m: int)
    requires
        1 <= k <= m,
        first_merge_error(s, target_id, sources, m) is None,
    ensures
        merge_source_error(s, target_id, sources[k - 1]) is None,
    decreases m - k,
{
    if m > k {
        lemma_first_merge_error_prefix(s, target_id, sources, k, m - 1);
    }
}

/// Merging keeps the vault list's length, every source existing, every
/// record's well-formedness and the target's record, and never lowers the total.
proof fn lemma_merge_fold(s: ContractView, target_id: u64, sources: Seq<u64>, caller: Address, now: u64, k: int)
    requires
        0 <= k <= sources.len(),
        s.wf(),
        s.has_vault(target_id),
        first_merge_error(s, target_id, sources, sources.len() as int) is None,
    ensures
        merge_fold(s, sources, caller, now, k).0.vaults.len() == s.vaults.len(),
        merge_fold(s, sources, caller, now, k).0.config == s.config,
        merge_fold(s, sources, caller, now, k).0.contract_address == s.contract_address,
        merge_fold(s, sources, caller, now, k).0.rec(target_id) == s.rec(target_id),
        merge_fold(s, sources, caller, now, k).0.wf(),
        merge_fold(s, sources, caller, now, k).1 >= 0,
    decreases k,
{
    if k > 0 {
        lemma_merge_fold(s, target_id, sources, caller, now, k - 1);
        lemma_first_merge_error_prefix(s, target_id, sources, k, sources.len() as int);
        let prev = merge_fold(s, sources, caller, now, k - 1).0;
        let sid = sources[k - 1];
        assert(record_wf(prev.vaults[sid - 1]));
        let next = merge_step(prev, sid, caller, now);
        assert forall|j: int| 0 <= j < next.vaults.len() implies record_wf(#[trigger] next.vaults[j]) by {
            assert(record_wf(prev.vaults[j]));
        }
    }
}

impl TtlVaultContract {
    /// The owner merges locked vaults into a locked target vault with the same
    /// owner and token: each source's balance moves to the target, and the
    /// sources are cancelled and unindexed.
    pub fn merge_vaults(&mut self, target_vault_id: u64, source_vault_ids: &Vec<u64>, caller: Address, now: u64) -> (r: Result<(), ContractError>)
        requires
            old(self).wf(),
        ensures
            final(self).wf(),
            match r {
                Ok(()) => merge_error(old(self)@, target_vault_id, source_vault_ids@, caller, now) is None
                    && final(self)@ == merge_effect(old(self)@, target_vault_id, source_vault_ids@, caller, now),
                Err(e) => merge_error(old(self)@, target_vault_id, source_vault_ids@, caller, now) == Some(e)
                    && final(self)@ == old(self)@,
            },
    {
        if self.config.paused {
            return Err(ContractError::Paused);
        }
        let t = self.check_owner_locked(target_vault_id, caller)?;
        proof { self.lemma_view_index(t as int); }
        let n = source_vault_ids.len();
        let mut k: usize = 0;
        while k < n
            invariant
                self@ == old(self)@,
                self.wf(),
                !old(self)@.config.paused,
                crate::contract::access::owner_locked_error(old(self)@, target_vault_id, caller) is None,
                t == target_vault_id - 1,
                n == source_vault_ids@.len(),
                k <= n,
                first_merge_error(self@, target_vault_id, source_vault_ids@, k as int) is None,
            decreases n - k,
        {
            let sid = source_vault_ids[k];
            let err: Option<ContractError> = if sid == target_vault_id {
                Some(ContractError::InvalidAmount)
            } else {
                match self.vault_index(sid) {
                    None => Some(ContractError::VaultNotFound),
                    Some(i) => {
                        proof { self.lemma_view_index(i as int); self.lemma_view_index(t as int); }
                        if self.vaults[i].vault.owner != self.vaults[t].vault.owner {
                            Some(ContractError::NotOwner)
                        } else if self.vaults[i].vault.token_address != self.vaults[t].vault.token_address {
                            Some(ContractError::InvalidAmount)
                        } else if self.vaults[i].vault.status != ReleaseStatus::Locked {
                            Some(ContractError::AlreadyReleased)
                        } else {
                            None
                        }
                    }
                }
            };
            assert(err == first_merge_error(self@, target_vault_id, source_vault_ids@, k + 1));
            if let Some(e) = err {
                proof { lemma_first_merge_error_stable(self@, target_vault_id, source_vault_ids@, k + 1, n as int); }
                return Err(e);
            }
            k = k + 1;
        }
        // Work out the moved total before changing anything.
        let ghost s0 = self@;
        let mut bal = self.balances();
        let mut acc: i128 = 0;
        let base = self.vaults[t].vault.balance;
        proof {
            assert forall|j: int| 0 <= j < bal@.len() implies bal@[j] == #[trigger] merge_fold(s0, source_vault_ids@, caller, now, 0).0.vaults[j].vault.balance by {}
            assert(record_wf(s0.vaults[t as int]));
        }
        let mut k: usize = 0;
        while k < n
            invariant
                self@ == s0,
                s0 == old(self)@,
                s0.wf(),
                !s0.config.paused,
                crate::contract::access::owner_locked_error(s0, target_vault_id, caller) is None,
                t == target_vault_id - 1,
                base == s0.vault(target_vault_id).balance,
                base >= 0,
                n == source_vault_ids@.len(),
                k <= n,
                first_merge_error(s0, target_vault_id, source_vault_ids@, n as int) is None,
                bal@.len() == s0.vaults.len(),
                forall|j: int| 0 <= j < bal@.len() ==> bal@[j] == #[trigger] merge_fold(s0, source_vault_ids@, caller, now, k as int).0.vaults[j].vault.balance,
                acc == merge_fold(s0, source_vault_ids@, caller, now, k as int).1,
                base + acc <= i128::MAX,
            decreases n - k,
        {
            proof {
                lemma_merge_fold(s0, target_vault_id, source_vault_ids@, caller, now, k as int);
                lemma_merge_fold(s0, target_vault_id, source_vault_ids@, caller, now, k as int + 1);
                lemma_first_merge_error_prefix(s0, target_vault_id, source_vault_ids@, k as int + 1, n as int);
            }
            let sid = source_vault_ids[k];
            assert(merge_source_error(s0, target_vault_id, source_vault_ids@[k as int]) is None);
            assert(sid == source_vault_ids@[k as int]);
            assert(s0.has_vault(sid));
            let i = self.vault_index(sid).unwrap();
            let ghost prev = merge_fold(s0, source_vault_ids@, caller, now, k as int).0;
            proof {
                assert(prev.wf());
                assert(record_wf(prev.vaults[i as int]));
                assert(bal@[i as int] == prev.vault(sid).balance);
            }
            let moved = bal[i];
            if base + acc > i128::MAX - moved {
                proof { lemma_merge_total_grows(s0, target_vault_id, source_vault_ids@, caller, now, k as int + 1, n as int); }
                return Err(ContractError::BalanceOverflow);
            }
            acc = acc + moved;
            bal.set(i, 0);
            proof {
                let next = merge_fold(s0, source_vault_ids@, caller, now, k as int + 1).0;
                assert forall|j: int| 0 <= j < bal@.len() implies bal@[j] == #[trigger] next.vaults[j].vault.balance by {
                    if j != i as int {
                        assert(next.vaults[j] == prev.vaults[j]);
                    }
                }
            }
            k = k + 1;
        }
        // Apply the merge.
        let mut k: usize = 0;
        while k < n
            invariant
                s0 == old(self)@,
                s0.wf(),
                t == target_vault_id - 1,
                s0.has_vault(target_vault_id),
                n == source_vault_ids@.len(),
                k <= n,
                first_merge_error(s0, target_vault_id, source_vault_ids@, n as int) is None,
                self@ == merge_fold(s0, source_vault_ids@, caller, now, k as int).0,
                self.wf(),
            decreases n - k,
        {
            proof {
                lemma_merge_fold(s0, target_vault_id, source_vault_ids@, caller, now, k as int);
                lemma_merge_fold(s0, target_vault_id, source_vault_ids@, caller, now, k as int + 1);
                lemma_first_merge_error_prefix(s0, target_vault_id, source_vault_ids@, k as int + 1, n as int);
            }
            let sid = source_vault_ids[k];
            assert(merge_source_error(s0, target_vault_id, source_vault_ids@[k as int]) is None);
            assert(sid == source_vault_ids@[k as int]);
            assert(s0.has_vault(sid));
            let i = self.vault_index(sid).unwrap();
            let ghost before = self@;
            proof { self.lemma_view_index(i as int); }
            let owner = self.vaults[i].vault.owner;
            let beneficiary = self.vaults[i].vault.beneficiary;
            self.vaults[i].vault.balance = 0;
            self.vaults[i].vault.status = ReleaseStatus::Cancelled;
            self.vaults[i].audit_log.push(AuditEntry { action: AuditAction::MergeVaultsSource, caller, timestamp: now, operation_recorded: false });
            proof {
                self.lemma_view_index(i as int);
                let r0 = before.rec(sid);
                assert(self@.vaults[i as int].vault =~= VaultView { balance: 0, status: ReleaseStatus::Cancelled, ..r0.vault });
                assert(self@.vaults[i as int] =~= VaultRecordView {
                    vault: VaultView { balance: 0, status: ReleaseStatus::Cancelled, ..r0.vault },
                    audit_log: r0.audit_log.push(activity_entry(AuditAction::MergeVaultsSource, caller, now)),
                    ..r0
                });
                assert(self@.vaults =~= before.vaults.update(i as int, self@.vaults[i as int]));
            }
            self.unindex(sid, owner, beneficiary);
            proof {
                let next = merge_fold(s0, source_vault_ids@, caller, now, k as int + 1).0;
                assert(self@.vaults =~= next.vaults);
                assert(self@ =~= next);
            }
            k = k + 1;
        }
        proof {
            lemma_merge_fold(s0, target_vault_id, source_vault_ids@, caller, now, n as int);
            self.lemma_view_index(t as int);
        }
        let ghost before = self@;
        self.vaults[t].vault.balance = base + acc;
        self.vaults[t].audit_log.push(AuditEntry { action: AuditAction::MergeVaultsTarget, caller, timestamp: now, operation_recorded: false });
        proof {
            self.lemma_view_index(t as int);
            let r0 = before.rec(target_vault_id);
            assert(self@.vaults[t as int].vault =~= VaultView { balance: (base + acc) as i128, ..r0.vault });
            assert(self@.vaults[t as int] =~= VaultRecordView {
                vault: VaultView { balance: (base + acc) as i128, ..r0.vault },
                audit_log: r0.audit_log.push(activity_entry(AuditAction::MergeVaultsTarget, caller, now)),
                ..r0
            });
            assert(self@.vaults =~= before.vaults.update(t as int, self@.vaults[t as int]));
            assert(self@ =~= merge_effect(s0, target_vault_id, source_vault_ids@, caller, now));
            assert forall|j: int| 0 <= j < self@.vaults.len() implies record_wf(#[trigger] self@.vaults[j]) by {
                assert(record_wf(before.vaults[j]));
            }
        }
        Ok(())
    }
}

/// The moved total only grows as more sources are merged.
proof fn lemma_merge_total_grows(s: ContractView, target_id: u64, sources: Seq<u64>, caller: Address, now: u64, k: int, m: int)
    requires
        0 <= k <= m <= sources.len(),
        s.wf(),
        s.has_vault(target_id),
        first_merge_error(s, target_id, sources, sources.len() as int) is None,
    ensures
        merge_fold(s, sources, caller, now, k).1 <= merge_fold(s, sources, caller, now, m).1,
    decreases m - k,
{
    if m > k {
        lemma_merge_total_grows(s, target_id, sources, caller, now, k, m - 1);
        lemma_merge_fold(s, target_id, sources, caller, now, m - 1);
        lemma_first_merge_error_prefix(s, target_id, sources, m, sources.len() as int);
        let prev = merge_fold(s, sources, caller, now, m - 1).0;
        assert(record_wf(prev.vaults[sources[m - 1] - 1]));
    }
}

} // verus!
