use vstd::prelude::*;
use crate::contract::access::owner_locked_error;
use crate::contract::error::ContractError;
use crate::contract::lifecycle::{activity_entry, audited};
use crate::contract::state::{bps_total, record_wf, without_pair, ContractView, TtlVaultContract, VaultRecordView};
use crate::contract::types::{
    copy_vec, Address, AuditAction, AuditEntry, BeneficiaryEntry, ReleaseStatus, Transfer, VaultView,
};

verus! {

/// Longest vault metadata accepted, in bytes.
pub const MAX_METADATA_LEN: usize = 256;
/// Longest vault name accepted, in bytes.
pub const MAX_NAME_LEN: usize = 64;
/// Longest vault description accepted, in bytes.
pub const MAX_DESCRIPTION_LEN: usize = 512;
/// Longest vault notes accepted, in bytes.
pub const MAX_NOTES_LEN: usize = 1024;

/// Every share is at most the total.
pub proof fn lemma_bps_le_total(s: Seq<BeneficiaryEntry>)
    ensures
        forall|i: int| 0 <= i < s.len() ==> #[trigger] s[i].bps <= bps_total(s),
        bps_total(s) >= 0,
    decreases s.len(),
{
    if s.len() > 0 {
        lemma_bps_le_total(s.drop_last());
        assert forall|i: int| 0 <= i < s.len() implies #[trigger] s[i].bps <= bps_total(s) by {
            if i < s.len() - 1 {
                assert(s[i] == s.drop_last()[i]);
            }
        }
    }
}

/// Dropping entries does not raise the total.
pub proof fn lemma_bps_filter(s: Seq<BeneficiaryEntry>, p: spec_fn(BeneficiaryEntry) -> bool)
    ensures
        bps_total(s.filter(p)) <= bps_total(s),
        forall|i: int| 0 <= i < s.filter(p).len() ==> exists|j: int| 0 <= j < s.len() && #[trigger] s.filter(p)[i] == s[j],
    decreases s.len(),
{
    reveal(Seq::filter);
    if s.len() > 0 {
        lemma_bps_filter(s.drop_last(), p);
        lemma_bps_le_total(s.drop_last().filter(p));
        let f = s.filter(p);
        let g = s.drop_last().filter(p);
        if p(s.last()) {
            assert(f.drop_last() =~= g);
        }
        assert forall|i: int| 0 <= i < f.len() implies exists|j: int| 0 <= j < s.len() && #[trigger] f[i] == s[j] by {
            if p(s.last()) && i == f.len() - 1 {
                assert(f[i] == s[s.len() - 1]);
            } else {
                assert(f[i] == g[i]);
                let j = choose|j: int| 0 <= j < s.drop_last().len() && g[i] == s.drop_last()[j];
                assert(s.drop_last()[j] == s[j]);
            }
        }
    }
}

/// Why `set_beneficiaries` refuses, if it does.
pub open spec fn set_beneficiaries_error(s: ContractView, vault_id: u64, caller: Address, list: Seq<BeneficiaryEntry>) -> Option<ContractError> {
    if list.len() == 0 {
        Some(ContractError::InvalidBps)
    } else if owner_locked_error(s, vault_id, caller) is Some {
        owner_locked_error(s, vault_id, caller)
    } else if bps_total(list) != 10_000 {
        Some(ContractError::InvalidBps)
    } else if exists|i: int| 0 <= i < list.len() && (#[trigger] list[i]).address == s.vault(vault_id).owner {
        Some(ContractError::InvalidBeneficiary)
    } else {
        None
    }
}

/// Why `add_beneficiary` refuses, if it does.
pub open spec fn add_beneficiary_error(s: ContractView, vault_id: u64, caller: Address, address: Address, bps: u32) -> Option<ContractError> {
    if owner_locked_error(s, vault_id, caller) is Some {
        owner_locked_error(s, vault_id, caller)
    } else if address == s.vault(vault_id).owner {
        Some(ContractError::InvalidBeneficiary)
    } else if exists|i: int| 0 <= i < s.vault(vault_id).beneficiaries.len() && (#[trigger] s.vault(vault_id).beneficiaries[i]).address == address {
        Some(ContractError::InvalidBeneficiary)
    } else if bps_total(s.vault(vault_id).beneficiaries) + bps > 10_000 {
        Some(ContractError::InvalidBps)
    } else {
        None
    }
}

/// The state after an audited change to one vault.
pub open spec fn with_audited_vault(s: ContractView, vault_id: u64, v: VaultView, action: AuditAction, caller: Address, now: u64) -> ContractView {
    let r = s.rec(vault_id);
    s.with_record(vault_id, VaultRecordView { vault: v, audit_log: audited(r.audit_log, action, caller, now), ..r })
}

/// Why `update_beneficiary` refuses, if it does.
pub open spec fn update_beneficiary_error(s: ContractView, vault_id: u64, caller: Address, new_beneficiary: Address) -> Option<ContractError> {
    if owner_locked_error(s, vault_id, caller) is Some {
        owner_locked_error(s, vault_id, caller)
    } else if s.rec(vault_id).multisig is Some {
        Some(ContractError::MultiSigRequired)
    } else if new_beneficiary == s.vault(vault_id).owner {
        Some(ContractError::InvalidBeneficiary)
    } else {
        None
    }
}

/// Why `update_check_in_interval` refuses, if it does.
pub open spec fn update_interval_error(s: ContractView, vault_id: u64, new_interval: u64) -> Option<ContractError> {
    if s.config.paused {
        Some(ContractError::Paused)
    } else if new_interval == 0 {
        Some(ContractError::InvalidInterval)
    } else if s.interval_bounds_error(new_interval) is Some {
        s.interval_bounds_error(new_interval)
    } else if !s.has_vault(vault_id) {
        Some(ContractError::VaultNotFound)
    } else if s.vault(vault_id).status != ReleaseStatus::Locked {
        Some(ContractError::AlreadyReleased)
    } else if s.rec(vault_id).multisig is Some {
        Some(ContractError::MultiSigRequired)
    } else {
        None
    }
}

/// Why `cancel_vault` refuses, if it does.
pub open spec fn cancel_error(s: ContractView, vault_id: u64, caller: Address) -> Option<ContractError> {
    if s.config.paused {
        Some(ContractError::Paused)
    } else if owner_locked_error(s, vault_id, caller) is Some {
        owner_locked_error(s, vault_id, caller)
    } else if s.rec(vault_id).multisig is Some {
        Some(ContractError::MultiSigRequired)
    } else {
        None
    }
}

/// The state after cancelling a vault: emptied, cancelled and unindexed.
pub open spec fn cancel_effect(s: ContractView, vault_id: u64, caller: Address, now: u64) -> ContractView {
    let v = s.vault(vault_id);
    ContractView {
        owner_index: without_pair(s.owner_index, v.owner, vault_id),
        beneficiary_index: without_pair(s.beneficiary_index, v.beneficiary, vault_id),
        ..with_audited_vault(s, vault_id, VaultView { balance: 0, status: ReleaseStatus::Cancelled, ..v }, AuditAction::CancelVault, caller, now)
    }
}

impl TtlVaultContract {
    fn sum_bps(list: &Vec<BeneficiaryEntry>) -> (r: u128)
        ensures
            r == bps_total(list@),
    {
        let mut total: u128 = 0;
        let mut k: usize = 0;
        while k < list.len()
            invariant
                k <= list@.len(),
                total == bps_total(list@.subrange(0, k as int)),
                total <= k * 0xffff_ffff,
            decreases list@.len() - k,
        {
            assert(list@.subrange(0, k + 1).drop_last() =~= list@.subrange(0, k as int));
            total = total + list[k].bps as u128;
            k = k + 1;
        }
        assert(list@.subrange(0, list@.len() as int) =~= list@);
        total
    }

    fn has_entry_for(list: &Vec<BeneficiaryEntry>, address: Address) -> (r: bool)
        ensures
            r == exists|i: int| 0 <= i < list@.len() && (#[trigger] list@[i]).address == address,
    {
        let mut k: usize = 0;
        while k < list.len()
            invariant
                k <= list@.len(),
                forall|j: int| 0 <= j < k ==> (#[trigger] list@[j]).address != address,
            decreases list@.len() - k,
        {
            if list[k].address == address {
                assert(list@[k as int].address == address);
                return true;
            }
            k = k + 1;
        }
        false
    }

    /// The owner of a locked vault splits its release among several
    /// beneficiaries; the shares must total 10,000 basis points and may not
    /// include the owner.
    pub fn set_beneficiaries(&mut self, vault_id: u64, caller: Address, beneficiaries: Vec<BeneficiaryEntry>) -> (r: Result<(), ContractError>)
        requires
            old(self).wf(),
            bps_total(beneficiaries@) <= u32::MAX,
        ensures
            final(self).wf(),
            match r {
                Ok(()) => set_beneficiaries_error(old(self)@, vault_id, caller, beneficiaries@) is None
                    && final(self)@ == old(self)@.with_vault(vault_id, VaultView { beneficiaries: beneficiaries@, ..old(self)@.vault(vault_id) }),
                Err(e) => set_beneficiaries_error(old(self)@, vault_id, caller, beneficiaries@) == Some(e) && final(self)@ == old(self)@,
            },
    {
        if beneficiaries.len() == 0 {
            return Err(ContractError::InvalidBps);
        }
        let i = self.check_owner_locked(vault_id, caller)?;
        proof { self.lemma_view_index(i as int); }
        if Self::sum_bps(&beneficiaries) != 10_000 {
            return Err(ContractError::InvalidBps);
        }
        if Self::has_entry_for(&beneficiaries, self.vaults[i].vault.owner) {
            return Err(ContractError::InvalidBeneficiary);
        }
        proof { lemma_bps_le_total(beneficiaries@); }
        let ghost bv = beneficiaries@;
        self.vaults[i].vault.beneficiaries = beneficiaries;
        proof {
            self.lemma_view_index(i as int);
            assert(self@.vaults[i as int].vault =~= VaultView { beneficiaries: bv, ..old(self)@.vault(vault_id) });
            assert(self@.vaults[i as int] =~= VaultRecordView { vault: self@.vaults[i as int].vault, ..old(self)@.rec(vault_id) });
            assert(self@.vaults =~= old(self)@.vaults.update(i as int, self@.vaults[i as int]));
            assert forall|j: int| 0 <= j < self@.vaults.len() implies record_wf(#[trigger] self@.vaults[j]) by {
                assert(record_wf(old(self)@.vaults[j]));
            }
        }
        Ok(())
    }

    /// The owner of a locked vault adds a beneficiary with a share, as long as
    /// the shares stay within 10,000 basis points.
    pub fn add_beneficiary(&mut self, vault_id: u64, caller: Address, address: Address, percentage: u32) -> (r: Result<(), ContractError>)
        requires
            old(self).wf(),
            old(self)@.has_vault(vault_id) ==> bps_total(old(self)@.vault(vault_id).beneficiaries) + percentage <= u32::MAX,
        ensures
            final(self).wf(),
            match r {
                Ok(()) => add_beneficiary_error(old(self)@, vault_id, caller, address, percentage) is None
                    && final(self)@ == old(self)@.with_vault(vault_id, VaultView {
                        beneficiaries: old(self)@.vault(vault_id).beneficiaries.push(BeneficiaryEntry { address, bps: percentage }),
                        ..old(self)@.vault(vault_id)
                    }),
                Err(e) => add_beneficiary_error(old(self)@, vault_id, caller, address, percentage) == Some(e) && final(self)@ == old(self)@,
            },
    {
        let i = self.check_owner_locked(vault_id, caller)?;
        proof { self.lemma_view_index(i as int); }
        if address == self.vaults[i].vault.owner {
            return Err(ContractError::InvalidBeneficiary);
        }
        if Self::has_entry_for(&self.vaults[i].vault.beneficiaries, address) {
            return Err(ContractError::InvalidBeneficiary);
        }
        if Self::sum_bps(&self.vaults[i].vault.beneficiaries) + percentage as u128 > 10_000 {
            return Err(ContractError::InvalidBps);
        }
        let ghost b0 = self@.vaults[i as int].vault.beneficiaries;
        self.vaults[i].vault.beneficiaries.push(BeneficiaryEntry { address, bps: percentage });
        proof {
            self.lemma_view_index(i as int);
            let b1 = b0.push(BeneficiaryEntry { address, bps: percentage });
            assert(b1.drop_last() =~= b0);
            assert(self@.vaults[i as int].vault =~= VaultView { beneficiaries: b1, ..old(self)@.vault(vault_id) });
            assert(self@.vaults[i as int] =~= VaultRecordView { vault: self@.vaults[i as int].vault, ..old(self)@.rec(vault_id) });
            assert(self@.vaults =~= old(self)@.vaults.update(i as int, self@.vaults[i as int]));
            lemma_bps_le_total(b1);
            assert forall|j: int| 0 <= j < self@.vaults.len() implies record_wf(#[trigger] self@.vaults[j]) by {
                assert(record_wf(old(self)@.vaults[j]));
            }
        }
        Ok(())
    }

    /// The owner of a locked vault removes a beneficiary's share.
    pub fn remove_beneficiary(&mut self, vault_id: u64, caller: Address, address: Address) -> (r: Result<(), ContractError>)
        requires
            old(self).wf(),
        ensures
            final(self).wf(),
            match r {
                Ok(()) => owner_locked_error(old(self)@, vault_id, caller) is None
                    && (exists|i: int| 0 <= i < old(self)@.vault(vault_id).beneficiaries.len()
                        && (#[trigger] old(self)@.vault(vault_id).beneficiaries[i]).address == address)
                    && final(self)@ == old(self)@.with_vault(vault_id, VaultView {
                        beneficiaries: old(self)@.vault(vault_id).beneficiaries.filter(|e: BeneficiaryEntry| e.address != address),
                        ..old(self)@.vault(vault_id)
                    }),
                Err(e) => final(self)@ == old(self)@ && e == (match owner_locked_error(old(self)@, vault_id, caller) {
                    Some(x) => x,
                    None => ContractError::InvalidBeneficiary,
                }) && (owner_locked_error(old(self)@, vault_id, caller) is None ==> !exists|i: int| 0 <= i < old(self)@.vault(vault_id).beneficiaries.len()
                    && (#[trigger] old(self)@.vault(vault_id).beneficiaries[i]).address == address),
            },
    {
        let i = self.check_owner_locked(vault_id, caller)?;
        proof { self.lemma_view_index(i as int); }
        let list = &self.vaults[i].vault.beneficiaries;
        let mut kept: Vec<BeneficiaryEntry> = Vec::new();
        let mut found = false;
        let mut k: usize = 0;
        while k < list.len()
            invariant
                k <= list@.len(),
                list@ == old(self)@.vault(vault_id).beneficiaries,
                kept@ == list@.subrange(0, k as int).filter(|e: BeneficiaryEntry| e.address != address),
                found == exists|j: int| 0 <= j < k && (#[trigger] list@[j]).address == address,
            decreases list@.len() - k,
        {
            proof { crate::backend::store::lemma_filter_step(list@, k as int, |e: BeneficiaryEntry| e.address != address); }
            let e = list[k];
            if e.address != address {
                kept.push(e);
            } else {
                found = true;
            }
            k = k + 1;
        }
        assert(list@.subrange(0, list@.len() as int) =~= list@);
        if !found {
            return Err(ContractError::InvalidBeneficiary);
        }
        let ghost kv = kept@;
        proof {
            lemma_bps_filter(list@, |e: BeneficiaryEntry| e.address != address);
            lemma_bps_le_total(list@);
            assert(record_wf(old(self)@.vaults[i as int]));
        }
        self.vaults[i].vault.beneficiaries = kept;
        proof {
            self.lemma_view_index(i as int);
            assert(self@.vaults[i as int].vault =~= VaultView { beneficiaries: kv, ..old(self)@.vault(vault_id) });
            assert(self@.vaults[i as int] =~= VaultRecordView { vault: self@.vaults[i as int].vault, ..old(self)@.rec(vault_id) });
            assert(self@.vaults =~= old(self)@.vaults.update(i as int, self@.vaults[i as int]));
            assert forall|j: int| 0 <= j < kv.len() implies #[trigger] kv[j].bps <= 10_000 by {
                let m = choose|m: int| 0 <= m < old(self)@.vault(vault_id).beneficiaries.len() && kv[j] == old(self)@.vault(vault_id).beneficiaries[m];
            }
            assert forall|j: int| 0 <= j < self@.vaults.len() implies record_wf(#[trigger] self@.vaults[j]) by {
                assert(record_wf(old(self)@.vaults[j]));
            }
        }
        Ok(())
    }

    /// The owner of a locked vault names a new beneficiary (not itself); the
    /// beneficiary index follows.
    pub fn update_beneficiary(&mut self, vault_id: u64, caller: Address, new_beneficiary: Address, now: u64) -> (r: Result<(), ContractError>)
        requires
            old(self).wf(),
        ensures
            final(self).wf(),
            match r {
                Ok(()) => update_beneficiary_error(old(self)@, vault_id, caller, new_beneficiary) is None && {
                    let v = old(self)@.vault(vault_id);
                    let s1 = with_audited_vault(old(self)@, vault_id, VaultView { beneficiary: new_beneficiary, ..v },
                        AuditAction::UpdateBeneficiary, caller, now);
                    final(self)@ == if v.beneficiary != new_beneficiary {
                        ContractView { beneficiary_index: without_pair(old(self)@.beneficiary_index, v.beneficiary, vault_id).push((new_beneficiary, vault_id)), ..s1 }
                    } else {
                        s1
                    }
                },
                Err(e) => update_beneficiary_error(old(self)@, vault_id, caller, new_beneficiary) == Some(e) && final(self)@ == old(self)@,
            },
    {
        let i = self.check_owner_locked(vault_id, caller)?;
        proof { self.lemma_view_index(i as int); }
        if self.vaults[i].multisig.is_some() {
            return Err(ContractError::MultiSigRequired);
        }
        if new_beneficiary == self.vaults[i].vault.owner {
            return Err(ContractError::InvalidBeneficiary);
        }
        let old_beneficiary = self.vaults[i].vault.beneficiary;
        self.vaults[i].vault.beneficiary = new_beneficiary;
        self.vaults[i].audit_log.push(AuditEntry { action: AuditAction::UpdateBeneficiary, caller, timestamp: now, operation_recorded: true });
        self.vaults[i].audit_log.push(AuditEntry { action: AuditAction::UpdateBeneficiary, caller, timestamp: now, operation_recorded: false });
        proof {
            self.lemma_view_index(i as int);
            let r0 = old(self)@.rec(vault_id);
            assert(self@.vaults[i as int].vault =~= VaultView { beneficiary: new_beneficiary, ..r0.vault });
            assert(self@.vaults[i as int] =~= VaultRecordView {
                vault: VaultView { beneficiary: new_beneficiary, ..r0.vault },
                audit_log: audited(r0.audit_log, AuditAction::UpdateBeneficiary, caller, now),
                ..r0
            });
            assert(self@.vaults =~= old(self)@.vaults.update(i as int, self@.vaults[i as int]));
            assert forall|j: int| 0 <= j < self@.vaults.len() implies record_wf(#[trigger] self@.vaults[j]) by {
                assert(record_wf(old(self)@.vaults[j]));
            }
        }
        if old_beneficiary != new_beneficiary {
            self.move_beneficiary_index(vault_id, old_beneficiary, new_beneficiary);
        }
        Ok(())
    }

    /// The owner of a locked vault replaces its metadata (at most 256 bytes).
    pub fn update_metadata(&mut self, vault_id: u64, caller: Address, metadata: Vec<u8>, now: u64) -> (r: Result<(), ContractError>)
        requires
            old(self).wf(),
        ensures
            final(self).wf(),
            match r {
                Ok(()) => metadata@.len() <= MAX_METADATA_LEN && owner_locked_error(old(self)@, vault_id, caller) is None
                    && final(self)@ == with_audited_vault(old(self)@, vault_id, VaultView { metadata: metadata@, ..old(self)@.vault(vault_id) },
                        AuditAction::UpdateMetadata, caller, now),
                Err(e) => final(self)@ == old(self)@ && if metadata@.len() > MAX_METADATA_LEN {
                    e == ContractError::InvalidAmount
                } else {
                    owner_locked_error(old(self)@, vault_id, caller) == Some(e)
                },
            },
    {
        if metadata.len() > MAX_METADATA_LEN {
            return Err(ContractError::InvalidAmount);
        }
        let i = self.check_owner_locked(vault_id, caller)?;
        let ghost mv = metadata@;
        self.vaults[i].vault.metadata = metadata;
        self.vaults[i].audit_log.push(AuditEntry { action: AuditAction::UpdateMetadata, caller, timestamp: now, operation_recorded: true });
        self.vaults[i].audit_log.push(AuditEntry { action: AuditAction::UpdateMetadata, caller, timestamp: now, operation_recorded: false });
        proof {
            self.lemma_view_index(i as int);
            let r0 = old(self)@.rec(vault_id);
            assert(self@.vaults[i as int].vault =~= VaultView { metadata: mv, ..r0.vault });
            assert(self@.vaults[i as int] =~= VaultRecordView {
                vault: VaultView { metadata: mv, ..r0.vault },
                audit_log: audited(r0.audit_log, AuditAction::UpdateMetadata, caller, now),
                ..r0
            });
            assert(self@.vaults =~= old(self)@.vaults.update(i as int, self@.vaults[i as int]));
            assert forall|j: int| 0 <= j < self@.vaults.len() implies record_wf(#[trigger] self@.vaults[j]) by {
                assert(record_wf(old(self)@.vaults[j]));
            }
        }
        Ok(())
    }

    /// The owner of a locked vault sets its name, description and notes
    /// (at most 64, 512 and 1,024 bytes). The texts themselves are announced,
    /// not stored; the change is noted in the vault's activity log.
    pub fn set_vault_notes(&mut self, vault_id: u64, caller: Address, name: &Vec<u8>, description: &Vec<u8>, notes: &Vec<u8>, now: u64) -> (r: Result<(), ContractError>)
        requires
            old(self).wf(),
        ensures
            final(self).wf(),
            match r {
                Ok(()) => name@.len() <= MAX_NAME_LEN && description@.len() <= MAX_DESCRIPTION_LEN && notes@.len() <= MAX_NOTES_LEN
                    && owner_locked_error(old(self)@, vault_id, caller) is None
                    && final(self)@ == old(self)@.with_record(vault_id, VaultRecordView {
                        audit_log: old(self)@.rec(vault_id).audit_log.push(activity_entry(AuditAction::UpdateMetadata, caller, now)),
                        ..old(self)@.rec(vault_id)
                    }),
                Err(e) => final(self)@ == old(self)@ && if name@.len() > MAX_NAME_LEN || description@.len() > MAX_DESCRIPTION_LEN
                    || notes@.len() > MAX_NOTES_LEN {
                    e == ContractError::InvalidAmount
                } else {
                    owner_locked_error(old(self)@, vault_id, caller) == Some(e)
                },
            },
    {
        if name.len() > MAX_NAME_LEN || description.len() > MAX_DESCRIPTION_LEN || notes.len() > MAX_NOTES_LEN {
            return Err(ContractError::InvalidAmount);
        }
        let i = self.check_owner_locked(vault_id, caller)?;
        self.vaults[i].audit_log.push(AuditEntry { action: AuditAction::UpdateMetadata, caller, timestamp: now, operation_recorded: false });
        proof {
            self.lemma_view_index(i as int);
            let r0 = old(self)@.rec(vault_id);
            assert(self@.vaults[i as int] =~= VaultRecordView {
                audit_log: r0.audit_log.push(activity_entry(AuditAction::UpdateMetadata, caller, now)),
                ..r0
            });
            assert(self@.vaults =~= old(self)@.vaults.update(i as int, self@.vaults[i as int]));
        }
        Ok(())
    }

    /// A vault's metadata.
    pub fn get_vault_notes(&self, vault_id: u64) -> (r: Result<Vec<u8>, ContractError>)
        ensures
            match r {
                Ok(m) => self@.has_vault(vault_id) && m@ == self@.vault(vault_id).metadata,
                Err(e) => !self@.has_vault(vault_id) && e == ContractError::VaultNotFound,
            },
    {
        match self.vault_index(vault_id) {
            None => Err(ContractError::VaultNotFound),
            Some(i) => {
                proof { self.lemma_view_index(i as int); }
                Ok(copy_vec(&self.vaults[i].vault.metadata))
            }
        }
    }

    /// Sets or clears a vault's spending limit, which must be positive when set.
    pub fn set_spending_limit(&mut self, vault_id: u64, limit: Option<i128>) -> (r: Result<(), ContractError>)
        requires
            old(self).wf(),
        ensures
            final(self).wf(),
            match r {
                Ok(()) => old(self)@.has_vault(vault_id) && !(limit matches Some(l) && l <= 0)
                    && final(self)@ == old(self)@.with_vault(vault_id, VaultView { spending_limit: limit, ..old(self)@.vault(vault_id) }),
                Err(e) => final(self)@ == old(self)@ && if !old(self)@.has_vault(vault_id) {
                    e == ContractError::VaultNotFound
                } else {
                    (limit matches Some(l) && l <= 0) && e == ContractError::InvalidAmount
                },
            },
    {
        let i = match self.vault_index(vault_id) {
            None => return Err(ContractError::VaultNotFound),
            Some(i) => i,
        };
        if let Some(l) = limit {
            if l <= 0 {
                return Err(ContractError::InvalidAmount);
            }
        }
        self.vaults[i].vault.spending_limit = limit;
        proof {
            self.lemma_view_index(i as int);
            assert(self@.vaults[i as int].vault =~= VaultView { spending_limit: limit, ..old(self)@.vault(vault_id) });
            assert(self@.vaults[i as int] =~= VaultRecordView { vault: self@.vaults[i as int].vault, ..old(self)@.rec(vault_id) });
            assert(self@.vaults =~= old(self)@.vaults.update(i as int, self@.vaults[i as int]));
            assert forall|j: int| 0 <= j < self@.vaults.len() implies record_wf(#[trigger] self@.vaults[j]) by {
                assert(record_wf(old(self)@.vaults[j]));
            }
        }
        Ok(())
    }

    /// Changes the check-in interval of a locked vault and restarts its
    /// expiry timer at `now`.
    pub fn update_check_in_interval(&mut self, vault_id: u64, new_interval: u64, now: u64) -> (r: Result<(), ContractError>)
        requires
            old(self).wf(),
        ensures
            final(self).wf(),
            match r {
                Ok(()) => update_interval_error(old(self)@, vault_id, new_interval) is None
                    && final(self)@ == with_audited_vault(old(self)@, vault_id,
                        VaultView { check_in_interval: new_interval, last_check_in: now, ..old(self)@.vault(vault_id) },
                        AuditAction::UpdateCheckInInterval, old(self)@.vault(vault_id).owner, now),
                Err(e) => update_interval_error(old(self)@, vault_id, new_interval) == Some(e) && final(self)@ == old(self)@,
            },
    {
        if self.config.paused {
            return Err(ContractError::Paused);
        }
        if new_interval == 0 {
            return Err(ContractError::InvalidInterval);
        }
        self.check_interval_bounds(new_interval)?;
        let i = match self.vault_index(vault_id) {
            None => return Err(ContractError::VaultNotFound),
            Some(i) => i,
        };
        proof { self.lemma_view_index(i as int); }
        if self.vaults[i].vault.status != ReleaseStatus::Locked {
            return Err(ContractError::AlreadyReleased);
        }
        if self.vaults[i].multisig.is_some() {
            return Err(ContractError::MultiSigRequired);
        }
        let owner = self.vaults[i].vault.owner;
        self.vaults[i].vault.check_in_interval = new_interval;
        self.vaults[i].vault.last_check_in = now;
        self.vaults[i].audit_log.push(AuditEntry { action: AuditAction::UpdateCheckInInterval, caller: owner, timestamp: now, operation_recorded: true });
        self.vaults[i].audit_log.push(AuditEntry { action: AuditAction::UpdateCheckInInterval, caller: owner, timestamp: now, operation_recorded: false });
        proof {
            self.lemma_view_index(i as int);
            let r0 = old(self)@.rec(vault_id);
            let nv = VaultView { check_in_interval: new_interval, last_check_in: now, ..r0.vault };
            assert(self@.vaults[i as int].vault =~= nv);
            assert(self@.vaults[i as int] =~= VaultRecordView {
                vault: nv,
                audit_log: audited(r0.audit_log, AuditAction::UpdateCheckInInterval, owner, now),
                ..r0
            });
            assert(self@.vaults =~= old(self)@.vaults.update(i as int, self@.vaults[i as int]));
            assert forall|j: int| 0 <= j < self@.vaults.len() implies record_wf(#[trigger] self@.vaults[j]) by {
                assert(record_wf(old(self)@.vaults[j]));
            }
        }
        Ok(())
    }

    /// The owner cancels a locked vault: its balance is refunded to the owner,
    /// it is marked cancelled and dropped from the owner and beneficiary
    /// indexes. Returns the refund transfer, if any.
    pub fn cancel_vault(&mut self, vault_id: u64, caller: Address, now: u64) -> (r: Result<Vec<Transfer>, ContractError>)
        requires
            old(self).wf(),
        ensures
            final(self).wf(),
            match r {
                Ok(t) => cancel_error(old(self)@, vault_id, caller) is None
                    && final(self)@ == cancel_effect(old(self)@, vault_id, caller, now)
                    && t@ == (if old(self)@.vault(vault_id).balance > 0 {
                        seq![Transfer {
                            token: old(self)@.vault(vault_id).token_address,
                            from: old(self)@.contract_address,
                            to: old(self)@.vault(vault_id).owner,
                            amount: old(self)@.vault(vault_id).balance,
                        }]
                    } else {
                        Seq::empty()
                    }),
                Err(e) => cancel_error(old(self)@, vault_id, caller) == Some(e) && final(self)@ == old(self)@,
            },
    {
        if self.config.paused {
            return Err(ContractError::Paused);
        }
        let i = self.check_owner_locked(vault_id, caller)?;
        proof { self.lemma_view_index(i as int); }
        if self.vaults[i].multisig.is_some() {
            return Err(ContractError::MultiSigRequired);
        }
        let refund = self.vaults[i].vault.balance;
        let owner = self.vaults[i].vault.owner;
        let beneficiary = self.vaults[i].vault.beneficiary;
        let mut t: Vec<Transfer> = Vec::new();
        if refund > 0 {
            t.push(Transfer { token: self.vaults[i].vault.token_address, from: self.contract_address, to: owner, amount: refund });
        }
        self.vaults[i].vault.balance = 0;
        self.vaults[i].vault.status = ReleaseStatus::Cancelled;
        self.vaults[i].audit_log.push(AuditEntry { action: AuditAction::CancelVault, caller, timestamp: now, operation_recorded: true });
        self.vaults[i].audit_log.push(AuditEntry { action: AuditAction::CancelVault, caller, timestamp: now, operation_recorded: false });
        proof {
            self.lemma_view_index(i as int);
            let r0 = old(self)@.rec(vault_id);
            let nv = VaultView { balance: 0, status: ReleaseStatus::Cancelled, ..r0.vault };
            assert(self@.vaults[i as int].vault =~= nv);
            assert(self@.vaults[i as int] =~= VaultRecordView {
                vault: nv,
                audit_log: audited(r0.audit_log, AuditAction::CancelVault, caller, now),
                ..r0
            });
            assert(self@.vaults =~= old(self)@.vaults.update(i as int, self@.vaults[i as int]));
            assert forall|j: int| 0 <= j < self@.vaults.len() implies record_wf(#[trigger] self@.vaults[j]) by {
                assert(record_wf(old(self)@.vaults[j]));
            }
        }
        self.unindex(vault_id, owner, beneficiary);
        proof {
            assert(self@.vaults =~= cancel_effect(old(self)@, vault_id, caller, now).vaults);
        }
        Ok(t)
    }
}

} // verus!
