use vstd::prelude::*;
use crate::contract::access::{owner_error, owner_locked_error};
use crate::contract::error::ContractError;
use crate::contract::lifecycle::audit_entry;
use crate::contract::state::{record_wf, without_pair, ContractView, TtlVaultContract, VaultRecordView};
use crate::contract::types::{
    copy_vec, Address, AuditAction, AuditEntry, OwnershipTransferRequest, ReleaseCondition,
    ReleaseConditionView, ReleaseStatus, VaultView,
};

verus! {

/// How long a new owner must wait before accepting: one day.
pub const OWNERSHIP_TRANSFER_TIMELOCK: u64 = 86_400;
/// How long a transfer offer stays open: seven days.
pub const OWNERSHIP_TRANSFER_EXPIRY: u64 = 604_800;
/// Longest custom metadata accepted, in bytes.
pub const MAX_CUSTOM_METADATA_LEN: usize = 2048;

/// Why `initiate_ownership_transfer` refuses, if it does.
pub open spec fn initiate_transfer_error(s: ContractView, vault_id: u64, caller: Address, new_owner: Address) -> Option<ContractError> {
    if s.config.paused {
        Some(ContractError::Paused)
    } else if owner_locked_error(s, vault_id, caller) is Some {
        owner_locked_error(s, vault_id, caller)
    } else if s.rec(vault_id).multisig is Some {
        Some(ContractError::MultiSigRequired)
    } else if new_owner == s.vault(vault_id).beneficiary {
        Some(ContractError::InvalidBeneficiary)
    } else {
        None
    }
}

/// Why `accept_ownership_transfer` refuses, if it does.
pub open spec fn accept_transfer_error(s: ContractView, vault_id: u64, new_owner: Address, now: u64) -> Option<ContractError> {
    if s.config.paused {
        Some(ContractError::Paused)
    } else if !s.has_vault(vault_id) || s.rec(vault_id).pending_ownership is None {
        Some(ContractError::NoPendingOwnershipTransfer)
    } else {
        let req = s.rec(vault_id).pending_ownership->0;
        if new_owner != req.new_owner {
            Some(ContractError::NotOwner)
        } else if now < req.unlocks_at {
            Some(ContractError::OwnershipTransferTimeLocked)
        } else if now > req.expires_at {
            Some(ContractError::OwnershipTransferExpired)
        } else if s.vault(vault_id).status != ReleaseStatus::Locked {
            Some(ContractError::AlreadyReleased)
        } else {
            None
        }
    }
}

/// The state after an accepted transfer: the new owner owns and indexes the
/// vault, and the offer is gone.
pub open spec fn accept_transfer_effect(s: ContractView, vault_id: u64, new_owner: Address, now: u64) -> ContractView {
    let r = s.rec(vault_id);
    let s1 = s.with_record(vault_id, VaultRecordView {
        vault: VaultView { owner: new_owner, ..r.vault },
        pending_ownership: None,
        audit_log: r.audit_log.push(audit_entry(AuditAction::AcceptOwnershipTransfer, new_owner, now)),
        ..r
    });
    if r.vault.owner != new_owner {
        ContractView { owner_index: without_pair(s.owner_index, r.vault.owner, vault_id).push((new_owner, vault_id)), ..s1 }
    } else {
        s1
    }
}

impl TtlVaultContract {
    /// The owner of a locked vault offers it to a new owner (not the
    /// beneficiary), who may accept after one day and within seven. Returns
    /// the time from which the offer can be accepted.
    pub fn initiate_ownership_transfer(&mut self, vault_id: u64, caller: Address, new_owner: Address, now: u64) -> (r: Result<u64, ContractError>)
        requires
            old(self).wf(),
            now + OWNERSHIP_TRANSFER_EXPIRY <= u64::MAX,
        ensures
            final(self).wf(),
            match r {
                Ok(unlocks_at) => initiate_transfer_error(old(self)@, vault_id, caller, new_owner) is None
                    && unlocks_at == now + OWNERSHIP_TRANSFER_TIMELOCK
                    && final(self)@ == old(self)@.with_record(vault_id, VaultRecordView {
                        pending_ownership: Some(OwnershipTransferRequest {
                            new_owner,
                            initiated_at: now,
                            unlocks_at,
                            expires_at: (now + OWNERSHIP_TRANSFER_EXPIRY) as u64,
                        }),
                        audit_log: old(self)@.rec(vault_id).audit_log.push(audit_entry(AuditAction::InitiateOwnershipTransfer, caller, now)),
                        ..old(self)@.rec(vault_id)
                    }),
                Err(e) => initiate_transfer_error(old(self)@, vault_id, caller, new_owner) == Some(e) && final(self)@ == old(self)@,
            },
    {
        if self.config.paused {
            return Err(ContractError::Paused);
        }
        let i = self.check_owner_locked(vault_id, caller)?;
        proof { self.lemma_view_index(i as int); }
        if self.vaults[i].multisig.is_some() {
            return Err(ContractError::MultiSigRequired);
        }
        if new_owner == self.vaults[i].vault.beneficiary {
            return Err(ContractError::InvalidBeneficiary);
        }
        let unlocks_at = now + OWNERSHIP_TRANSFER_TIMELOCK;
        let request = OwnershipTransferRequest { new_owner, initiated_at: now, unlocks_at, expires_at: now + OWNERSHIP_TRANSFER_EXPIRY };
        self.vaults[i].pending_ownership = Some(request);
        self.vaults[i].audit_log.push(AuditEntry { action: AuditAction::InitiateOwnershipTransfer, caller, timestamp: now, operation_recorded: true });
        proof {
            self.lemma_view_index(i as int);
            let r0 = old(self)@.rec(vault_id);
            assert(self@.vaults[i as int] =~= VaultRecordView {
                pending_ownership: Some(request),
                audit_log: r0.audit_log.push(audit_entry(AuditAction::InitiateOwnershipTransfer, caller, now)),
                ..r0
            });
            assert(self@.vaults =~= old(self)@.vaults.update(i as int, self@.vaults[i as int]));
        }
        Ok(unlocks_at)
    }

    /// The offered new owner accepts a transfer within its window; the vault
    /// must still be locked.
    pub fn accept_ownership_transfer(&mut self, vault_id: u64, new_owner: Address, now: u64) -> (r: Result<(), ContractError>)
        requires
            old(self).wf(),
        ensures
            final(self).wf(),
            match r {
                Ok(()) => accept_transfer_error(old(self)@, vault_id, new_owner, now) is None
                    && final(self)@ == accept_transfer_effect(old(self)@, vault_id, new_owner, now),
                Err(e) => accept_transfer_error(old(self)@, vault_id, new_owner, now) == Some(e) && final(self)@ == old(self)@,
            },
    {
        if self.config.paused {
            return Err(ContractError::Paused);
        }
        let i = match self.vault_index(vault_id) {
            None => return Err(ContractError::NoPendingOwnershipTransfer),
            Some(i) => i,
        };
        proof { self.lemma_view_index(i as int); }
        let req = match self.vaults[i].pending_ownership {
            None => return Err(ContractError::NoPendingOwnershipTransfer),
            Some(q) => q,
        };
        if new_owner != req.new_owner {
            return Err(ContractError::NotOwner);
        }
        if now < req.unlocks_at {
            return Err(ContractError::OwnershipTransferTimeLocked);
        }
        if now > req.expires_at {
            return Err(ContractError::OwnershipTransferExpired);
        }
        if self.vaults[i].vault.status != ReleaseStatus::Locked {
            return Err(ContractError::AlreadyReleased);
        }
        let old_owner = self.vaults[i].vault.owner;
        self.vaults[i].vault.owner = new_owner;
        self.vaults[i].pending_ownership = None;
        self.vaults[i].audit_log.push(AuditEntry { action: AuditAction::AcceptOwnershipTransfer, caller: new_owner, timestamp: now, operation_recorded: true });
        proof {
            self.lemma_view_index(i as int);
            let r0 = old(self)@.rec(vault_id);
            assert(self@.vaults[i as int].vault =~= VaultView { owner: new_owner, ..r0.vault });
            assert(self@.vaults[i as int] =~= VaultRecordView {
                vault: VaultView { owner: new_owner, ..r0.vault },
                pending_ownership: None,
                audit_log: r0.audit_log.push(audit_entry(AuditAction::AcceptOwnershipTransfer, new_owner, now)),
                ..r0
            });
            assert(self@.vaults =~= old(self)@.vaults.update(i as int, self@.vaults[i as int]));
            assert forall|j: int| 0 <= j < self@.vaults.len() implies record_wf(#[trigger] self@.vaults[j]) by {
                assert(record_wf(old(self)@.vaults[j]));
            }
        }
        if old_owner != new_owner {
            self.move_owner_index(vault_id, old_owner, new_owner);
        }
        Ok(())
    }

    /// The owner withdraws a pending transfer offer.
    pub fn cancel_ownership_transfer(&mut self, vault_id: u64, caller: Address, now: u64) -> (r: Result<(), ContractError>)
        requires
            old(self).wf(),
        ensures
            final(self).wf(),
            match r {
                Ok(()) => owner_error(old(self)@, vault_id, caller) is None
                    && old(self)@.rec(vault_id).pending_ownership is Some
                    && final(self)@ == old(self)@.with_record(vault_id, VaultRecordView {
                        pending_ownership: None,
                        audit_log: old(self)@.rec(vault_id).audit_log.push(audit_entry(AuditAction::CancelOwnershipTransfer, caller, now)),
                        ..old(self)@.rec(vault_id)
                    }),
                Err(e) => final(self)@ == old(self)@ && e == (match owner_error(old(self)@, vault_id, caller) {
                    Some(x) => x,
                    None => ContractError::NoPendingOwnershipTransfer,
                }) && (owner_error(old(self)@, vault_id, caller) is None ==> old(self)@.rec(vault_id).pending_ownership is None),
            },
    {
        let i = self.check_owner(vault_id, caller)?;
        proof { self.lemma_view_index(i as int); }
        if self.vaults[i].pending_ownership.is_none() {
            return Err(ContractError::NoPendingOwnershipTransfer);
        }
        self.vaults[i].pending_ownership = None;
        self.vaults[i].audit_log.push(AuditEntry { action: AuditAction::CancelOwnershipTransfer, caller, timestamp: now, operation_recorded: true });
        proof {
            self.lemma_view_index(i as int);
            let r0 = old(self)@.rec(vault_id);
            assert(self@.vaults[i as int] =~= VaultRecordView {
                pending_ownership: None,
                audit_log: r0.audit_log.push(audit_entry(AuditAction::CancelOwnershipTransfer, caller, now)),
                ..r0
            });
            assert(self@.vaults =~= old(self)@.vaults.update(i as int, self@.vaults[i as int]));
        }
        Ok(())
    }

    /// The pending ownership transfer offer of a vault, if any.
    pub fn get_pending_ownership_transfer(&self, vault_id: u64) -> (r: Option<OwnershipTransferRequest>)
        ensures
            r == (if self@.has_vault(vault_id) { self@.rec(vault_id).pending_ownership } else { None }),
    {
        match self.vault_index(vault_id) {
            None => None,
            Some(i) => {
                proof { self.lemma_view_index(i as int); }
                self.vaults[i].pending_ownership
            }
        }
    }

    /// The owner of a locked vault replaces its custom metadata (at most 2,048 bytes).
    pub fn set_vault_metadata(&mut self, vault_id: u64, caller: Address, metadata: Vec<u8>) -> (r: Result<(), ContractError>)
        requires
            old(self).wf(),
        ensures
            final(self).wf(),
            match r {
                Ok(()) => metadata@.len() <= MAX_CUSTOM_METADATA_LEN && owner_locked_error(old(self)@, vault_id, caller) is None
                    && final(self)@ == old(self)@.with_vault(vault_id, VaultView { custom_metadata: metadata@, ..old(self)@.vault(vault_id) }),
                Err(e) => final(self)@ == old(self)@ && if metadata@.len() > MAX_CUSTOM_METADATA_LEN {
                    e == ContractError::InvalidAmount
                } else {
                    owner_locked_error(old(self)@, vault_id, caller) == Some(e)
                },
            },
    {
        if metadata.len() > MAX_CUSTOM_METADATA_LEN {
            return Err(ContractError::InvalidAmount);
        }
        let i = self.check_owner_locked(vault_id, caller)?;
        let ghost mv = metadata@;
        self.vaults[i].vault.custom_metadata = metadata;
        proof {
            self.lemma_view_index(i as int);
            assert(self@.vaults[i as int].vault =~= VaultView { custom_metadata: mv, ..old(self)@.vault(vault_id) });
            assert(self@.vaults[i as int] =~= VaultRecordView { vault: self@.vaults[i as int].vault, ..old(self)@.rec(vault_id) });
            assert(self@.vaults =~= old(self)@.vaults.update(i as int, self@.vaults[i as int]));
            assert forall|j: int| 0 <= j < self@.vaults.len() implies record_wf(#[trigger] self@.vaults[j]) by {
                assert(record_wf(old(self)@.vaults[j]));
            }
        }
        Ok(())
    }

    /// A vault's custom metadata.
    pub fn get_vault_metadata(&self, vault_id: u64) -> (r: Result<Vec<u8>, ContractError>)
        ensures
            match r {
                Ok(m) => self@.has_vault(vault_id) && m@ == self@.vault(vault_id).custom_metadata,
                Err(e) => !self@.has_vault(vault_id) && e == ContractError::VaultNotFound,
            },
    {
        match self.vault_index(vault_id) {
            None => Err(ContractError::VaultNotFound),
            Some(i) => {
                proof { self.lemma_view_index(i as int); }
                Ok(copy_vec(&self.vaults[i].vault.custom_metadata))
            }
        }
    }

    /// The owner of a locked vault resumes it after a pause.
    pub fn resume_vault(&mut self, vault_id: u64, caller: Address) -> (r: Result<(), ContractError>)
        requires
            old(self).wf(),
        ensures
            final(self).wf(),
            match r {
                Ok(()) => owner_locked_error(old(self)@, vault_id, caller) is None
                    && final(self)@ == old(self)@.with_vault(vault_id, VaultView { is_paused: false, ..old(self)@.vault(vault_id) }),
                Err(e) => owner_locked_error(old(self)@, vault_id, caller) == Some(e) && final(self)@ == old(self)@,
            },
    {
        let i = self.check_owner_locked(vault_id, caller)?;
        self.vaults[i].vault.is_paused = false;
        proof {
            self.lemma_view_index(i as int);
            assert(self@.vaults[i as int].vault =~= VaultView { is_paused: false, ..old(self)@.vault(vault_id) });
            assert(self@.vaults[i as int] =~= VaultRecordView { vault: self@.vaults[i as int].vault, ..old(self)@.rec(vault_id) });
            assert(self@.vaults =~= old(self)@.vaults.update(i as int, self@.vaults[i as int]));
            assert forall|j: int| 0 <= j < self@.vaults.len() implies record_wf(#[trigger] self@.vaults[j]) by {
                assert(record_wf(old(self)@.vaults[j]));
            }
        }
        Ok(())
    }

    /// Whether a vault is paused; a missing vault is not.
    pub fn is_vault_paused(&self, vault_id: u64) -> (r: bool)
        ensures
            r == (self@.has_vault(vault_id) && self@.vault(vault_id).is_paused),
    {
        match self.vault_index(vault_id) {
            None => false,
            Some(i) => {
                proof { self.lemma_view_index(i as int); }
                self.vaults[i].vault.is_paused
            }
        }
    }

    /// The owner of a locked vault sets the condition under which it releases.
    pub fn set_release_condition(&mut self, vault_id: u64, caller: Address, condition: ReleaseCondition) -> (r: Result<(), ContractError>)
        requires
            old(self).wf(),
        ensures
            final(self).wf(),
            match r {
                Ok(()) => owner_locked_error(old(self)@, vault_id, caller) is None
                    && final(self)@ == old(self)@.with_vault(vault_id, VaultView { release_condition: condition@, ..old(self)@.vault(vault_id) }),
                Err(e) => owner_locked_error(old(self)@, vault_id, caller) == Some(e) && final(self)@ == old(self)@,
            },
    {
        let i = self.check_owner_locked(vault_id, caller)?;
        let ghost cv = condition@;
        self.vaults[i].vault.release_condition = condition;
        proof {
            self.lemma_view_index(i as int);
            assert(self@.vaults[i as int].vault =~= VaultView { release_condition: cv, ..old(self)@.vault(vault_id) });
            assert(self@.vaults[i as int] =~= VaultRecordView { vault: self@.vaults[i as int].vault, ..old(self)@.rec(vault_id) });
            assert(self@.vaults =~= old(self)@.vaults.update(i as int, self@.vaults[i as int]));
            assert forall|j: int| 0 <= j < self@.vaults.len() implies record_wf(#[trigger] self@.vaults[j]) by {
                assert(record_wf(old(self)@.vaults[j]));
            }
        }
        Ok(())
    }

    /// The release condition of a vault.
    pub fn get_release_condition(&self, vault_id: u64) -> (r: Result<ReleaseCondition, ContractError>)
        ensures
            match r {
                Ok(c) => self@.has_vault(vault_id) && c@ == self@.vault(vault_id).release_condition,
                Err(e) => !self@.has_vault(vault_id) && e == ContractError::VaultNotFound,
            },
    {
        match self.vault_index(vault_id) {
            None => Err(ContractError::VaultNotFound),
            Some(i) => {
                proof { self.lemma_view_index(i as int); }
                Ok(self.vaults[i].vault.release_condition.duplicate())
            }
        }
    }
}

} // verus!
