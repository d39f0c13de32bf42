use vstd::prelude::*;
use crate::contract::error::ContractError;
use crate::contract::state::{Config, ContractView, TtlVaultContract};
use crate::contract::types::{Address, ReleaseStatus};

verus! {

/// The error of an owner-only operation on a locked vault: the vault must
/// exist, the caller must be its owner, and it must still be locked.
pub open spec fn owner_locked_error(s: ContractView, vault_id: u64, caller: Address) -> Option<ContractError> {
    if !s.has_vault(vault_id) {
        Some(ContractError::VaultNotFound)
    } else if caller != s.vault(vault_id).owner {
        Some(ContractError::NotOwner)
    } else if s.vault(vault_id).status != ReleaseStatus::Locked {
        Some(ContractError::AlreadyReleased)
    } else {
        None
    }
}

/// The error of an owner-only operation that accepts a vault in any status.
pub open spec fn owner_error(s: ContractView, vault_id: u64, caller: Address) -> Option<ContractError> {
    if !s.has_vault(vault_id) {
        Some(ContractError::VaultNotFound)
    } else if caller != s.vault(vault_id).owner {
        Some(ContractError::NotOwner)
    } else {
        None
    }
}

impl TtlVaultContract {
    /// Creates an uninitialized contract whose funds are held by `contract_address`.
    pub fn new(contract_address: Address) -> (r: TtlVaultContract)
        ensures
            r.wf(),
            r@.contract_address == contract_address,
            r@.config.token is None,
            r@.config.admin is None,
            r@.config.pending_admin is None,
            !r@.config.paused,
            r@.config.min_interval is None,
            r@.config.max_interval is None,
            r@.config.max_ttl is None,
            r@.config.decay_rate is None,
            r@.config.wasm_hash is None,
            r@.whitelist.len() == 0,
            r@.bridges.len() == 0,
            r@.vaults.len() == 0,
            r@.owner_index.len() == 0,
            r@.beneficiary_index.len() == 0,
    {
        TtlVaultContract {
            contract_address,
            config: Config {
                token: None,
                admin: None,
                pending_admin: None,
                paused: false,
                min_interval: None,
                max_interval: None,
                max_ttl: None,
                decay_rate: None,
                wasm_hash: None,
            },
            whitelist: Vec::new(),
            bridges: Vec::new(),
            vaults: Vec::new(),
            owner_index: Vec::new(),
            beneficiary_index: Vec::new(),
        }
    }

    /// The storage index of a vault, if it exists.
    pub fn vault_index(&self, vault_id: u64) -> (r: Option<usize>)
        ensures
            match r {
                Some(i) => self@.has_vault(vault_id) && i == vault_id - 1 && i < self.vaults@.len(),
                None => !self@.has_vault(vault_id),
            },
    {
        let n: usize = self.vaults.len();
        if vault_id >= 1 && vault_id <= n as u64 {
            let i: usize = (vault_id - 1) as usize;
            assert(i == vault_id - 1);
            Some(i)
        } else {
            None
        }
    }

    /// Checks an owner-only operation on a locked vault; on success returns the vault's index.
    pub fn check_owner_locked(&self, vault_id: u64, caller: Address) -> (r: Result<usize, ContractError>)
        ensures
            match r {
                Ok(i) => owner_locked_error(self@, vault_id, caller) is None && i == vault_id - 1,
                Err(e) => owner_locked_error(self@, vault_id, caller) == Some(e),
            },
    {
        match self.vault_index(vault_id) {
            None => Err(ContractError::VaultNotFound),
            Some(i) => {
                assert(self@.vaults[i as int] == self.vaults@[i as int]@);
                if caller != self.vaults[i].vault.owner {
                    Err(ContractError::NotOwner)
                } else if self.vaults[i].vault.status != ReleaseStatus::Locked {
                    Err(ContractError::AlreadyReleased)
                } else {
                    Ok(i)
                }
            }
        }
    }

    /// Checks an owner-only operation; on success returns the vault's index.
    pub fn check_owner(&self, vault_id: u64, caller: Address) -> (r: Result<usize, ContractError>)
        ensures
            match r {
                Ok(i) => owner_error(self@, vault_id, caller) is None && i == vault_id - 1,
                Err(e) => owner_error(self@, vault_id, caller) == Some(e),
            },
    {
        match self.vault_index(vault_id) {
            None => Err(ContractError::VaultNotFound),
            Some(i) => {
                assert(self@.vaults[i as int] == self.vaults@[i as int]@);
                if caller != self.vaults[i].vault.owner {
                    Err(ContractError::NotOwner)
                } else {
                    Ok(i)
                }
            }
        }
    }

    /// Pauses a vault, blocking check-ins, deposits and withdrawals until it is resumed.
    pub fn pause_vault(&mut self, vault_id: u64, caller: Address) -> (r: Result<(), ContractError>)
        requires
            old(self).wf(),
        ensures
            final(self).wf(),
            match r {
                Ok(()) => owner_locked_error(old(self)@, vault_id, caller) is None
                    && final(self)@ == old(self)@.with_vault(vault_id, crate::contract::types::VaultView { is_paused: true, ..old(self)@.vault(vault_id) }),
                Err(e) => owner_locked_error(old(self)@, vault_id, caller) == Some(e) && final(self)@ == old(self)@,
            },
    {
        let i = self.check_owner_locked(vault_id, caller)?;
        self.vaults[i].vault.is_paused = true;
        assert(self@.vaults =~= old(self)@.vaults.update(i as int, self.vaults@[i as int]@));
        Ok(())
    }
}

} // verus!
