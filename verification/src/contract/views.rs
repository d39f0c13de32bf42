use vstd::prelude::*;
use crate::contract::error::ContractError;
use crate::contract::index::ids_for_exec;
use crate::contract::state::{ids_for, ContractView, TtlVaultContract};
use crate::contract::types::{copy_vec, Address, AuditEntry, ReleaseStatus, Vault};

verus! {

/// Page `page` of `all`, `page_size` entries per page.
pub open spec fn page_of(all: Seq<u64>, page: u32, page_size: u32) -> Seq<u64> {
    let start = page * page_size;
    if page_size == 0 || start >= all.len() {
        Seq::empty()
    } else if start + page_size >= all.len() {
        all.subrange(start, all.len() as int)
    } else {
        all.subrange(start, start + page_size)
    }
}

/// The ids among `ids` of existing vaults in status `status`.
pub open spec fn ids_in_status(s: ContractView, ids: Seq<u64>, status: ReleaseStatus) -> Seq<u64> {
    ids.filter(|id: u64| s.has_vault(id) && s.vault(id).status == status)
}

/// The ids among `ids`, keeping only those in status `filter` when one is given.
pub open spec fn ids_filtered(s: ContractView, ids: Seq<u64>, filter: Option<ReleaseStatus>) -> Seq<u64> {
    match filter {
        Some(st) => ids_in_status(s, ids, st),
        None => ids,
    }
}

/// Page `page` of `all`, `page_size` entries per page.
pub fn paginate(all: &Vec<u64>, page: u32, page_size: u32) -> (r: Vec<u64>)
    ensures
        r@ == page_of(all@, page, page_size),
{
    let mut r: Vec<u64> = Vec::new();
    if page_size == 0 {
        return r;
    }
    assert(page as u64 * page_size as u64 <= 0xffff_fffe_0000_0001) by (nonlinear_arith)
        requires page <= 0xffff_ffffu32, page_size <= 0xffff_ffffu32;
    let start: u64 = page as u64 * page_size as u64;
    let len: u64 = all.len() as u64;
    if start >= len {
        return r;
    }
    let end: u64 = if start + page_size as u64 >= len { len } else { start + page_size as u64 };
    let s: usize = start as usize;
    let e: usize = end as usize;
    let mut i: usize = s;
    while i < e
        invariant
            s <= i <= e,
            e <= all@.len(),
            s == page * page_size,
            e == end,
            r@ == all@.subrange(s as int, i as int),
        decreases e - i,
    {
        r.push(all[i]);
        i = i + 1;
        assert(r@ =~= all@.subrange(s as int, i as int));
    }
    r
}

impl TtlVaultContract {
    fn filter_by_status(&self, ids: &Vec<u64>, status: ReleaseStatus) -> (r: Vec<u64>)
        ensures
            r@ == ids_in_status(self@, ids@, status),
    {
        let mut r: Vec<u64> = Vec::new();
        let mut k: usize = 0;
        while k < ids.len()
            invariant
                k <= ids@.len(),
                r@ == ids@.subrange(0, k as int).filter(|id: u64| self@.has_vault(id) && self@.vault(id).status == status),
            decreases ids@.len() - k,
        {
            proof { crate::backend::store::lemma_filter_step(ids@, k as int, |id: u64| self@.has_vault(id) && self@.vault(id).status == status); }
            let id = ids[k];
            if let Some(i) = self.vault_index(id) {
                proof { self.lemma_view_index(i as int); }
                if self.vaults[i].vault.status == status {
                    r.push(id);
                }
            }
            k = k + 1;
        }
        assert(ids@.subrange(0, ids@.len() as int) =~= ids@);
        r
    }

    fn filter_optional(&self, ids: Vec<u64>, status_filter: Option<ReleaseStatus>) -> (r: Vec<u64>)
        ensures
            r@ == ids_filtered(self@, ids@, status_filter),
    {
        match status_filter {
            Some(st) => self.filter_by_status(&ids, st),
            None => ids,
        }
    }

    /// A copy of a vault.
    pub fn get_vault(&self, vault_id: u64) -> (r: Result<Vault, ContractError>)
        ensures
            match r {
                Ok(v) => self@.has_vault(vault_id) && v@ == self@.vault(vault_id),
                Err(e) => !self@.has_vault(vault_id) && e == ContractError::VaultNotFound,
            },
    {
        match self.vault_index(vault_id) {
            None => Err(ContractError::VaultNotFound),
            Some(i) => {
                proof { self.lemma_view_index(i as int); }
                Ok(self.vaults[i].vault.duplicate())
            }
        }
    }

    /// The time of a vault's last check-in.
    pub fn get_vault_last_check_in(&self, vault_id: u64) -> (r: Result<u64, ContractError>)
        ensures
            match r {
                Ok(t) => self@.has_vault(vault_id) && t == self@.vault(vault_id).last_check_in,
                Err(e) => !self@.has_vault(vault_id) && e == ContractError::VaultNotFound,
            },
    {
        match self.vault_index(vault_id) {
            None => Err(ContractError::VaultNotFound),
            Some(i) => {
                proof { self.lemma_view_index(i as int); }
                Ok(self.vaults[i].vault.last_check_in)
            }
        }
    }

    /// A vault's balance.
    pub fn get_vault_balance(&self, vault_id: u64) -> (r: Result<i128, ContractError>)
        ensures
            match r {
                Ok(b) => self@.has_vault(vault_id) && b == self@.vault(vault_id).balance,
                Err(e) => !self@.has_vault(vault_id) && e == ContractError::VaultNotFound,
            },
    {
        match self.vault_index(vault_id) {
            None => Err(ContractError::VaultNotFound),
            Some(i) => {
                proof { self.lemma_view_index(i as int); }
                Ok(self.vaults[i].vault.balance)
            }
        }
    }

    /// A vault's owner.
    pub fn get_vault_owner(&self, vault_id: u64) -> (r: Result<Address, ContractError>)
        ensures
            match r {
                Ok(o) => self@.has_vault(vault_id) && o == self@.vault(vault_id).owner,
                Err(e) => !self@.has_vault(vault_id) && e == ContractError::VaultNotFound,
            },
    {
        match self.vault_index(vault_id) {
            None => Err(ContractError::VaultNotFound),
            Some(i) => {
                proof { self.lemma_view_index(i as int); }
                Ok(self.vaults[i].vault.owner)
            }
        }
    }

    /// When a vault was created.
    pub fn get_vault_created_at(&self, vault_id: u64) -> (r: Result<u64, ContractError>)
        ensures
            match r {
                Ok(t) => self@.has_vault(vault_id) && t == self@.vault(vault_id).created_at,
                Err(e) => !self@.has_vault(vault_id) && e == ContractError::VaultNotFound,
            },
    {
        match self.vault_index(vault_id) {
            None => Err(ContractError::VaultNotFound),
            Some(i) => {
                proof { self.lemma_view_index(i as int); }
                Ok(self.vaults[i].vault.created_at)
            }
        }
    }

    /// A vault's release status.
    pub fn get_release_status(&self, vault_id: u64) -> (r: Result<ReleaseStatus, ContractError>)
        ensures
            match r {
                Ok(s) => self@.has_vault(vault_id) && s == self@.vault(vault_id).status,
                Err(e) => !self@.has_vault(vault_id) && e == ContractError::VaultNotFound,
            },
    {
        match self.vault_index(vault_id) {
            None => Err(ContractError::VaultNotFound),
            Some(i) => {
                proof { self.lemma_view_index(i as int); }
                Ok(self.vaults[i].vault.status)
            }
        }
    }

    /// Whether a vault exists.
    pub fn vault_exists(&self, vault_id: u64) -> (r: bool)
        ensures
            r == self@.has_vault(vault_id),
    {
        self.vault_index(vault_id).is_some()
    }

    /// The number of vaults ever created; vault ids run from 1 to this number.
    pub fn vault_count(&self) -> (r: u64)
        requires
            self.wf(),
        ensures
            r == self@.vaults.len(),
    {
        self.vaults.len() as u64
    }

    /// The contract's default token.
    pub fn get_contract_token(&self) -> (r: Result<Address, ContractError>)
        ensures
            match r {
                Ok(t) => self@.config.token == Some(t),
                Err(e) => self@.config.token is None && e == ContractError::NotInitialized,
            },
    {
        match self.config.token {
            None => Err(ContractError::NotInitialized),
            Some(t) => Ok(t),
        }
    }

    /// A page of the ids of an owner's vaults, optionally only those in one status.
    pub fn get_vaults_by_owner(&self, owner: Address, status_filter: Option<ReleaseStatus>, page: u32, page_size: u32) -> (r: Vec<u64>)
        ensures
            r@ == page_of(ids_filtered(self@, self@.owner_ids(owner), status_filter), page, page_size),
    {
        let all = ids_for_exec(&self.owner_index, owner);
        let filtered = self.filter_optional(all, status_filter);
        paginate(&filtered, page, page_size)
    }

    /// A page of the ids of a beneficiary's vaults, optionally only those in one status.
    pub fn get_vaults_by_beneficiary(&self, beneficiary: Address, status_filter: Option<ReleaseStatus>, page: u32, page_size: u32) -> (r: Vec<u64>)
        ensures
            r@ == page_of(ids_filtered(self@, self@.beneficiary_ids(beneficiary), status_filter), page, page_size),
    {
        let all = ids_for_exec(&self.beneficiary_index, beneficiary);
        let filtered = self.filter_optional(all, status_filter);
        paginate(&filtered, page, page_size)
    }

    /// A page of the ids of a beneficiary's locked vaults.
    pub fn get_active_vaults_by_beneficiary(&self, beneficiary: Address, page: u32, page_size: u32) -> (r: Vec<u64>)
        ensures
            r@ == page_of(ids_in_status(self@, self@.beneficiary_ids(beneficiary), ReleaseStatus::Locked), page, page_size),
    {
        let all = ids_for_exec(&self.beneficiary_index, beneficiary);
        let active = self.filter_by_status(&all, ReleaseStatus::Locked);
        paginate(&active, page, page_size)
    }

    /// The ids of all of a beneficiary's vaults.
    pub fn get_vaults_as_beneficiary(&self, beneficiary: Address) -> (r: Vec<u64>)
        ensures
            r@ == self@.beneficiary_ids(beneficiary),
    {
        ids_for_exec(&self.beneficiary_index, beneficiary)
    }

    /// A vault's audit log, oldest entry first.
    pub fn get_vault_audit_log(&self, vault_id: u64) -> (r: Vec<AuditEntry>)
        ensures
            r@ == (if self@.has_vault(vault_id) { self@.rec(vault_id).audit_log } else { Seq::empty() }),
    {
        match self.vault_index(vault_id) {
            None => Vec::new(),
            Some(i) => {
                proof { self.lemma_view_index(i as int); }
                copy_vec(&self.vaults[i].audit_log)
            }
        }
    }
}

} // verus!
