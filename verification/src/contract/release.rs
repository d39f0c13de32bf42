use vstd::prelude::*;
use crate::contract::access::owner_locked_error;
use crate::contract::error::ContractError;
use crate::contract::lifecycle::activity_entry;
use crate::contract::payout::{payout, payout_transfers};
use crate::contract::state::{expired, ContractView, TtlVaultContract, VaultRecordView};
use crate::contract::types::{
    Address, AuditAction, AuditEntry, BeneficiaryStatus, ReleaseStatus, Transfer, VaultView,
    VestingSchedule,
};

verus! {

/// Why `trigger_release` refuses, if it does.
pub open spec fn trigger_release_error(s: ContractView, vault_id: u64, now: u64) -> Option<ContractError> {
    if s.config.paused {
        Some(ContractError::Paused)
    } else if !s.has_vault(vault_id) {
        Some(ContractError::VaultNotFound)
    } else if s.vault(vault_id).status != ReleaseStatus::Locked {
        Some(ContractError::AlreadyReleased)
    } else if !expired(s.vault(vault_id), now) {
        Some(ContractError::NotExpired)
    } else if s.vault(vault_id).balance == 0 {
        Some(ContractError::EmptyVault)
    } else if s.rec(vault_id).beneficiary_status == BeneficiaryStatus::Declined {
        Some(ContractError::InvalidBeneficiary)
    } else {
        None
    }
}

/// A conditional acceptance whose deadline passed without the owner's approval.
pub open spec fn acceptance_lapsed(r: VaultRecordView, now: u64) -> bool {
    r.conditional_acceptance matches Some(c) && !c.approved_by_owner
        && (c.acceptance_deadline matches Some(d) && now > d)
}

/// The amount one release pays: the balance, capped by a spending limit.
pub open spec fn release_amount(v: VaultView) -> int {
    match v.spending_limit {
        Some(l) => if v.balance <= l { v.balance as int } else { l as int },
        None => v.balance as int,
    }
}

/// The record and transfers that a successful `trigger_release` produces.
pub open spec fn trigger_release_effect(s: ContractView, vault_id: u64, now: u64) -> (VaultRecordView, Seq<Transfer>) {
    let r = s.rec(vault_id);
    let v = r.vault;
    if acceptance_lapsed(r, now) {
        (VaultRecordView {
            vault: VaultView { balance: 0, status: ReleaseStatus::Cancelled, ..v },
            archived: None,
            ..r
        },
        seq![Transfer { token: v.token_address, from: s.contract_address, to: v.owner, amount: v.balance }])
    } else if r.vesting is Some {
        (VaultRecordView { vault: VaultView { status: ReleaseStatus::Released, ..v }, archived: None, ..r }, Seq::empty())
    } else {
        let amount = release_amount(v);
        let left = v.balance - amount;
        (VaultRecordView {
            vault: VaultView {
                balance: left as i128,
                status: if left == 0 { ReleaseStatus::Released } else { v.status },
                ..v
            },
            archived: None,
            audit_log: r.audit_log.push(activity_entry(AuditAction::TriggerRelease, v.owner, now)),
            ..r
        },
        payout_transfers(v.token_address, s.contract_address, v.beneficiary, amount, v.beneficiaries))
    }
}

/// Why `partial_release` refuses, if it does.
pub open spec fn partial_release_error(s: ContractView, vault_id: u64, amount: i128, now: u64) -> Option<ContractError> {
    if s.config.paused {
        Some(ContractError::Paused)
    } else if amount <= 0 {
        Some(ContractError::InvalidAmount)
    } else if !s.has_vault(vault_id) {
        Some(ContractError::VaultNotFound)
    } else if s.vault(vault_id).status != ReleaseStatus::Locked {
        Some(ContractError::AlreadyReleased)
    } else if expired(s.vault(vault_id), now) {
        Some(ContractError::VaultExpired)
    } else if s.vault(vault_id).balance < amount {
        Some(ContractError::InsufficientBalance)
    } else {
        None
    }
}

/// How many installments of a schedule are unlocked at `now` (for `now >= start_time`).
pub open spec fn unlocked_installments(s: VestingSchedule, now: u64) -> int {
    let n = (now - s.start_time) / (s.interval as int) + 1;
    if n < s.num_installments { n } else { s.num_installments as int }
}

/// The amount a claim pays: everything left once all installments are unlocked,
/// otherwise one equal installment per newly unlocked installment.
pub open spec fn claim_amount(s: VestingSchedule, balance: i128, now: u64) -> int {
    let unlocked = unlocked_installments(s, now);
    if unlocked >= s.num_installments {
        balance as int
    } else {
        ((s.total_amount as int) / (s.num_installments as int)) * (unlocked - s.claimed_installments)
    }
}

/// Why `claim_vested_installment` refuses, if it does.
pub open spec fn claim_error(st: ContractView, vault_id: u64, now: u64) -> Option<ContractError> {
    if st.config.paused {
        Some(ContractError::Paused)
    } else if !st.has_vault(vault_id) {
        Some(ContractError::VaultNotFound)
    } else if st.vault(vault_id).status != ReleaseStatus::Released {
        Some(ContractError::AlreadyReleased)
    } else if st.rec(vault_id).vesting is None {
        Some(ContractError::VestingNotFound)
    } else {
        let s = st.rec(vault_id).vesting->0;
        if s.claimed_installments >= s.num_installments {
            Some(ContractError::VestingAlreadyComplete)
        } else if now < s.start_time {
            Some(ContractError::NothingToClaimYet)
        } else if unlocked_installments(s, now) <= s.claimed_installments {
            Some(ContractError::NothingToClaimYet)
        } else if st.vault(vault_id).balance < claim_amount(s, st.vault(vault_id).balance, now) {
            Some(ContractError::InsufficientBalance)
        } else {
            None
        }
    }
}

/// Why `set_vesting_schedule` refuses, if it does.
pub open spec fn set_vesting_error(s: ContractView, vault_id: u64, caller: Address, interval: u64, num_installments: u32) -> Option<ContractError> {
    if s.config.paused {
        Some(ContractError::Paused)
    } else if owner_locked_error(s, vault_id, caller) is Some {
        owner_locked_error(s, vault_id, caller)
    } else if interval == 0 || num_installments == 0 {
        Some(ContractError::InvalidInterval)
    } else if s.vault(vault_id).balance == 0 {
        Some(ContractError::EmptyVault)
    } else {
        None
    }
}

impl TtlVaultContract {
    /// Whether a vault has expired: the current time has reached its deadline
    /// (last check-in plus interval). Fails if the vault does not exist.
    pub fn is_expired(&self, vault_id: u64, now: u64) -> (r: Result<bool, ContractError>)
        ensures
            match r {
                Ok(b) => self@.has_vault(vault_id) && b == expired(self@.vault(vault_id), now),
                Err(e) => !self@.has_vault(vault_id) && e == ContractError::VaultNotFound,
            },
    {
        match self.vault_index(vault_id) {
            None => Err(ContractError::VaultNotFound),
            Some(i) => {
                proof { self.lemma_view_index(i as int); }
                let v = &self.vaults[i].vault;
                Ok(now as u128 >= v.last_check_in as u128 + v.check_in_interval as u128)
            }
        }
    }

    /// Releases an expired vault's funds. With a lapsed conditional acceptance
    /// the funds return to the owner and the vault is cancelled; with a vesting
    /// schedule the vault is marked released and the funds stay for claims;
    /// otherwise the balance (capped by a spending limit) is paid to the
    /// beneficiary or split among the beneficiaries. Returns the transfers made.
    pub fn trigger_release(&mut self, vault_id: u64, now: u64) -> (r: Result<Vec<Transfer>, ContractError>)
        requires
            old(self).wf(),
        ensures
            final(self).wf(),
            match r {
                Ok(t) => trigger_release_error(old(self)@, vault_id, now) is None
                    && final(self)@ == old(self)@.with_record(vault_id, trigger_release_effect(old(self)@, vault_id, now).0)
                    && t@ == trigger_release_effect(old(self)@, vault_id, now).1,
                Err(e) => trigger_release_error(old(self)@, vault_id, now) == Some(e) && final(self)@ == old(self)@,
            },
    {
        if self.config.paused {
            return Err(ContractError::Paused);
        }
        let idx = match self.vault_index(vault_id) {
            None => return Err(ContractError::VaultNotFound),
            Some(i) => i,
        };
        proof {
            self.lemma_view_index(idx as int);
            assert(crate::contract::state::record_wf(self@.vaults[idx as int]));
        }
        if self.vaults[idx].vault.status != ReleaseStatus::Locked {
            return Err(ContractError::AlreadyReleased);
        }
        if !self.is_expired(vault_id, now)? {
            return Err(ContractError::NotExpired);
        }
        let total = self.vaults[idx].vault.balance;
        if total == 0 {
            return Err(ContractError::EmptyVault);
        }
        if self.vaults[idx].beneficiary_status == BeneficiaryStatus::Declined {
            return Err(ContractError::InvalidBeneficiary);
        }
        let token = self.vaults[idx].vault.token_address;
        let owner = self.vaults[idx].vault.owner;
        let contract = self.contract_address;
        let lapsed = match &self.vaults[idx].conditional_acceptance {
            Some(c) => match c.acceptance_deadline {
                Some(d) => now > d && !c.approved_by_owner,
                None => false,
            },
            None => false,
        };
        if lapsed {
            self.vaults[idx].vault.balance = 0;
            self.vaults[idx].vault.status = ReleaseStatus::Cancelled;
            self.vaults[idx].archived = None;
            proof { self.lemma_view_index(idx as int); }
            assert(self@.vaults =~= old(self)@.vaults.update(idx as int, self@.vaults[idx as int]));
            let mut t: Vec<Transfer> = Vec::new();
            t.push(Transfer { token, from: contract, to: owner, amount: total });
            return Ok(t);
        }
        if self.vaults[idx].vesting.is_some() {
            self.vaults[idx].vault.status = ReleaseStatus::Released;
            self.vaults[idx].archived = None;
            proof { self.lemma_view_index(idx as int); }
            assert(self@.vaults =~= old(self)@.vaults.update(idx as int, self@.vaults[idx as int]));
            return Ok(Vec::new());
        }
        let amount: i128 = match self.vaults[idx].vault.spending_limit {
            Some(l) => if total <= l { total } else { l },
            None => total,
        };
        let beneficiary = self.vaults[idx].vault.beneficiary;
        let t = payout(token, contract, beneficiary, amount, &self.vaults[idx].vault.beneficiaries);
        let left = total - amount;
        self.vaults[idx].vault.balance = left;
        if left == 0 {
            self.vaults[idx].vault.status = ReleaseStatus::Released;
        }
        self.vaults[idx].archived = None;
        self.vaults[idx].audit_log.push(AuditEntry { action: AuditAction::TriggerRelease, caller: owner, timestamp: now, operation_recorded: false });
        proof { self.lemma_view_index(idx as int); }
        assert(self@.vaults =~= old(self)@.vaults.update(idx as int, self@.vaults[idx as int]));
        Ok(t)
    }

    /// The owner pays `amount` to the beneficiary (or splits it among the
    /// beneficiaries) while the vault stays locked. Returns the transfers made.
    pub fn partial_release(&mut self, vault_id: u64, amount: i128, now: u64) -> (r: Result<Vec<Transfer>, ContractError>)
        requires
            old(self).wf(),
        ensures
            final(self).wf(),
            match r {
                Ok(t) => partial_release_error(old(self)@, vault_id, amount, now) is None && {
                    let rec = old(self)@.rec(vault_id);
                    &&& final(self)@ == old(self)@.with_vault(vault_id, VaultView { balance: (rec.vault.balance - amount) as i128, ..rec.vault })
                    &&& t@ == payout_transfers(rec.vault.token_address, old(self)@.contract_address, rec.vault.beneficiary, amount as int, rec.vault.beneficiaries)
                },
                Err(e) => partial_release_error(old(self)@, vault_id, amount, now) == Some(e) && final(self)@ == old(self)@,
            },
    {
        if self.config.paused {
            return Err(ContractError::Paused);
        }
        if amount <= 0 {
            return Err(ContractError::InvalidAmount);
        }
        let idx = match self.vault_index(vault_id) {
            None => return Err(ContractError::VaultNotFound),
            Some(i) => i,
        };
        proof {
            self.lemma_view_index(idx as int);
            assert(crate::contract::state::record_wf(self@.vaults[idx as int]));
        }
        if self.vaults[idx].vault.status != ReleaseStatus::Locked {
            return Err(ContractError::AlreadyReleased);
        }
        if self.is_expired(vault_id, now)? {
            return Err(ContractError::VaultExpired);
        }
        let balance = self.vaults[idx].vault.balance;
        if balance < amount {
            return Err(ContractError::InsufficientBalance);
        }
        let t = payout(self.vaults[idx].vault.token_address, self.contract_address, self.vaults[idx].vault.beneficiary, amount, &self.vaults[idx].vault.beneficiaries);
        self.vaults[idx].vault.balance = balance - amount;
        proof { self.lemma_view_index(idx as int); }
        assert(self@.vaults =~= old(self)@.vaults.update(idx as int, self@.vaults[idx as int]));
        Ok(t)
    }

    /// Attaches a vesting schedule to a locked, funded vault (owner only); the
    /// schedule covers the whole current balance.
    pub fn set_vesting_schedule(
        &mut self,
        vault_id: u64,
        caller: Address,
        start_time: u64,
        interval: u64,
        num_installments: u32,
    ) -> (r: Result<(), ContractError>)
        requires
            old(self).wf(),
        ensures
            final(self).wf(),
            match r {
                Ok(()) => set_vesting_error(old(self)@, vault_id, caller, interval, num_installments) is None
                    && final(self)@ == old(self)@.with_record(vault_id, VaultRecordView {
                        vesting: Some(VestingSchedule {
                            start_time,
                            interval,
                            num_installments,
                            claimed_installments: 0,
                            total_amount: old(self)@.vault(vault_id).balance,
                        }),
                        ..old(self)@.rec(vault_id)
                    }),
                Err(e) => set_vesting_error(old(self)@, vault_id, caller, interval, num_installments) == Some(e)
                    && final(self)@ == old(self)@,
            },
    {
        if self.config.paused {
            return Err(ContractError::Paused);
        }
        let idx = self.check_owner_locked(vault_id, caller)?;
        proof { self.lemma_view_index(idx as int); }
        if interval == 0 || num_installments == 0 {
            return Err(ContractError::InvalidInterval);
        }
        let balance = self.vaults[idx].vault.balance;
        if balance == 0 {
            return Err(ContractError::EmptyVault);
        }
        self.vaults[idx].vesting = Some(VestingSchedule {
            start_time,
            interval,
            num_installments,
            claimed_installments: 0,
            total_amount: balance,
        });
        proof { self.lemma_view_index(idx as int); }
        assert(self@.vaults =~= old(self)@.vaults.update(idx as int, self@.vaults[idx as int]));
        Ok(())
    }

    /// The vesting schedule of a vault, if any.
    pub fn get_vesting_schedule(&self, vault_id: u64) -> (r: Option<VestingSchedule>)
        ensures
            r == (if self@.has_vault(vault_id) { self@.rec(vault_id).vesting } else { None }),
    {
        match self.vault_index(vault_id) {
            None => None,
            Some(i) => {
                proof { self.lemma_view_index(i as int); }
                self.vaults[i].vesting
            }
        }
    }

    /// Claims the installments of a released vault's vesting schedule that
    /// have unlocked since the last claim. Returns the amount paid and the
    /// transfers made.
    pub fn claim_vested_installment(&mut self, vault_id: u64, now: u64) -> (r: Result<(i128, Vec<Transfer>), ContractError>)
        requires
            old(self).wf(),
        ensures
            final(self).wf(),
            match r {
                Ok((amount, t)) => claim_error(old(self)@, vault_id, now) is None && {
                    let rec = old(self)@.rec(vault_id);
                    let s = rec.vesting->0;
                    &&& amount == claim_amount(s, rec.vault.balance, now)
                    &&& final(self)@ == old(self)@.with_record(vault_id, VaultRecordView {
                        vault: VaultView { balance: (rec.vault.balance - amount) as i128, ..rec.vault },
                        vesting: Some(VestingSchedule { claimed_installments: unlocked_installments(s, now) as u32, ..s }),
                        ..rec
                    })
                    &&& t@ == payout_transfers(rec.vault.token_address, old(self)@.contract_address, rec.vault.beneficiary, amount as int, rec.vault.beneficiaries)
                },
                Err(e) => claim_error(old(self)@, vault_id, now) == Some(e) && final(self)@ == old(self)@,
            },
    {
        if self.config.paused {
            return Err(ContractError::Paused);
        }
        let idx = match self.vault_index(vault_id) {
            None => return Err(ContractError::VaultNotFound),
            Some(i) => i,
        };
        proof {
            self.lemma_view_index(idx as int);
            assert(crate::contract::state::record_wf(self@.vaults[idx as int]));
        }
        if self.vaults[idx].vault.status != ReleaseStatus::Released {
            return Err(ContractError::AlreadyReleased);
        }
        let s = match self.vaults[idx].vesting {
            None => return Err(ContractError::VestingNotFound),
            Some(s) => s,
        };
        if s.claimed_installments >= s.num_installments {
            return Err(ContractError::VestingAlreadyComplete);
        }
        if now < s.start_time {
            return Err(ContractError::NothingToClaimYet);
        }
        let steps: u64 = (now - s.start_time) / s.interval;
        let unlocked: u32 = if steps < s.num_installments as u64 { (steps + 1) as u32 } else { s.num_installments };
        assert(unlocked == unlocked_installments(s, now));
        if unlocked <= s.claimed_installments {
            return Err(ContractError::NothingToClaimYet);
        }
        let balance = self.vaults[idx].vault.balance;
        let amount: i128 = if unlocked >= s.num_installments {
            balance
        } else {
            let per: i128 = s.total_amount / (s.num_installments as i128);
            let k: i128 = (unlocked - s.claimed_installments) as i128;
            assert(0 <= per * k <= s.total_amount) by (nonlinear_arith)
                requires
                    per == (s.total_amount as int) / (s.num_installments as int),
                    s.total_amount >= 0,
                    0 < k <= s.num_installments,
                    s.num_installments > 0;
            per * k
        };
        if balance < amount {
            return Err(ContractError::InsufficientBalance);
        }
        assert(amount >= 0);
        let t = payout(self.vaults[idx].vault.token_address, self.contract_address, self.vaults[idx].vault.beneficiary, amount, &self.vaults[idx].vault.beneficiaries);
        self.vaults[idx].vault.balance = balance - amount;
        self.vaults[idx].vesting = Some(VestingSchedule { claimed_installments: unlocked, ..s });
        proof { self.lemma_view_index(idx as int); }
        assert(self@.vaults =~= old(self)@.vaults.update(idx as int, self@.vaults[idx as int]));
        Ok((amount, t))
    }
}

} // verus!
