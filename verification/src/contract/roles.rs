use vstd::prelude::*;
use crate::contract::admin::admin_error;
use crate::contract::error::ContractError;
use crate::contract::state::{ContractView, TtlVaultContract, VaultRecordView};
use crate::contract::types::{
    copy_vec, Address, BeneficiaryStatus, ConditionalAcceptanceEntry, ConditionalAcceptanceView,
    DisputeStatus, ReleaseStatus, Transfer, VaultView, WithdrawalScheduleEntry,
};

verus! {

/// The error of a beneficiary-only operation.
pub open spec fn beneficiary_error(s: ContractView, vault_id: u64, caller: Address) -> Option<ContractError> {
    if !s.has_vault(vault_id) {
        Some(ContractError::VaultNotFound)
    } else if caller != s.vault(vault_id).beneficiary {
        Some(ContractError::NotOwner)
    } else {
        None
    }
}

/// The error of an operation on an existing vault while the contract is not paused.
pub open spec fn live_vault_error(s: ContractView, vault_id: u64) -> Option<ContractError> {
    if s.config.paused {
        Some(ContractError::Paused)
    } else if !s.has_vault(vault_id) {
        Some(ContractError::VaultNotFound)
    } else {
        None
    }
}

/// Whether a schedule entry is due at `now`.
pub open spec fn entry_due(e: WithdrawalScheduleEntry, now: u64) -> bool {
    e.timestamp <= now && e.amount > 0
}

/// The sum of the due amounts among the first `k` entries.
pub open spec fn due_total(s: Seq<WithdrawalScheduleEntry>, now: u64, k: int) -> int
    decreases k,
{
    if k <= 0 {
        0
    } else {
        due_total(s, now, k - 1) + if entry_due(s[k - 1], now) { s[k - 1].amount as int } else { 0 }
    }
}

/// The schedule with every due entry marked paid.
pub open spec fn schedule_paid(s: Seq<WithdrawalScheduleEntry>, now: u64) -> Seq<WithdrawalScheduleEntry> {
    s.map_values(|e: WithdrawalScheduleEntry| if entry_due(e, now) { WithdrawalScheduleEntry { amount: 0, ..e } } else { e })
}

/// A payment to `to` for each due entry among the first `k`, in order.
pub open spec fn due_payments(s: Seq<WithdrawalScheduleEntry>, now: u64, token: Address, from: Address, to: Address, k: int) -> Seq<Transfer>
    decreases k,
{
    if k <= 0 {
        Seq::empty()
    } else {
        let prev = due_payments(s, now, token, from, to, k - 1);
        if entry_due(s[k - 1], now) {
            prev.push(Transfer { token, from, to, amount: s[k - 1].amount })
        } else {
            prev
        }
    }
}

/// Who receives scheduled withdrawals: the delegate, or else the beneficiary.
pub open spec fn payee(r: VaultRecordView) -> Address {
    match r.delegate {
        Some(d) => d,
        None => r.vault.beneficiary,
    }
}

/// Why `execute_scheduled_withdrawal` refuses, if it does.
pub open spec fn scheduled_withdrawal_error(s: ContractView, vault_id: u64, now: u64) -> Option<ContractError> {
    if live_vault_error(s, vault_id) is Some {
        live_vault_error(s, vault_id)
    } else if s.rec(vault_id).withdrawal_schedule is None {
        Some(ContractError::NoScheduledWithdrawals)
    } else {
        let sched = s.rec(vault_id).withdrawal_schedule->0;
        if due_total(sched, now, sched.len() as int) > s.vault(vault_id).balance {
            Some(ContractError::InsufficientBalance)
        } else if due_total(sched, now, sched.len() as int) == 0 {
            Some(ContractError::NoScheduledWithdrawals)
        } else {
            None
        }
    }
}

proof fn lemma_due_total_monotone(s: Seq<WithdrawalScheduleEntry>, now: u64, k: int, m: int)
    requires
        0 <= k <= m <= s.len(),
    ensures
        due_total(s, now, k) <= due_total(s, now, m),
        due_total(s, now, k) == 0 && due_total(s, now, m) > 0 ==> exists|j: int| k <= j < m && entry_due(#[trigger] s[j], now),
    decreases m - k,
{
    if k < m {
        lemma_due_total_monotone(s, now, k, m - 1);
        if due_total(s, now, k) == 0 && due_total(s, now, m) > 0 {
            if due_total(s, now, m - 1) == 0 {
                assert(entry_due(s[m - 1], now));
            }
        }
    }
}

impl TtlVaultContract {
    fn set_beneficiary_status(&mut self, vault_id: u64, caller: Address, status: BeneficiaryStatus) -> (r: Result<(), ContractError>)
        requires
            old(self).wf(),
        ensures
            final(self).wf(),
            match r {
                Ok(()) => beneficiary_error(old(self)@, vault_id, caller) is None
                    && final(self)@ == old(self)@.with_record(vault_id, VaultRecordView { beneficiary_status: status, ..old(self)@.rec(vault_id) }),
                Err(e) => beneficiary_error(old(self)@, vault_id, caller) == Some(e) && final(self)@ == old(self)@,
            },
    {
        let i = match self.vault_index(vault_id) {
            None => return Err(ContractError::VaultNotFound),
            Some(i) => i,
        };
        proof { self.lemma_view_index(i as int); }
        if caller != self.vaults[i].vault.beneficiary {
            return Err(ContractError::NotOwner);
        }
        self.vaults[i].beneficiary_status = status;
        proof { self.lemma_view_index(i as int); }
        assert(self@.vaults[i as int] =~= VaultRecordView { beneficiary_status: status, ..old(self)@.rec(vault_id) });
        assert(self@.vaults =~= old(self)@.vaults.update(i as int, self@.vaults[i as int]));
        Ok(())
    }

    /// The beneficiary accepts its role.
    pub fn accept_beneficiary_role(&mut self, vault_id: u64, caller: Address) -> (r: Result<(), ContractError>)
        requires
            old(self).wf(),
        ensures
            final(self).wf(),
            match r {
                Ok(()) => beneficiary_error(old(self)@, vault_id, caller) is None
                    && final(self)@ == old(self)@.with_record(vault_id, VaultRecordView {
                        beneficiary_status: BeneficiaryStatus::Accepted, ..old(self)@.rec(vault_id) }),
                Err(e) => beneficiary_error(old(self)@, vault_id, caller) == Some(e) && final(self)@ == old(self)@,
            },
    {
        self.set_beneficiary_status(vault_id, caller, BeneficiaryStatus::Accepted)
    }

    /// The beneficiary declines its role.
    pub fn decline_beneficiary_role(&mut self, vault_id: u64, caller: Address) -> (r: Result<(), ContractError>)
        requires
            old(self).wf(),
        ensures
            final(self).wf(),
            match r {
                Ok(()) => beneficiary_error(old(self)@, vault_id, caller) is None
                    && final(self)@ == old(self)@.with_record(vault_id, VaultRecordView {
                        beneficiary_status: BeneficiaryStatus::Declined, ..old(self)@.rec(vault_id) }),
                Err(e) => beneficiary_error(old(self)@, vault_id, caller) == Some(e) && final(self)@ == old(self)@,
            },
    {
        self.set_beneficiary_status(vault_id, caller, BeneficiaryStatus::Declined)
    }

    /// Whether the beneficiary has accepted or declined; pending until it does.
    pub fn get_beneficiary_status(&self, vault_id: u64) -> (r: BeneficiaryStatus)
        ensures
            r == (if self@.has_vault(vault_id) { self@.rec(vault_id).beneficiary_status } else { BeneficiaryStatus::Pending }),
    {
        match self.vault_index(vault_id) {
            None => BeneficiaryStatus::Pending,
            Some(i) => {
                proof { self.lemma_view_index(i as int); }
                self.vaults[i].beneficiary_status
            }
        }
    }

    /// The beneficiary hands its role to a delegate, who then receives
    /// scheduled withdrawals.
    pub fn delegate_beneficiary_role(&mut self, vault_id: u64, delegate_address: Address) -> (r: Result<(), ContractError>)
        requires
            old(self).wf(),
        ensures
            final(self).wf(),
            match r {
                Ok(()) => live_vault_error(old(self)@, vault_id) is None
                    && delegate_address != old(self)@.vault(vault_id).beneficiary
                    && final(self)@ == old(self)@.with_record(vault_id, VaultRecordView {
                        delegate: Some(delegate_address), ..old(self)@.rec(vault_id) }),
                Err(e) => final(self)@ == old(self)@ && e == (match live_vault_error(old(self)@, vault_id) {
                    Some(x) => x,
                    None => ContractError::InvalidBeneficiary,
                }) && (live_vault_error(old(self)@, vault_id) is None ==> delegate_address == old(self)@.vault(vault_id).beneficiary),
            },
    {
        if self.config.paused {
            return Err(ContractError::Paused);
        }
        let i = match self.vault_index(vault_id) {
            None => return Err(ContractError::VaultNotFound),
            Some(i) => i,
        };
        proof { self.lemma_view_index(i as int); }
        if delegate_address == self.vaults[i].vault.beneficiary {
            return Err(ContractError::InvalidBeneficiary);
        }
        self.vaults[i].delegate = Some(delegate_address);
        proof { self.lemma_view_index(i as int); }
        assert(self@.vaults[i as int] =~= VaultRecordView { delegate: Some(delegate_address), ..old(self)@.rec(vault_id) });
        assert(self@.vaults =~= old(self)@.vaults.update(i as int, self@.vaults[i as int]));
        Ok(())
    }

    /// The delegate of a vault's beneficiary, if any.
    pub fn get_delegated_beneficiary(&self, vault_id: u64) -> (r: Option<Address>)
        ensures
            r == (if self@.has_vault(vault_id) { self@.rec(vault_id).delegate } else { None }),
    {
        match self.vault_index(vault_id) {
            None => None,
            Some(i) => {
                proof { self.lemma_view_index(i as int); }
                self.vaults[i].delegate
            }
        }
    }

    /// Replaces a vault's withdrawal schedule with (time, amount) entries;
    /// every amount must be positive.
    pub fn set_withdrawal_schedule(&mut self, vault_id: u64, schedule: &Vec<(u64, i128)>) -> (r: Result<(), ContractError>)
        requires
            old(self).wf(),
        ensures
            final(self).wf(),
            match r {
                Ok(()) => live_vault_error(old(self)@, vault_id) is None
                    && (forall|j: int| 0 <= j < schedule@.len() ==> (#[trigger] schedule@[j]).1 > 0)
                    && final(self)@ == old(self)@.with_record(vault_id, VaultRecordView {
                        withdrawal_schedule: Some(schedule@.map_values(|p: (u64, i128)| WithdrawalScheduleEntry { timestamp: p.0, amount: p.1 })),
                        ..old(self)@.rec(vault_id)
                    }),
                Err(e) => final(self)@ == old(self)@ && e == (match live_vault_error(old(self)@, vault_id) {
                    Some(x) => x,
                    None => ContractError::InvalidAmount,
                }) && (live_vault_error(old(self)@, vault_id) is None ==> exists|j: int| 0 <= j < schedule@.len() && (#[trigger] schedule@[j]).1 <= 0),
            },
    {
        if self.config.paused {
            return Err(ContractError::Paused);
        }
        let i = match self.vault_index(vault_id) {
            None => return Err(ContractError::VaultNotFound),
            Some(i) => i,
        };
        let mut entries: Vec<WithdrawalScheduleEntry> = Vec::new();
        let mut k: usize = 0;
        while k < schedule.len()
            invariant
                self@ == old(self)@,
                self.wf(),
                !old(self)@.config.paused,
                old(self)@.has_vault(vault_id),
                k <= schedule@.len(),
                entries@ == schedule@.subrange(0, k as int).map_values(|p: (u64, i128)| WithdrawalScheduleEntry { timestamp: p.0, amount: p.1 }),
                forall|j: int| 0 <= j < k ==> (#[trigger] schedule@[j]).1 > 0,
            decreases schedule@.len() - k,
        {
            let (timestamp, amount) = schedule[k];
            if amount <= 0 {
                assert(schedule@[k as int].1 <= 0);
                return Err(ContractError::InvalidAmount);
            }
            entries.push(WithdrawalScheduleEntry { timestamp, amount });
            k = k + 1;
            assert(entries@ =~= schedule@.subrange(0, k as int).map_values(|p: (u64, i128)| WithdrawalScheduleEntry { timestamp: p.0, amount: p.1 }));
        }
        assert(schedule@.subrange(0, schedule@.len() as int) =~= schedule@);
        let ghost ev = entries@;
        self.vaults[i].withdrawal_schedule = Some(entries);
        proof { self.lemma_view_index(i as int); }
        assert(self@.vaults[i as int] =~= VaultRecordView { withdrawal_schedule: Some(ev), ..old(self)@.rec(vault_id) });
        assert(self@.vaults =~= old(self)@.vaults.update(i as int, self@.vaults[i as int]));
        Ok(())
    }

    /// Pays out every due entry of a vault's withdrawal schedule, to the delegate
    /// if there is one and otherwise to the beneficiary, and marks them paid.
    /// Refused when the due total exceeds the balance or nothing is due.
    /// Returns the payments made.
    pub fn execute_scheduled_withdrawal(&mut self, vault_id: u64, now: u64) -> (r: Result<Vec<Transfer>, ContractError>)
        requires
            old(self).wf(),
        ensures
            final(self).wf(),
            match r {
                Ok(t) => scheduled_withdrawal_error(old(self)@, vault_id, now) is None && {
                    let rec = old(self)@.rec(vault_id);
                    let sched = rec.withdrawal_schedule->0;
                    &&& final(self)@ == old(self)@.with_record(vault_id, VaultRecordView {
                        vault: VaultView { balance: (rec.vault.balance - due_total(sched, now, sched.len() as int)) as i128, ..rec.vault },
                        withdrawal_schedule: Some(schedule_paid(sched, now)),
                        ..rec
                    })
                    &&& t@ == due_payments(sched, now, rec.vault.token_address, old(self)@.contract_address, payee(rec), sched.len() as int)
                },
                Err(e) => scheduled_withdrawal_error(old(self)@, vault_id, now) == Some(e) && final(self)@ == old(self)@,
            },
    {
        if self.config.paused {
            return Err(ContractError::Paused);
        }
        let i = match self.vault_index(vault_id) {
            None => return Err(ContractError::VaultNotFound),
            Some(i) => i,
        };
        proof { self.lemma_view_index(i as int); }
        let rec = &self.vaults[i];
        let sched = match &rec.withdrawal_schedule {
            None => return Err(ContractError::NoScheduledWithdrawals),
            Some(s) => s,
        };
        let token = rec.vault.token_address;
        let to = match rec.delegate {
            Some(d) => d,
            None => rec.vault.beneficiary,
        };
        let balance = rec.vault.balance;
        let n = sched.len();
        let mut bal: i128 = balance;
        let mut paid: Vec<WithdrawalScheduleEntry> = Vec::new();
        let mut t: Vec<Transfer> = Vec::new();
        let mut k: usize = 0;
        while k < n
            invariant
                self@ == old(self)@,
                self.wf(),
                !old(self)@.config.paused,
                old(self)@.has_vault(vault_id),
                old(self)@.rec(vault_id).withdrawal_schedule == Some(sched@),
                balance == old(self)@.vault(vault_id).balance,
                n == sched@.len(),
                k <= n,
                bal == balance - due_total(sched@, now, k as int),
                bal >= 0,
                balance >= 0,
                paid@ == schedule_paid(sched@.subrange(0, k as int), now),
                t@ == due_payments(sched@, now, token, self.contract_address, to, k as int),
            decreases n - k,
        {
            let e = sched[k];
            let ghost before = paid@;
            if e.timestamp <= now && e.amount > 0 {
                if bal < e.amount {
                    proof {
                        lemma_due_total_monotone(sched@, now, k + 1, n as int);
                    }
                    return Err(ContractError::InsufficientBalance);
                }
                t.push(Transfer { token, from: self.contract_address, to, amount: e.amount });
                bal = bal - e.amount;
                paid.push(WithdrawalScheduleEntry { timestamp: e.timestamp, amount: 0 });
            } else {
                paid.push(e);
            }
            k = k + 1;
            assert(paid@ =~= schedule_paid(sched@.subrange(0, k as int), now));
        }
        assert(sched@.subrange(0, n as int) =~= sched@);
        if bal == balance {
            return Err(ContractError::NoScheduledWithdrawals);
        }
        let ghost pv = paid@;
        self.vaults[i].vault.balance = bal;
        self.vaults[i].withdrawal_schedule = Some(paid);
        proof {
            self.lemma_view_index(i as int);
            let r0 = old(self)@.rec(vault_id);
            assert(self@.vaults[i as int].vault =~= VaultView { balance: bal, ..r0.vault });
            assert(self@.vaults[i as int] =~= VaultRecordView {
                vault: VaultView { balance: bal, ..r0.vault },
                withdrawal_schedule: Some(pv),
                ..r0
            });
            assert(self@.vaults =~= old(self)@.vaults.update(i as int, self@.vaults[i as int]));
            assert forall|j: int| 0 <= j < self@.vaults.len() implies crate::contract::state::record_wf(#[trigger] self@.vaults[j]) by {
                assert(crate::contract::state::record_wf(old(self)@.vaults[j]));
            }
        }
        Ok(t)
    }

    /// The beneficiary accepts its role on conditions, which the owner must approve.
    pub fn accept_with_conditions(&mut self, vault_id: u64, conditions: Vec<u8>) -> (r: Result<(), ContractError>)
        requires
            old(self).wf(),
        ensures
            final(self).wf(),
            match r {
                Ok(()) => live_vault_error(old(self)@, vault_id) is None && conditions@.len() > 0
                    && final(self)@ == old(self)@.with_record(vault_id, VaultRecordView {
                        conditional_acceptance: Some(ConditionalAcceptanceView {
                            conditions: conditions@, approved_by_owner: false, acceptance_deadline: None }),
                        ..old(self)@.rec(vault_id)
                    }),
                Err(e) => final(self)@ == old(self)@ && e == (match live_vault_error(old(self)@, vault_id) {
                    Some(x) => x,
                    None => ContractError::InvalidAmount,
                }) && (live_vault_error(old(self)@, vault_id) is None ==> conditions@.len() == 0),
            },
    {
        if self.config.paused {
            return Err(ContractError::Paused);
        }
        let i = match self.vault_index(vault_id) {
            None => return Err(ContractError::VaultNotFound),
            Some(i) => i,
        };
        if conditions.len() == 0 {
            return Err(ContractError::InvalidAmount);
        }
        let ghost cv = conditions@;
        self.vaults[i].conditional_acceptance = Some(ConditionalAcceptanceEntry {
            conditions,
            approved_by_owner: false,
            acceptance_deadline: None,
        });
        proof { self.lemma_view_index(i as int); }
        assert(self@.vaults[i as int] =~= VaultRecordView {
            conditional_acceptance: Some(ConditionalAcceptanceView { conditions: cv, approved_by_owner: false, acceptance_deadline: None }),
            ..old(self)@.rec(vault_id)
        });
        assert(self@.vaults =~= old(self)@.vaults.update(i as int, self@.vaults[i as int]));
        Ok(())
    }

    /// The owner approves the beneficiary's conditions.
    pub fn approve_conditional_acceptance(&mut self, vault_id: u64) -> (r: Result<(), ContractError>)
        requires
            old(self).wf(),
        ensures
            final(self).wf(),
            match r {
                Ok(()) => live_vault_error(old(self)@, vault_id) is None
                    && old(self)@.rec(vault_id).conditional_acceptance is Some
                    && final(self)@ == old(self)@.with_record(vault_id, VaultRecordView {
                        conditional_acceptance: Some(ConditionalAcceptanceView {
                            approved_by_owner: true, ..old(self)@.rec(vault_id).conditional_acceptance->0 }),
                        ..old(self)@.rec(vault_id)
                    }),
                Err(e) => final(self)@ == old(self)@ && e == (match live_vault_error(old(self)@, vault_id) {
                    Some(x) => x,
                    None => ContractError::InvalidBeneficiary,
                }) && (live_vault_error(old(self)@, vault_id) is None ==> old(self)@.rec(vault_id).conditional_acceptance is None),
            },
    {
        if self.config.paused {
            return Err(ContractError::Paused);
        }
        let i = match self.vault_index(vault_id) {
            None => return Err(ContractError::VaultNotFound),
            Some(i) => i,
        };
        proof { self.lemma_view_index(i as int); }
        if self.vaults[i].conditional_acceptance.is_none() {
            return Err(ContractError::InvalidBeneficiary);
        }
        let ghost c0 = self@.vaults[i as int].conditional_acceptance->0;
        match &mut self.vaults[i].conditional_acceptance {
            Some(c) => { c.approved_by_owner = true; }
            None => {}
        }
        proof { self.lemma_view_index(i as int); }
        assert(self@.vaults[i as int] =~= VaultRecordView {
            conditional_acceptance: Some(ConditionalAcceptanceView { approved_by_owner: true, ..c0 }),
            ..old(self)@.rec(vault_id)
        });
        assert(self@.vaults =~= old(self)@.vaults.update(i as int, self@.vaults[i as int]));
        Ok(())
    }

    /// The beneficiary's conditional acceptance of a vault, if any.
    pub fn get_conditional_acceptance(&self, vault_id: u64) -> (r: Option<ConditionalAcceptanceEntry>)
        ensures
            match r {
                Some(c) => self@.has_vault(vault_id) && self@.rec(vault_id).conditional_acceptance == Some(c@),
                None => !self@.has_vault(vault_id) || self@.rec(vault_id).conditional_acceptance is None,
            },
    {
        match self.vault_index(vault_id) {
            None => None,
            Some(i) => {
                proof { self.lemma_view_index(i as int); }
                match &self.vaults[i].conditional_acceptance {
                    None => None,
                    Some(c) => {
                        let r = ConditionalAcceptanceEntry {
                            conditions: copy_vec(&c.conditions),
                            approved_by_owner: c.approved_by_owner,
                            acceptance_deadline: c.acceptance_deadline,
                        };
                        assert(r@ =~= c@);
                        Some(r)
                    }
                }
            }
        }
    }

    /// The owner of a locked vault sets the deadline by which it must approve
    /// the beneficiary's conditions.
    pub fn set_acceptance_deadline(&mut self, vault_id: u64, deadline_timestamp: u64) -> (r: Result<(), ContractError>)
        requires
            old(self).wf(),
        ensures
            final(self).wf(),
            match r {
                Ok(()) => live_vault_error(old(self)@, vault_id) is None
                    && old(self)@.vault(vault_id).status == ReleaseStatus::Locked
                    && old(self)@.rec(vault_id).conditional_acceptance is Some
                    && final(self)@ == old(self)@.with_record(vault_id, VaultRecordView {
                        conditional_acceptance: Some(ConditionalAcceptanceView {
                            acceptance_deadline: Some(deadline_timestamp), ..old(self)@.rec(vault_id).conditional_acceptance->0 }),
                        ..old(self)@.rec(vault_id)
                    }),
                Err(e) => final(self)@ == old(self)@ && e == (match live_vault_error(old(self)@, vault_id) {
                    Some(x) => x,
                    None => if old(self)@.vault(vault_id).status != ReleaseStatus::Locked {
                        ContractError::AlreadyReleased
                    } else {
                        ContractError::InvalidBeneficiary
                    },
                }) && (live_vault_error(old(self)@, vault_id) is None && old(self)@.vault(vault_id).status == ReleaseStatus::Locked
                    ==> old(self)@.rec(vault_id).conditional_acceptance is None),
            },
    {
        if self.config.paused {
            return Err(ContractError::Paused);
        }
        let i = match self.vault_index(vault_id) {
            None => return Err(ContractError::VaultNotFound),
            Some(i) => i,
        };
        proof { self.lemma_view_index(i as int); }
        if self.vaults[i].vault.status != ReleaseStatus::Locked {
            return Err(ContractError::AlreadyReleased);
        }
        if self.vaults[i].conditional_acceptance.is_none() {
            return Err(ContractError::InvalidBeneficiary);
        }
        let ghost c0 = self@.vaults[i as int].conditional_acceptance->0;
        match &mut self.vaults[i].conditional_acceptance {
            Some(c) => { c.acceptance_deadline = Some(deadline_timestamp); }
            None => {}
        }
        proof { self.lemma_view_index(i as int); }
        assert(self@.vaults[i as int] =~= VaultRecordView {
            conditional_acceptance: Some(ConditionalAcceptanceView { acceptance_deadline: Some(deadline_timestamp), ..c0 }),
            ..old(self)@.rec(vault_id)
        });
        assert(self@.vaults =~= old(self)@.vaults.update(i as int, self@.vaults[i as int]));
        Ok(())
    }

    /// The beneficiary files a dispute, giving a reason; only one may be open at a time.
    pub fn file_dispute(&mut self, vault_id: u64, reason: Vec<u8>) -> (r: Result<(), ContractError>)
        requires
            old(self).wf(),
        ensures
            final(self).wf(),
            match r {
                Ok(()) => live_vault_error(old(self)@, vault_id) is None && reason@.len() > 0
                    && old(self)@.rec(vault_id).dispute != DisputeStatus::Filed
                    && final(self)@ == old(self)@.with_record(vault_id, VaultRecordView {
                        dispute: DisputeStatus::Filed, ..old(self)@.rec(vault_id) }),
                Err(e) => final(self)@ == old(self)@ && e == (match live_vault_error(old(self)@, vault_id) {
                    Some(x) => x,
                    None => if reason@.len() == 0 { ContractError::InvalidAmount } else { ContractError::DisputeFiled },
                }) && (live_vault_error(old(self)@, vault_id) is None && reason@.len() > 0
                    ==> old(self)@.rec(vault_id).dispute == DisputeStatus::Filed),
            },
    {
        if self.config.paused {
            return Err(ContractError::Paused);
        }
        let i = match self.vault_index(vault_id) {
            None => return Err(ContractError::VaultNotFound),
            Some(i) => i,
        };
        proof { self.lemma_view_index(i as int); }
        if reason.len() == 0 {
            return Err(ContractError::InvalidAmount);
        }
        if self.vaults[i].dispute == DisputeStatus::Filed {
            return Err(ContractError::DisputeFiled);
        }
        self.vaults[i].dispute = DisputeStatus::Filed;
        proof { self.lemma_view_index(i as int); }
        assert(self@.vaults[i as int] =~= VaultRecordView { dispute: DisputeStatus::Filed, ..old(self)@.rec(vault_id) });
        assert(self@.vaults =~= old(self)@.vaults.update(i as int, self@.vaults[i as int]));
        Ok(())
    }

    /// The administrator resolves an open dispute.
    pub fn resolve_dispute(&mut self, vault_id: u64, resolution: Vec<u8>) -> (r: Result<(), ContractError>)
        requires
            old(self).wf(),
        ensures
            final(self).wf(),
            match r {
                Ok(()) => admin_error(old(self)@) is None && old(self)@.has_vault(vault_id)
                    && old(self)@.rec(vault_id).dispute == DisputeStatus::Filed
                    && final(self)@ == old(self)@.with_record(vault_id, VaultRecordView {
                        dispute: DisputeStatus::Resolved, ..old(self)@.rec(vault_id) }),
                Err(e) => final(self)@ == old(self)@ && e == (match admin_error(old(self)@) {
                    Some(x) => x,
                    None => ContractError::InvalidBeneficiary,
                }) && (admin_error(old(self)@) is None ==> !(old(self)@.has_vault(vault_id)
                    && old(self)@.rec(vault_id).dispute == DisputeStatus::Filed)),
            },
    {
        if self.config.admin.is_none() {
            return Err(ContractError::NotInitialized);
        }
        let i = match self.vault_index(vault_id) {
            None => return Err(ContractError::InvalidBeneficiary),
            Some(i) => i,
        };
        proof { self.lemma_view_index(i as int); }
        if self.vaults[i].dispute != DisputeStatus::Filed {
            return Err(ContractError::InvalidBeneficiary);
        }
        self.vaults[i].dispute = DisputeStatus::Resolved;
        proof { self.lemma_view_index(i as int); }
        assert(self@.vaults[i as int] =~= VaultRecordView { dispute: DisputeStatus::Resolved, ..old(self)@.rec(vault_id) });
        assert(self@.vaults =~= old(self)@.vaults.update(i as int, self@.vaults[i as int]));
        Ok(())
    }

    /// The dispute status of a vault; no dispute unless one was filed.
    pub fn get_dispute_status(&self, vault_id: u64) -> (r: DisputeStatus)
        ensures
            r == (if self@.has_vault(vault_id) { self@.rec(vault_id).dispute } else { DisputeStatus::NoDispute }),
    {
        match self.vault_index(vault_id) {
            None => DisputeStatus::NoDispute,
            Some(i) => {
                proof { self.lemma_view_index(i as int); }
                self.vaults[i].dispute
            }
        }
    }
}

} // verus!
