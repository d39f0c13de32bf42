use vstd::prelude::*;
use crate::contract::error::ContractError;
use crate::contract::state::{expired, ContractView, TtlVaultContract, VaultRecordView};
use crate::contract::types::{Address, ReleaseStatus, Transfer, VaultView};

verus! {

/// The vault ids of a list of (vault id, amount) pairs.
pub open spec fn pair_ids(d: Seq<(u64, i128)>) -> Seq<u64> {
    d.map_values(|p: (u64, i128)| p.0)
}

/// The amounts of a list of (vault id, amount) pairs.
pub open spec fn pair_amounts(d: Seq<(u64, i128)>) -> Seq<i128> {
    d.map_values(|p: (u64, i128)| p.1)
}

/// The sum of the first `k` amounts.
pub open spec fn amounts_total(amounts: Seq<i128>, k: int) -> int
    decreases k,
{
    if k <= 0 { 0 } else { amounts_total(amounts, k - 1) + amounts[k - 1] }
}

/// The sum of the first `k` amounts whose id is `id`.
pub open spec fn amounts_for(ids: Seq<u64>, amounts: Seq<i128>, id: u64, k: int) -> int
    decreases k,
{
    if k <= 0 {
        0
    } else {
        amounts_for(ids, amounts, id, k - 1) + if ids[k - 1] == id { amounts[k - 1] as int } else { 0 }
    }
}

/// Every vault's balance moved by the per-vault sums of a batch (`sign` is 1 or -1).
pub open spec fn with_balances_moved(s: ContractView, ids: Seq<u64>, amounts: Seq<i128>, sign: int) -> ContractView {
    ContractView {
        vaults: Seq::new(s.vaults.len(), |j: int| {
            let r = s.vaults[j];
            VaultRecordView {
                vault: VaultView {
                    balance: (r.vault.balance + sign * amounts_for(ids, amounts, (j + 1) as u64, ids.len() as int)) as i128,
                    ..r.vault
                },
                ..r
            }
        }),
        ..s
    }
}

/// Every vault's balance replaced by the one at its index in `b`.
pub open spec fn with_balances(s: ContractView, b: Seq<i128>) -> ContractView {
    ContractView {
        vaults: Seq::new(s.vaults.len(), |j: int| {
            let r = s.vaults[j];
            VaultRecordView { vault: VaultView { balance: b[j], ..r.vault }, ..r }
        }),
        ..s
    }
}

/// Every listed vault checked in at `now`.
pub open spec fn with_check_ins(s: ContractView, ids: Seq<u64>, now: u64) -> ContractView {
    ContractView {
        vaults: Seq::new(s.vaults.len(), |j: int| {
            let r = s.vaults[j];
            if ids.contains((j + 1) as u64) {
                VaultRecordView { vault: VaultView { last_check_in: now, ..r.vault }, ..r }
            } else {
                r
            }
        }),
        ..s
    }
}

/// The error of deposit `i` of a batch, checked before any funds move.
pub open spec fn batch_deposit_item_error(s: ContractView, ids: Seq<u64>, amounts: Seq<i128>, i: int, now: u64) -> Option<ContractError> {
    let id = ids[i];
    let amount = amounts[i];
    if amount <= 0 {
        Some(ContractError::InvalidAmount)
    } else if !s.has_vault(id) {
        Some(ContractError::VaultNotFound)
    } else if s.vault(id).status != ReleaseStatus::Locked {
        Some(ContractError::AlreadyReleased)
    } else if expired(s.vault(id), now) {
        Some(ContractError::VaultExpired)
    } else if amounts_total(amounts, i) + amount > i128::MAX {
        Some(ContractError::InvalidAmount)
    } else {
        None
    }
}

/// The error of crediting deposit `i` of a batch.
pub open spec fn batch_credit_item_error(s: ContractView, ids: Seq<u64>, amounts: Seq<i128>, i: int) -> Option<ContractError> {
    let id = ids[i];
    if Some(s.vault(id).token_address) != s.config.token {
        Some(ContractError::InvalidAmount)
    } else if s.vault(id).balance + amounts_for(ids, amounts, id, i) + amounts[i] > i128::MAX {
        Some(ContractError::BalanceOverflow)
    } else {
        None
    }
}

/// The first error among the first `k` items of a per-item check.
pub open spec fn first_deposit_error(s: ContractView, ids: Seq<u64>, amounts: Seq<i128>, now: u64, k: int, crediting: bool) -> Option<ContractError>
    decreases k,
{
    if k <= 0 {
        None
    } else {
        let prev = first_deposit_error(s, ids, amounts, now, k - 1, crediting);
        if prev is Some {
            prev
        } else if crediting {
            batch_credit_item_error(s, ids, amounts, k - 1)
        } else {
            batch_deposit_item_error(s, ids, amounts, k - 1, now)
        }
    }
}

/// Why `batch_deposit` refuses, if it does.
pub open spec fn batch_deposit_error(s: ContractView, ids: Seq<u64>, amounts: Seq<i128>, now: u64) -> Option<ContractError> {
    let n = ids.len() as int;
    if s.config.paused {
        Some(ContractError::Paused)
    } else if first_deposit_error(s, ids, amounts, now, n, false) is Some {
        first_deposit_error(s, ids, amounts, now, n, false)
    } else if n == 0 {
        None
    } else if s.config.token is None {
        Some(ContractError::NotInitialized)
    } else {
        first_deposit_error(s, ids, amounts, now, n, true)
    }
}

/// The error of withdrawal `i` of a batch, given the earlier withdrawals of the batch.
pub open spec fn batch_withdraw_item_error(s: ContractView, ids: Seq<u64>, amounts: Seq<i128>, caller: Address, i: int) -> Option<ContractError> {
    let id = ids[i];
    let amount = amounts[i];
    if amount <= 0 {
        Some(ContractError::InvalidAmount)
    } else if !s.has_vault(id) {
        Some(ContractError::VaultNotFound)
    } else if caller != s.vault(id).owner {
        Some(ContractError::NotOwner)
    } else if s.vault(id).status != ReleaseStatus::Locked {
        Some(ContractError::AlreadyReleased)
    } else if s.rec(id).multisig is Some {
        Some(ContractError::MultiSigRequired)
    } else if s.vault(id).balance - amounts_for(ids, amounts, id, i) < amount {
        Some(ContractError::InsufficientBalance)
    } else {
        None
    }
}

/// The first withdrawal error among the first `k` items.
pub open spec fn first_withdraw_error(s: ContractView, ids: Seq<u64>, amounts: Seq<i128>, caller: Address, k: int) -> Option<ContractError>
    decreases k,
{
    if k <= 0 {
        None
    } else {
        let prev = first_withdraw_error(s, ids, amounts, caller, k - 1);
        if prev is Some { prev } else { batch_withdraw_item_error(s, ids, amounts, caller, k - 1) }
    }
}

/// Why `batch_withdraw` refuses, if it does.
pub open spec fn batch_withdraw_error(s: ContractView, ids: Seq<u64>, amounts: Seq<i128>, caller: Address) -> Option<ContractError> {
    if s.config.paused {
        Some(ContractError::Paused)
    } else if ids.len() != amounts.len() {
        Some(ContractError::InvalidAmount)
    } else if first_withdraw_error(s, ids, amounts, caller, ids.len() as int) is Some {
        first_withdraw_error(s, ids, amounts, caller, ids.len() as int)
    } else if ids.len() > 0 && s.config.token is None {
        Some(ContractError::NotInitialized)
    } else if exists|i: int| 0 <= i < ids.len() && Some(s.vault(#[trigger] ids[i]).token_address) != s.config.token {
        Some(ContractError::InvalidAmount)
    } else {
        None
    }
}

/// The error of checking in vault `id` as `caller` within a batch.
pub open spec fn batch_check_in_item_error(s: ContractView, id: u64, caller: Address) -> Option<ContractError> {
    if !s.has_vault(id) {
        Some(ContractError::VaultNotFound)
    } else if s.vault(id).is_paused {
        Some(ContractError::Paused)
    } else if caller != s.vault(id).owner {
        Some(ContractError::NotOwner)
    } else if s.vault(id).status != ReleaseStatus::Locked {
        Some(ContractError::AlreadyReleased)
    } else {
        None
    }
}

/// The error of synchronizing vault `id` as `caller`.
pub open spec fn sync_item_error(s: ContractView, id: u64, caller: Address) -> Option<ContractError> {
    if !s.has_vault(id) {
        Some(ContractError::VaultNotFound)
    } else if caller != s.vault(id).owner {
        Some(ContractError::NotOwner)
    } else if s.vault(id).status != ReleaseStatus::Locked {
        Some(ContractError::AlreadyReleased)
    } else if s.vault(id).check_in_interval > s.max_ttl() {
        Some(ContractError::MaxTtlExceeded)
    } else {
        None
    }
}

/// The first item error among the first `k` ids (`sync` selects the check).
pub open spec fn first_check_in_error(s: ContractView, ids: Seq<u64>, caller: Address, k: int, sync: bool) -> Option<ContractError>
    decreases k,
{
    if k <= 0 {
        None
    } else {
        let prev = first_check_in_error(s, ids, caller, k - 1, sync);
        if prev is Some {
            prev
        } else if sync {
            sync_item_error(s, ids[k - 1], caller)
        } else {
            batch_check_in_item_error(s, ids[k - 1], caller)
        }
    }
}

/// Why `batch_check_in` (or, with `sync`, `sync_vault_ttls`) refuses, if it does.
pub open spec fn batch_check_in_error(s: ContractView, ids: Seq<u64>, caller: Address, sync: bool) -> Option<ContractError> {
    if s.config.paused {
        Some(ContractError::Paused)
    } else {
        first_check_in_error(s, ids, caller, ids.len() as int, sync)
    }
}

proof fn lemma_first_check_in_error_stable(s: ContractView, ids: Seq<u64>, caller: Address, k: int, m: int, sync: bool)
    requires
        0 <= k <= m,
        first_check_in_error(s, ids, caller, k, sync) is Some,
    ensures
        first_check_in_error(s, ids, caller, m, sync) == first_check_in_error(s, ids, caller, k, sync),
    decreases m - k,
{
    if m > k {
        lemma_first_check_in_error_stable(s, ids, caller, k, m - 1, sync);
    }
}

proof fn lemma_amounts_for_step(ids: Seq<u64>, amounts: Seq<i128>, id: u64, k: int)
    requires
        0 <= k,
    ensures
        amounts_for(ids, amounts, id, k + 1) == amounts_for(ids, amounts, id, k) + if ids[k] == id { amounts[k] as int } else { 0 },
{
}

impl TtlVaultContract {
    /// Checks in every listed vault of `caller` at once. Every vault is checked
    /// before any changes.
    pub fn batch_check_in(&mut self, vault_ids: &Vec<u64>, caller: Address, now: u64) -> (r: Result<(), ContractError>)
        requires
            old(self).wf(),
        ensures
            final(self).wf(),
            match r {
                Ok(()) => batch_check_in_error(old(self)@, vault_ids@, caller, false) is None
                    && final(self)@ == with_check_ins(old(self)@, vault_ids@, now),
                Err(e) => batch_check_in_error(old(self)@, vault_ids@, caller, false) == Some(e) && final(self)@ == old(self)@,
            },
    {
        if self.config.paused {
            return Err(ContractError::Paused);
        }
        self.check_all_for_check_in(vault_ids, caller, false)?;
        self.apply_check_ins(vault_ids, now);
        Ok(())
    }

    /// Resets the expiry timer of every listed vault of `caller`, as long as no
    /// vault's interval exceeds the maximum TTL.
    pub fn sync_vault_ttls(&mut self, vault_ids: &Vec<u64>, caller: Address, now: u64) -> (r: Result<(), ContractError>)
        requires
            old(self).wf(),
        ensures
            final(self).wf(),
            match r {
                Ok(()) => batch_check_in_error(old(self)@, vault_ids@, caller, true) is None
                    && final(self)@ == with_check_ins(old(self)@, vault_ids@, now),
                Err(e) => batch_check_in_error(old(self)@, vault_ids@, caller, true) == Some(e) && final(self)@ == old(self)@,
            },
    {
        if self.config.paused {
            return Err(ContractError::Paused);
        }
        self.check_all_for_check_in(vault_ids, caller, true)?;
        self.apply_check_ins(vault_ids, now);
        Ok(())
    }

    fn check_all_for_check_in(&self, vault_ids: &Vec<u64>, caller: Address, sync: bool) -> (r: Result<(), ContractError>)
        ensures
            match r {
                Ok(()) => first_check_in_error(self@, vault_ids@, caller, vault_ids@.len() as int, sync) is None,
                Err(e) => first_check_in_error(self@, vault_ids@, caller, vault_ids@.len() as int, sync) == Some(e),
            },
    {
        let max_ttl = self.get_max_ttl_seconds();
        let mut k: usize = 0;
        while k < vault_ids.len()
            invariant
                k <= vault_ids@.len(),
                max_ttl == self@.max_ttl(),
                first_check_in_error(self@, vault_ids@, caller, k as int, sync) is None,
            decreases vault_ids@.len() - k,
        {
            let id = vault_ids[k];
            let err: Option<ContractError> = match self.vault_index(id) {
                None => Some(ContractError::VaultNotFound),
                Some(i) => {
                    proof { self.lemma_view_index(i as int); }
                    let v = &self.vaults[i].vault;
                    if !sync && v.is_paused {
                        Some(ContractError::Paused)
                    } else if caller != v.owner {
                        Some(ContractError::NotOwner)
                    } else if v.status != ReleaseStatus::Locked {
                        Some(ContractError::AlreadyReleased)
                    } else if sync && v.check_in_interval > max_ttl {
                        Some(ContractError::MaxTtlExceeded)
                    } else {
                        None
                    }
                }
            };
            assert(err == first_check_in_error(self@, vault_ids@, caller, k + 1, sync));
            if let Some(e) = err {
                proof { lemma_first_check_in_error_stable(self@, vault_ids@, caller, k + 1, vault_ids@.len() as int, sync); }
                return Err(e);
            }
            k = k + 1;
        }
        Ok(())
    }

    fn apply_check_ins(&mut self, vault_ids: &Vec<u64>, now: u64)
        requires
            old(self).wf(),
        ensures
            final(self).wf(),
            final(self)@ == with_check_ins(old(self)@, vault_ids@, now),
    {
        let mut k: usize = 0;
        assert(with_check_ins(old(self)@, vault_ids@.subrange(0, 0), now) =~= old(self)@);
        while k < vault_ids.len()
            invariant
                k <= vault_ids@.len(),
                self.wf(),
                self@ == with_check_ins(old(self)@, vault_ids@.subrange(0, k as int), now),
            decreases vault_ids@.len() - k,
        {
            let id = vault_ids[k];
            let ghost before = self@;
            let ghost pre = vault_ids@.subrange(0, k as int);
            let ghost post = vault_ids@.subrange(0, k + 1);
            proof {
                assert forall|x: u64| post.contains(x) <==> (pre.contains(x) || x == id) by {
                    if post.contains(x) {
                        let j = choose|j: int| 0 <= j < post.len() && post[j] == x;
                        if j < k {
                            assert(pre[j] == x);
                        }
                    }
                    if pre.contains(x) {
                        let j = choose|j: int| 0 <= j < pre.len() && pre[j] == x;
                        assert(post[j] == x);
                    }
                    if x == id {
                        assert(post[k as int] == x);
                    }
                }
            }
            if let Some(i) = self.vault_index(id) {
                self.vaults[i].vault.last_check_in = now;
                proof { self.lemma_view_index(i as int); }
                assert(self@.vaults =~= before.vaults.update(i as int, self@.vaults[i as int]));
                assert(self@.vaults[i as int].vault =~= VaultView { last_check_in: now, ..before.vaults[i as int].vault });
                assert(self@.vaults[i as int] =~= VaultRecordView { vault: VaultView { last_check_in: now, ..before.vaults[i as int].vault }, ..before.vaults[i as int] });
                assert forall|j: int| 0 <= j < self@.vaults.len() implies crate::contract::state::record_wf(#[trigger] self@.vaults[j]) by {
                    assert(crate::contract::state::record_wf(before.vaults[j]));
                }
            }
            proof {
                let target = with_check_ins(old(self)@, post, now);
                let mid = with_check_ins(old(self)@, pre, now);
                assert(before == mid);
                assert forall|j: int| 0 <= j < self@.vaults.len() implies self@.vaults[j] == target.vaults[j] by {
                    let x = (j + 1) as u64;
                    assert(post.contains(x) <==> (pre.contains(x) || x == id));
                    let o = old(self)@.vaults[j];
                    if x == id {
                        assert(before.has_vault(id));
                        assert(self@.vaults[j] =~= VaultRecordView { vault: VaultView { last_check_in: now, ..o.vault }, ..o });
                    } else {
                        assert(self@.vaults[j] == before.vaults[j]);
                    }
                }
                assert(self@ =~= target);
            }
            k = k + 1;
        }
        assert(vault_ids@.subrange(0, vault_ids@.len() as int) =~= vault_ids@);
    }

    /// Every vault's balance, by storage index.
    pub(crate) fn balances(&self) -> (b: Vec<i128>)
        ensures
            b@.len() == self@.vaults.len(),
            forall|j: int| 0 <= j < b@.len() ==> b@[j] == #[trigger] self@.vaults[j].vault.balance,
    {
        let mut b: Vec<i128> = Vec::new();
        let mut j: usize = 0;
        while j < self.vaults.len()
            invariant
                j <= self.vaults@.len(),
                b@.len() == j,
                forall|m: int| 0 <= m < j ==> b@[m] == #[trigger] self@.vaults[m].vault.balance,
            decreases self.vaults@.len() - j,
        {
            proof { self.lemma_view_index(j as int); }
            b.push(self.vaults[j].vault.balance);
            j = j + 1;
        }
        b
    }

    /// Writes every vault's balance.
    fn set_balances(&mut self, b: &Vec<i128>)
        requires
            old(self).wf(),
            b@.len() == old(self)@.vaults.len(),
            forall|j: int| 0 <= j < b@.len() ==> b@[j] >= 0,
        ensures
            final(self).wf(),
            final(self)@ == with_balances(old(self)@, b@),
    {
        let ghost target = with_balances(old(self)@, b@);
        let mut j: usize = 0;
        while j < self.vaults.len()
            invariant
                j <= self.vaults@.len(),
                self.vaults@.len() == old(self)@.vaults.len(),
                b@.len() == old(self)@.vaults.len(),
                forall|m: int| 0 <= m < b@.len() ==> b@[m] >= 0,
                self@ == (ContractView { vaults: self@.vaults, ..old(self)@ }),
                target == with_balances(old(self)@, b@),
                forall|m: int| 0 <= m < j ==> self@.vaults[m] == target.vaults[m],
                forall|m: int| j <= m < self@.vaults.len() ==> self@.vaults[m] == old(self)@.vaults[m],
            decreases self.vaults@.len() - j,
        {
            let ghost before = self@;
            self.vaults[j].vault.balance = b[j];
            proof { self.lemma_view_index(j as int); }
            assert(self@.vaults =~= before.vaults.update(j as int, self@.vaults[j as int]));
            let ghost o = old(self)@.vaults[j as int];
            assert(self@.vaults[j as int].vault =~= VaultView { balance: b@[j as int], ..o.vault });
            assert(self@.vaults[j as int] =~= VaultRecordView { vault: VaultView { balance: b@[j as int], ..o.vault }, ..o });
            assert(self@.vaults[j as int] == target.vaults[j as int]);
            assert forall|m: int| 0 <= m < j + 1 implies self@.vaults[m] == target.vaults[m] by {
                if m < j {
                    assert(self@.vaults[m] == before.vaults[m]);
                }
            }
            j = j + 1;
        }
        assert(self@.vaults =~= target.vaults);
        assert(self@ =~= target);
        assert forall|m: int| 0 <= m < self@.vaults.len() implies crate::contract::state::record_wf(#[trigger] self@.vaults[m]) by {
            assert(crate::contract::state::record_wf(old(self)@.vaults[m]));
        }
    }

    /// The owner withdraws from several vaults at once. Every withdrawal is
    /// checked (against the balance left by the earlier ones) before funds
    /// move; all vaults must use the default token. Returns the transfers made.
    pub fn batch_withdraw(&mut self, vault_ids: &Vec<u64>, amounts: &Vec<i128>, caller: Address) -> (r: Result<Vec<Transfer>, ContractError>)
        requires
            old(self).wf(),
        ensures
            final(self).wf(),
            match r {
                Ok(t) => batch_withdraw_error(old(self)@, vault_ids@, amounts@, caller) is None
                    && final(self)@ == with_balances_moved(old(self)@, vault_ids@, amounts@, -1)
                    && t@ == Seq::new(vault_ids@.len(), |i: int| Transfer {
                        token: old(self)@.config.token->0,
                        from: old(self)@.contract_address,
                        to: old(self)@.vault(vault_ids@[i]).owner,
                        amount: amounts@[i],
                    }),
                Err(e) => batch_withdraw_error(old(self)@, vault_ids@, amounts@, caller) == Some(e) && final(self)@ == old(self)@,
            },
    {
        if self.config.paused {
            return Err(ContractError::Paused);
        }
        if vault_ids.len() != amounts.len() {
            return Err(ContractError::InvalidAmount);
        }
        let n = vault_ids.len();
        let mut bal = self.balances();
        proof {
            assert forall|j: int| 0 <= j < bal@.len() implies #[trigger] bal@[j] >= 0 by {
                assert(crate::contract::state::record_wf(self@.vaults[j]));
            }
        }
        let mut k: usize = 0;
        while k < n
            invariant
                self@ == old(self)@,
                !old(self)@.config.paused,
                n == vault_ids@.len(),
                n == amounts@.len(),
                k <= n,
                self.wf(),
                bal@.len() == self@.vaults.len(),
                forall|j: int| 0 <= j < bal@.len() ==> #[trigger] bal@[j] == self@.vaults[j].vault.balance - amounts_for(vault_ids@, amounts@, (j + 1) as u64, k as int),
                forall|j: int| 0 <= j < bal@.len() ==> #[trigger] bal@[j] >= 0,
                first_withdraw_error(self@, vault_ids@, amounts@, caller, k as int) is None,
            decreases n - k,
        {
            let id = vault_ids[k];
            let amount = amounts[k];
            proof {
                assert forall|j: int| 0 <= j < bal@.len() implies #[trigger] bal@[j] == self@.vaults[j].vault.balance - amounts_for(vault_ids@, amounts@, (j + 1) as u64, k as int) by {}
            }
            let err: Option<ContractError> = if amount <= 0 {
                Some(ContractError::InvalidAmount)
            } else {
                match self.vault_index(id) {
                    None => Some(ContractError::VaultNotFound),
                    Some(i) => {
                        proof { self.lemma_view_index(i as int); }
                        if caller != self.vaults[i].vault.owner {
                            Some(ContractError::NotOwner)
                        } else if self.vaults[i].vault.status != ReleaseStatus::Locked {
                            Some(ContractError::AlreadyReleased)
                        } else if self.vaults[i].multisig.is_some() {
                            Some(ContractError::MultiSigRequired)
                        } else if bal[i] < amount {
                            Some(ContractError::InsufficientBalance)
                        } else {
                            bal.set(i, bal[i] - amount);
                            None
                        }
                    }
                }
            };
            assert(err == first_withdraw_error(self@, vault_ids@, amounts@, caller, k + 1));
            if let Some(e) = err {
                proof { lemma_first_withdraw_error_stable(self@, vault_ids@, amounts@, caller, k + 1, n as int); }
                return Err(e);
            }
            proof {
                assert forall|j: int| 0 <= j < bal@.len() implies #[trigger] bal@[j] == self@.vaults[j].vault.balance - amounts_for(vault_ids@, amounts@, (j + 1) as u64, k + 1) by {
                    lemma_amounts_for_step(vault_ids@, amounts@, (j + 1) as u64, k as int);
                }
            }
            k = k + 1;
        }
        let token = match self.config.token {
            None => {
                if n > 0 {
                    return Err(ContractError::NotInitialized);
                }
                0
            }
            Some(t) => t,
        };
        let mut t: Vec<Transfer> = Vec::new();
        let mut k: usize = 0;
        while k < n
            invariant
                self@ == old(self)@,
                self.wf(),
                !old(self)@.config.paused,
                forall|j: int| 0 <= j < bal@.len() ==> #[trigger] bal@[j] >= 0,
                bal@.len() == self@.vaults.len(),
                forall|j: int| 0 <= j < bal@.len() ==> #[trigger] bal@[j] == self@.vaults[j].vault.balance - amounts_for(vault_ids@, amounts@, (j + 1) as u64, n as int),
                n == vault_ids@.len(),
                n == amounts@.len(),
                k <= n,
                first_withdraw_error(self@, vault_ids@, amounts@, caller, n as int) is None,
                n > 0 ==> self@.config.token == Some(token),
                forall|i: int| 0 <= i < k ==> Some(self@.vault(#[trigger] vault_ids@[i]).token_address) == self@.config.token,
                t@.len() == k,
                forall|i: int| 0 <= i < k ==> #[trigger] t@[i] == (Transfer {
                    token: self@.config.token->0,
                    from: self@.contract_address,
                    to: self@.vault(vault_ids@[i]).owner,
                    amount: amounts@[i],
                }),
            decreases n - k,
        {
            let id = vault_ids[k];
            proof { lemma_first_withdraw_error_prefix(self@, vault_ids@, amounts@, caller, k + 1, n as int); }
            let i = self.vault_index(id).unwrap();
            proof { self.lemma_view_index(i as int); }
            if self.vaults[i].vault.token_address != token {
                assert(Some(self@.vault(vault_ids@[k as int]).token_address) != self@.config.token);
                return Err(ContractError::InvalidAmount);
            }
            t.push(Transfer { token, from: self.contract_address, to: self.vaults[i].vault.owner, amount: amounts[k] });
            k = k + 1;
        }
        self.set_balances(&bal);
        proof {
            let target = with_balances_moved(old(self)@, vault_ids@, amounts@, -1);
            assert(self@.vaults =~= target.vaults);
            assert(self@ =~= target);
        }
        assert(t@ =~= Seq::new(vault_ids@.len(), |i: int| Transfer {
            token: old(self)@.config.token->0,
            from: old(self)@.contract_address,
            to: old(self)@.vault(vault_ids@[i]).owner,
            amount: amounts@[i],
        }));
        Ok(t)
    }
}

proof fn lemma_first_withdraw_error_stable(s: ContractView, ids: Seq<u64>, amounts: Seq<i128>, caller: Address, k: int, m: int)
    requires
        0 <= k <= m,
        first_withdraw_error(s, ids, amounts, caller, k) is Some,
    ensures
        first_withdraw_error(s, ids, amounts, caller, m) == first_withdraw_error(s, ids, amounts, caller, k),
    decreases m - k,
{
    if m > k {
        lemma_first_withdraw_error_stable(s, ids, amounts, caller, k, m - 1);
    }
}

/// Once no item among the first `m` fails, none among the first `k <= m` does,
/// and item `k - 1` refers to an existing vault.
proof fn lemma_first_withdraw_error_prefix(s: ContractView, ids: Seq<u64>, amounts: Seq<i128>, caller: Address, k: int, m: int)
    requires
        1 <= k <= m,
        first_withdraw_error(s, ids, amounts, caller, m) is None,
    ensures
        first_withdraw_error(s, ids, amounts, caller, k) is None,
        batch_withdraw_item_error(s, ids, amounts, caller, k - 1) is None,
        s.has_vault(ids[k - 1]),
    decreases m - k,
{
    if m > k {
        lemma_first_withdraw_error_prefix(s, ids, amounts, caller, k, m - 1);
    }
}


proof fn lemma_first_deposit_error_stable(s: ContractView, ids: Seq<u64>, amounts: Seq<i128>, now: u64, k: int, m: int, crediting: bool)
    requires
        0 <= k <= m,
        first_deposit_error(s, ids, amounts, now, k, crediting) is Some,
    ensures
        first_deposit_error(s, ids, amounts, now, m, crediting) == first_deposit_error(s, ids, amounts, now, k, crediting),
    decreases m - k,
{
    if m > k {
        lemma_first_deposit_error_stable(s, ids, amounts, now, k, m - 1, crediting);
    }
}

/// Once no item among the first `m` fails the checks, none among the first `k <= m` does.
proof fn lemma_first_deposit_error_prefix(s: ContractView, ids: Seq<u64>, amounts: Seq<i128>, now: u64, k: int, m: int)
    requires
        1 <= k <= m,
        first_deposit_error(s, ids, amounts, now, m, false) is None,
    ensures
        first_deposit_error(s, ids, amounts, now, k, false) is None,
        batch_deposit_item_error(s, ids, amounts, k - 1, now) is None,
    decreases m - k,
{
    if m > k {
        lemma_first_deposit_error_prefix(s, ids, amounts, now, k, m - 1);
    }
}

impl TtlVaultContract {
    /// Deposits into several vaults at once from `from`. Every deposit is
    /// checked before funds move; the total moves in one transfer of the
    /// default token, and every vault must use that token. Deposits to the
    /// same vault add up. Returns the transfers made.
    pub fn batch_deposit(&mut self, from: Address, deposits: &Vec<(u64, i128)>, now: u64) -> (r: Result<Vec<Transfer>, ContractError>)
        requires
            old(self).wf(),
        ensures
            final(self).wf(),
            match r {
                Ok(t) => batch_deposit_error(old(self)@, pair_ids(deposits@), pair_amounts(deposits@), now) is None
                    && final(self)@ == with_balances_moved(old(self)@, pair_ids(deposits@), pair_amounts(deposits@), 1)
                    && t@ == (if deposits@.len() == 0 { Seq::empty() } else {
                        seq![Transfer {
                            token: old(self)@.config.token->0,
                            from,
                            to: old(self)@.contract_address,
                            amount: amounts_total(pair_amounts(deposits@), deposits@.len() as int) as i128,
                        }]
                    }),
                Err(e) => batch_deposit_error(old(self)@, pair_ids(deposits@), pair_amounts(deposits@), now) == Some(e)
                    && final(self)@ == old(self)@,
            },
    {
        let ghost ids = pair_ids(deposits@);
        let ghost amounts = pair_amounts(deposits@);
        if self.config.paused {
            return Err(ContractError::Paused);
        }
        let n = deposits.len();
        let mut total: i128 = 0;
        let mut k: usize = 0;
        while k < n
            invariant
                self@ == old(self)@,
                self.wf(),
                !old(self)@.config.paused,
                n == deposits@.len(),
                ids == pair_ids(deposits@),
                amounts == pair_amounts(deposits@),
                k <= n,
                total == amounts_total(amounts, k as int),
                total >= 0,
                first_deposit_error(self@, ids, amounts, now, k as int, false) is None,
            decreases n - k,
        {
            let (id, amount) = deposits[k];
            assert(ids[k as int] == id && amounts[k as int] == amount);
            let err: Option<ContractError> = if amount <= 0 {
                Some(ContractError::InvalidAmount)
            } else {
                match self.vault_index(id) {
                    None => Some(ContractError::VaultNotFound),
                    Some(i) => {
                        proof { self.lemma_view_index(i as int); }
                        let last = self.vaults[i].vault.last_check_in;
                        let interval = self.vaults[i].vault.check_in_interval;
                        if self.vaults[i].vault.status != ReleaseStatus::Locked {
                            Some(ContractError::AlreadyReleased)
                        } else if now as u128 >= last as u128 + interval as u128 {
                            Some(ContractError::VaultExpired)
                        } else {
                            match total.checked_add(amount) {
                                None => Some(ContractError::InvalidAmount),
                                Some(t) => {
                                    total = t;
                                    None
                                }
                            }
                        }
                    }
                }
            };
            assert(err == first_deposit_error(self@, ids, amounts, now, k + 1, false));
            if let Some(e) = err {
                proof { lemma_first_deposit_error_stable(self@, ids, amounts, now, k + 1, n as int, false); }
                return Err(e);
            }
            k = k + 1;
        }
        if n == 0 {
            assert(self@.vaults =~= with_balances_moved(old(self)@, ids, amounts, 1).vaults);
            let t: Vec<Transfer> = Vec::new();
            assert(t@ =~= Seq::empty());
            return Ok(t);
        }
        let token = match self.config.token {
            None => return Err(ContractError::NotInitialized),
            Some(t) => t,
        };
        let mut bal = self.balances();
        proof {
            assert forall|j: int| 0 <= j < bal@.len() implies #[trigger] bal@[j] >= 0 by {
                assert(crate::contract::state::record_wf(self@.vaults[j]));
            }
        }
        let mut k: usize = 0;
        while k < n
            invariant
                self@ == old(self)@,
                self.wf(),
                !old(self)@.config.paused,
                n == deposits@.len(),
                n > 0,
                ids == pair_ids(deposits@),
                amounts == pair_amounts(deposits@),
                k <= n,
                self@.config.token == Some(token),
                first_deposit_error(self@, ids, amounts, now, n as int, false) is None,
                first_deposit_error(self@, ids, amounts, now, k as int, true) is None,
                bal@.len() == self@.vaults.len(),
                forall|j: int| 0 <= j < bal@.len() ==> #[trigger] bal@[j] == self@.vaults[j].vault.balance + amounts_for(ids, amounts, (j + 1) as u64, k as int),
                forall|j: int| 0 <= j < bal@.len() ==> #[trigger] bal@[j] >= 0,
            decreases n - k,
        {
            let (id, amount) = deposits[k];
            assert(ids[k as int] == id && amounts[k as int] == amount);
            proof { lemma_first_deposit_error_prefix(self@, ids, amounts, now, k + 1, n as int); }
            let i = self.vault_index(id).unwrap();
            proof { self.lemma_view_index(i as int); }
            let err: Option<ContractError> = if self.vaults[i].vault.token_address != token {
                Some(ContractError::InvalidAmount)
            } else {
                match bal[i].checked_add(amount) {
                    None => Some(ContractError::BalanceOverflow),
                    Some(b) => {
                        bal.set(i, b);
                        None
                    }
                }
            };
            assert(err == first_deposit_error(self@, ids, amounts, now, k + 1, true));
            if let Some(e) = err {
                proof { lemma_first_deposit_error_stable(self@, ids, amounts, now, k + 1, n as int, true); }
                return Err(e);
            }
            proof {
                assert forall|j: int| 0 <= j < bal@.len() implies #[trigger] bal@[j] == self@.vaults[j].vault.balance + amounts_for(ids, amounts, (j + 1) as u64, k + 1) by {
                    lemma_amounts_for_step(ids, amounts, (j + 1) as u64, k as int);
                }
            }
            k = k + 1;
        }
        self.set_balances(&bal);
        proof {
            let target = with_balances_moved(old(self)@, ids, amounts, 1);
            assert(self@.vaults =~= target.vaults);
            assert(self@ =~= target);
        }
        let mut t: Vec<Transfer> = Vec::new();
        t.push(Transfer { token, from, to: self.contract_address, amount: total });
        assert(t@ =~= seq![Transfer { token, from, to: old(self)@.contract_address, amount: total }]);
        Ok(t)
    }
}

} // verus!
