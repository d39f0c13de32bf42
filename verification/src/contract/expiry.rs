use vstd::prelude::*;
use crate::contract::error::ContractError;
use crate::contract::state::{deadline, ttl_remaining, ContractView, TtlVaultContract, VaultRecordView};
use crate::contract::types::{ReleaseStatus, VaultView};

verus! {

/// Thirty days in seconds: the inactivity after which TTL decay applies.
pub const DECAY_INACTIVITY_SECONDS: u64 = 2_592_000;

/// Expiry warnings are reported for vaults with less than seven days left.
pub const EXPIRY_WARNING_WINDOW: u64 = 604_800;

/// The TTL remaining, or 0 once expired.
pub open spec fn ttl_or_zero(v: VaultView, now: u64) -> u64 {
    match ttl_remaining(v, now) {
        Some(t) => t,
        None => 0,
    }
}

/// Whether a decay actually changes the vault: a rate is configured, the
/// owner has not checked in for thirty days and the vault has not been
/// decayed in the last thirty days.
pub open spec fn decay_applies(s: ContractView, r: VaultRecordView, now: u64) -> bool {
    &&& s.decay_rate() != 0
    &&& now >= r.vault.last_check_in + DECAY_INACTIVITY_SECONDS
    &&& (r.decayed_at matches Some(d) ==> now >= d + DECAY_INACTIVITY_SECONDS)
}

/// The TTL left after decay: the remaining time reduced by the decay rate.
pub open spec fn decayed_ttl(v: VaultView, rate: u32, now: u64) -> int {
    ttl_or_zero(v, now) * (10_000 - rate) / 10_000
}

/// The check-in time that moves the deadline to `now + decayed_ttl`.
pub open spec fn decayed_last_check_in(v: VaultView, rate: u32, now: u64) -> int {
    now + decayed_ttl(v, rate, now) - v.check_in_interval
}

/// The number of check-ins at `freq_secs` spacing needed to cover the time left.
pub open spec fn check_ins_needed(v: VaultView, freq_secs: int, now: u64) -> int {
    (deadline(v) - now + freq_secs - 1) / freq_secs
}

/// The expiry forecast when the vault is not yet expired: each needed
/// check-in extends the deadline by one interval from now.
pub open spec fn forecast(v: VaultView, freq_days: u64, now: u64) -> int {
    now + check_ins_needed(v, freq_days * 86_400, now) * v.check_in_interval
}

/// The warnings that `emit_expiry_warnings` reports for the first `k` ids.
pub open spec fn expiry_warnings(s: ContractView, ids: Seq<u64>, now: u64, k: int) -> Seq<(u64, u64)>
    decreases k,
{
    if k <= 0 {
        Seq::empty()
    } else {
        let prev = expiry_warnings(s, ids, now, k - 1);
        let id = ids[k - 1];
        if s.has_vault(id) && s.vault(id).status == ReleaseStatus::Locked
            && (ttl_remaining(s.vault(id), now) matches Some(t) && t < EXPIRY_WARNING_WINDOW) {
            prev.push((id, ttl_remaining(s.vault(id), now)->0))
        } else {
            prev
        }
    }
}

impl TtlVaultContract {
    /// Seconds left before a vault's deadline; `None` if the vault does not
    /// exist or the deadline has passed.
    pub fn get_ttl_remaining(&self, vault_id: u64, now: u64) -> (r: Option<u64>)
        ensures
            r == (if self@.has_vault(vault_id) { ttl_remaining(self@.vault(vault_id), now) } else { None }),
    {
        match self.vault_index(vault_id) {
            None => None,
            Some(i) => {
                proof { self.lemma_view_index(i as int); }
                let v = &self.vaults[i].vault;
                let d: u128 = v.last_check_in as u128 + v.check_in_interval as u128;
                if now as u128 >= d {
                    None
                } else {
                    Some((d - now as u128) as u64)
                }
            }
        }
    }

    /// The TTL left of a locked vault (0 once expired or when not locked).
    /// Fails if the vault does not exist.
    pub fn ping_expiry(&self, vault_id: u64, now: u64) -> (r: Result<u64, ContractError>)
        ensures
            match r {
                Ok(t) => self@.has_vault(vault_id) && t == (if self@.vault(vault_id).status == ReleaseStatus::Locked {
                    ttl_or_zero(self@.vault(vault_id), now)
                } else {
                    0
                }),
                Err(e) => !self@.has_vault(vault_id) && e == ContractError::VaultNotFound,
            },
    {
        match self.vault_index(vault_id) {
            None => Err(ContractError::VaultNotFound),
            Some(i) => {
                proof { self.lemma_view_index(i as int); }
                if self.vaults[i].vault.status != ReleaseStatus::Locked {
                    return Ok(0);
                }
                match self.get_ttl_remaining(vault_id, now) {
                    Some(t) => Ok(t),
                    None => Ok(0),
                }
            }
        }
    }

    /// Reports, for each listed locked vault with less than seven days left,
    /// its id and the seconds left. Unknown ids are skipped.
    pub fn emit_expiry_warnings(&self, vault_ids: &Vec<u64>, now: u64) -> (r: Vec<(u64, u64)>)
        ensures
            r@ == expiry_warnings(self@, vault_ids@, now, vault_ids@.len() as int),
    {
        let mut r: Vec<(u64, u64)> = Vec::new();
        let mut k: usize = 0;
        while k < vault_ids.len()
            invariant
                k <= vault_ids@.len(),
                r@ == expiry_warnings(self@, vault_ids@, now, k as int),
            decreases vault_ids@.len() - k,
        {
            let id = vault_ids[k];
            if let Some(i) = self.vault_index(id) {
                proof { self.lemma_view_index(i as int); }
                if self.vaults[i].vault.status == ReleaseStatus::Locked {
                    if let Some(t) = self.get_ttl_remaining(id, now) {
                        if t < EXPIRY_WARNING_WINDOW {
                            r.push((id, t));
                        }
                    }
                }
            }
            k = k + 1;
        }
        r
    }

    /// Whether `apply_ttl_decay` would need a check-in time before zero.
    pub open spec fn decay_underflows(&self, vault_id: u64, now: u64) -> bool {
        self@.has_vault(vault_id)
            && self@.vault(vault_id).status == ReleaseStatus::Locked
            && decay_applies(self@, self@.rec(vault_id), now)
            && decayed_last_check_in(self@.vault(vault_id), self@.decay_rate(), now) < 0
    }

    /// Reduces a locked vault's remaining TTL by the decay rate when the owner
    /// has not checked in for thirty days, at most once per thirty days;
    /// returns the TTL left afterwards.
    pub fn apply_ttl_decay(&mut self, vault_id: u64, now: u64) -> (r: Result<u64, ContractError>)
        requires
            old(self).wf(),
            !old(self).decay_underflows(vault_id, now),
        ensures
            final(self).wf(),
            match r {
                Ok(t) => old(self)@.has_vault(vault_id) && old(self)@.vault(vault_id).status == ReleaseStatus::Locked && {
                    let v = old(self)@.vault(vault_id);
                    let rec = old(self)@.rec(vault_id);
                    if decay_applies(old(self)@, rec, now) {
                        &&& t == decayed_ttl(v, old(self)@.decay_rate(), now)
                        &&& final(self)@ == old(self)@.with_record(vault_id, VaultRecordView {
                            vault: VaultView { last_check_in: decayed_last_check_in(v, old(self)@.decay_rate(), now) as u64, ..v },
                            decayed_at: Some(now),
                            ..rec
                        })
                    } else {
                        t == ttl_or_zero(v, now) && final(self)@ == old(self)@
                    }
                },
                Err(e) => final(self)@ == old(self)@ && if !old(self)@.has_vault(vault_id) {
                    e == ContractError::VaultNotFound
                } else {
                    old(self)@.vault(vault_id).status != ReleaseStatus::Locked && e == ContractError::AlreadyReleased
                },
            },
    {
        let idx = match self.vault_index(vault_id) {
            None => return Err(ContractError::VaultNotFound),
            Some(i) => i,
        };
        proof { self.lemma_view_index(idx as int); }
        if self.vaults[idx].vault.status != ReleaseStatus::Locked {
            return Err(ContractError::AlreadyReleased);
        }
        let rate = self.get_ttl_decay_rate();
        let remaining: u64 = match self.get_ttl_remaining(vault_id, now) {
            Some(t) => t,
            None => 0,
        };
        if rate == 0 {
            return Ok(remaining);
        }
        let last = self.vaults[idx].vault.last_check_in;
        if (now as u128) < last as u128 + DECAY_INACTIVITY_SECONDS as u128 {
            return Ok(remaining);
        }
        if let Some(d) = self.vaults[idx].decayed_at {
            if (now as u128) < d as u128 + DECAY_INACTIVITY_SECONDS as u128 {
                return Ok(remaining);
            }
        }
        let factor: u128 = (10_000 - rate) as u128;
        assert(remaining * factor <= 0xffff_ffff_ffff_ffff * 10_000) by (nonlinear_arith)
            requires remaining <= 0xffff_ffff_ffff_ffff, factor <= 10_000;
        let decayed: u128 = (remaining as u128 * factor) / 10_000;
        assert(decayed <= remaining) by (nonlinear_arith)
            requires decayed == (remaining * factor) / 10_000, factor <= 10_000;
        let interval = self.vaults[idx].vault.check_in_interval;
        let new_last: u128 = now as u128 + decayed - interval as u128;
        proof {
            let v = old(self)@.vault(vault_id);
            if ttl_remaining(v, now) is Some {
                assert(new_last <= last);
            } else {
                assert(decayed == 0);
                assert(now + 0 >= last + interval);
            }
        }
        self.vaults[idx].vault.last_check_in = new_last as u64;
        self.vaults[idx].decayed_at = Some(now);
        proof { self.lemma_view_index(idx as int); }
        assert(self@.vaults =~= old(self)@.vaults.update(idx as int, self@.vaults[idx as int]));
        Ok(decayed as u64)
    }

    /// Whether `forecast_expiry` overflows the time range for these arguments.
    pub open spec fn forecast_overflows(&self, vault_id: u64, check_in_frequency_days: u64, now: u64) -> bool {
        self@.has_vault(vault_id)
            && self@.vault(vault_id).status == ReleaseStatus::Locked
            && check_in_frequency_days != 0
            && (check_in_frequency_days * 86_400 > u64::MAX
                || now < deadline(self@.vault(vault_id)) && (
                    deadline(self@.vault(vault_id)) - now + check_in_frequency_days * 86_400 - 1 > u64::MAX
                    || forecast(self@.vault(vault_id), check_in_frequency_days, now) > u64::MAX))
    }

    /// Forecasts when a locked vault expires if the owner checks in every
    /// `check_in_frequency_days` days: the current time once expired, otherwise
    /// now plus one interval per check-in needed to cover the time left.
    pub fn forecast_expiry(&self, vault_id: u64, check_in_frequency_days: u64, now: u64) -> (r: Result<u64, ContractError>)
        requires
            !self.forecast_overflows(vault_id, check_in_frequency_days, now),
        ensures
            match r {
                Ok(t) => self@.has_vault(vault_id) && self@.vault(vault_id).status == ReleaseStatus::Locked
                    && check_in_frequency_days != 0
                    && t == (if now >= deadline(self@.vault(vault_id)) {
                        now as int
                    } else {
                        forecast(self@.vault(vault_id), check_in_frequency_days, now)
                    }),
                Err(e) => if !self@.has_vault(vault_id) {
                    e == ContractError::VaultNotFound
                } else if self@.vault(vault_id).status != ReleaseStatus::Locked {
                    e == ContractError::AlreadyReleased
                } else {
                    check_in_frequency_days == 0 && e == ContractError::InvalidInterval
                },
            },
    {
        let idx = match self.vault_index(vault_id) {
            None => return Err(ContractError::VaultNotFound),
            Some(i) => i,
        };
        proof { self.lemma_view_index(idx as int); }
        if self.vaults[idx].vault.status != ReleaseStatus::Locked {
            return Err(ContractError::AlreadyReleased);
        }
        if check_in_frequency_days == 0 {
            return Err(ContractError::InvalidInterval);
        }
        let freq_secs: u64 = check_in_frequency_days * 86_400;
        let last = self.vaults[idx].vault.last_check_in;
        let interval = self.vaults[idx].vault.check_in_interval;
        let d: u128 = last as u128 + interval as u128;
        if now as u128 >= d {
            return Ok(now);
        }
        let remaining: u128 = d - now as u128;
        let n: u128 = (remaining + freq_secs as u128 - 1) / freq_secs as u128;
        assert(n <= remaining + freq_secs) by (nonlinear_arith)
            requires n == (remaining + freq_secs - 1) / (freq_secs as int), freq_secs >= 1, remaining >= 0;
        assert(n * interval <= u64::MAX) by {
            assert(n * interval + now <= u64::MAX);
        }
        let total: u128 = n * interval as u128;
        Ok((now as u128 + total) as u64)
    }
}

} // verus!
