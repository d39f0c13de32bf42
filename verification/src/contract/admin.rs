use vstd::prelude::*;
use crate::contract::error::ContractError;
use crate::contract::state::{
    bridge_lookup, whitelist_lookup, Config, ContractView, TtlVaultContract, DEFAULT_MAX_TTL_SECONDS,
};
use crate::contract::types::{hash_eq, Address, BridgeConfig, Hash32};

verus! {

/// The contract's version string.
pub open spec fn spec_version() -> Seq<char> {
    "1.0.0"@
}

/// The state with only its configuration replaced.
pub open spec fn with_config(s: ContractView, c: Config) -> ContractView {
    ContractView { config: c, ..s }
}

/// The error of an admin-only operation: the contract must be initialized.
pub open spec fn admin_error(s: ContractView) -> Option<ContractError> {
    if s.config.admin is None {
        Some(ContractError::NotInitialized)
    } else {
        None
    }
}

/// The all-zero hash, which is never a valid upgrade target.
pub open spec fn is_zero_hash(h: Hash32) -> bool {
    forall|i: int| 0 <= i < 32 ==> h[i] == 0u8
}

impl TtlVaultContract {
    fn require_admin(&self) -> (r: Result<(), ContractError>)
        ensures
            match r {
                Ok(()) => admin_error(self@) is None,
                Err(e) => admin_error(self@) == Some(e),
            },
    {
        if self.config.admin.is_none() {
            Err(ContractError::NotInitialized)
        } else {
            Ok(())
        }
    }

    /// Initializes the contract with its default token and administrator.
    /// Fails if it was already initialized or if the token and admin coincide.
    pub fn initialize(&mut self, xlm_token: Address, admin: Address) -> (r: Result<(), ContractError>)
        requires
            old(self).wf(),
        ensures
            final(self).wf(),
            match r {
                Ok(()) => old(self)@.config.token is None && old(self)@.config.admin is None
                    && xlm_token != admin
                    && final(self)@ == with_config(old(self)@, Config {
                        token: Some(xlm_token),
                        admin: Some(admin),
                        paused: false,
                        ..old(self)@.config
                    }),
                Err(e) => final(self)@ == old(self)@ && (
                    if old(self)@.config.token is Some || old(self)@.config.admin is Some {
                        e == ContractError::AlreadyInitialized
                    } else {
                        xlm_token == admin && e == ContractError::InvalidAdmin
                    }),
            },
    {
        if self.config.token.is_some() || self.config.admin.is_some() {
            return Err(ContractError::AlreadyInitialized);
        }
        if xlm_token == admin {
            return Err(ContractError::InvalidAdmin);
        }
        self.config.token = Some(xlm_token);
        self.config.admin = Some(admin);
        self.config.paused = false;
        Ok(())
    }

    /// Pauses the contract (admin only), blocking state-changing vault operations.
    pub fn pause(&mut self) -> (r: Result<(), ContractError>)
        requires
            old(self).wf(),
        ensures
            final(self).wf(),
            match r {
                Ok(()) => admin_error(old(self)@) is None
                    && final(self)@ == with_config(old(self)@, Config { paused: true, ..old(self)@.config }),
                Err(e) => admin_error(old(self)@) == Some(e) && final(self)@ == old(self)@,
            },
    {
        self.require_admin()?;
        self.config.paused = true;
        Ok(())
    }

    /// Unpauses the contract (admin only).
    pub fn unpause(&mut self) -> (r: Result<(), ContractError>)
        requires
            old(self).wf(),
        ensures
            final(self).wf(),
            match r {
                Ok(()) => admin_error(old(self)@) is None
                    && final(self)@ == with_config(old(self)@, Config { paused: false, ..old(self)@.config }),
                Err(e) => admin_error(old(self)@) == Some(e) && final(self)@ == old(self)@,
            },
    {
        self.require_admin()?;
        self.config.paused = false;
        Ok(())
    }

    /// Sets the minimum check-in interval (admin only). It must be positive and
    /// not above a configured maximum.
    pub fn set_min_check_in_interval(&mut self, min_interval: u64) -> (r: Result<(), ContractError>)
        requires
            old(self).wf(),
        ensures
            final(self).wf(),
            match r {
                Ok(()) => admin_error(old(self)@) is None && min_interval != 0
                    && !(old(self)@.config.max_interval matches Some(max) && min_interval > max)
                    && final(self)@ == with_config(old(self)@, Config { min_interval: Some(min_interval), ..old(self)@.config }),
                Err(e) => final(self)@ == old(self)@ && (
                    if admin_error(old(self)@) is Some {
                        admin_error(old(self)@) == Some(e)
                    } else {
                        e == ContractError::InvalidInterval && (min_interval == 0
                            || (old(self)@.config.max_interval matches Some(max) && min_interval > max))
                    }),
            },
    {
        self.require_admin()?;
        if min_interval == 0 {
            return Err(ContractError::InvalidInterval);
        }
        if let Some(max) = self.config.max_interval {
            if min_interval > max {
                return Err(ContractError::InvalidInterval);
            }
        }
        self.config.min_interval = Some(min_interval);
        Ok(())
    }

    /// Sets the maximum check-in interval (admin only). It must be positive and
    /// not below a configured minimum.
    pub fn set_max_check_in_interval(&mut self, max_interval: u64) -> (r: Result<(), ContractError>)
        requires
            old(self).wf(),
        ensures
            final(self).wf(),
            match r {
                Ok(()) => admin_error(old(self)@) is None && max_interval != 0
                    && !(old(self)@.config.min_interval matches Some(min) && max_interval < min)
                    && final(self)@ == with_config(old(self)@, Config { max_interval: Some(max_interval), ..old(self)@.config }),
                Err(e) => final(self)@ == old(self)@ && (
                    if admin_error(old(self)@) is Some {
                        admin_error(old(self)@) == Some(e)
                    } else {
                        e == ContractError::InvalidInterval && (max_interval == 0
                            || (old(self)@.config.min_interval matches Some(min) && max_interval < min))
                    }),
            },
    {
        self.require_admin()?;
        if max_interval == 0 {
            return Err(ContractError::InvalidInterval);
        }
        if let Some(min) = self.config.min_interval {
            if max_interval < min {
                return Err(ContractError::InvalidInterval);
            }
        }
        self.config.max_interval = Some(max_interval);
        Ok(())
    }

    /// The minimum check-in interval, if set.
    pub fn get_min_check_in_interval(&self) -> (r: Option<u64>)
        ensures
            r == self@.config.min_interval,
    {
        self.config.min_interval
    }

    /// The maximum check-in interval, if set.
    pub fn get_max_check_in_interval(&self) -> (r: Option<u64>)
        ensures
            r == self@.config.max_interval,
    {
        self.config.max_interval
    }

    /// Sets the maximum TTL in seconds (admin only); it must be positive.
    pub fn set_max_ttl_seconds(&mut self, max_ttl: u64) -> (r: Result<(), ContractError>)
        requires
            old(self).wf(),
        ensures
            final(self).wf(),
            match r {
                Ok(()) => admin_error(old(self)@) is None && max_ttl != 0
                    && final(self)@ == with_config(old(self)@, Config { max_ttl: Some(max_ttl), ..old(self)@.config }),
                Err(e) => final(self)@ == old(self)@ && (
                    if admin_error(old(self)@) is Some {
                        admin_error(old(self)@) == Some(e)
                    } else {
                        max_ttl == 0 && e == ContractError::InvalidInterval
                    }),
            },
    {
        self.require_admin()?;
        if max_ttl == 0 {
            return Err(ContractError::InvalidInterval);
        }
        self.config.max_ttl = Some(max_ttl);
        Ok(())
    }

    /// The maximum TTL in seconds; ten years unless set.
    pub fn get_max_ttl_seconds(&self) -> (r: u64)
        ensures
            r == self@.max_ttl(),
    {
        match self.config.max_ttl {
            Some(m) => m,
            None => DEFAULT_MAX_TTL_SECONDS,
        }
    }

    /// Sets the TTL decay rate in basis points (admin only); it must lie in 1..=10000.
    pub fn set_ttl_decay_rate(&mut self, decay_rate: u32) -> (r: Result<(), ContractError>)
        requires
            old(self).wf(),
        ensures
            final(self).wf(),
            match r {
                Ok(()) => admin_error(old(self)@) is None && 1 <= decay_rate <= 10_000
                    && final(self)@ == with_config(old(self)@, Config { decay_rate: Some(decay_rate), ..old(self)@.config }),
                Err(e) => final(self)@ == old(self)@ && (
                    if admin_error(old(self)@) is Some {
                        admin_error(old(self)@) == Some(e)
                    } else {
                        (decay_rate == 0 || decay_rate > 10_000) && e == ContractError::InvalidBps
                    }),
            },
    {
        self.require_admin()?;
        if decay_rate == 0 || decay_rate > 10_000 {
            return Err(ContractError::InvalidBps);
        }
        self.config.decay_rate = Some(decay_rate);
        Ok(())
    }

    /// The TTL decay rate in basis points; 0 (no decay) unless set.
    pub fn get_ttl_decay_rate(&self) -> (r: u32)
        ensures
            r == self@.decay_rate(),
    {
        match self.config.decay_rate {
            Some(r) => r,
            None => 0,
        }
    }

    /// Whitelists a token for use by vaults (admin only).
    pub fn whitelist_token(&mut self, token_address: Address) -> (r: Result<(), ContractError>)
        requires
            old(self).wf(),
        ensures
            final(self).wf(),
            match r {
                Ok(()) => admin_error(old(self)@) is None
                    && final(self)@ == ContractView { whitelist: old(self)@.whitelist.push((token_address, true)), ..old(self)@ },
                Err(e) => admin_error(old(self)@) == Some(e) && final(self)@ == old(self)@,
            },
    {
        self.require_admin()?;
        self.whitelist.push((token_address, true));
        Ok(())
    }

    /// Removes a token from the whitelist (admin only).
    pub fn remove_token_whitelist(&mut self, token_address: Address) -> (r: Result<(), ContractError>)
        requires
            old(self).wf(),
        ensures
            final(self).wf(),
            match r {
                Ok(()) => admin_error(old(self)@) is None
                    && final(self)@ == ContractView { whitelist: old(self)@.whitelist.push((token_address, false)), ..old(self)@ },
                Err(e) => admin_error(old(self)@) == Some(e) && final(self)@ == old(self)@,
            },
    {
        self.require_admin()?;
        self.whitelist.push((token_address, false));
        Ok(())
    }

    /// Whether a token may be used by vaults: the default token always may,
    /// others when whitelisted. Fails if the contract is not initialized.
    pub fn is_token_whitelisted(&self, token_address: Address) -> (r: Result<bool, ContractError>)
        ensures
            match r {
                Ok(b) => self@.config.token is Some && b == self@.token_allowed(token_address),
                Err(e) => self@.config.token is None && e == ContractError::NotInitialized,
            },
    {
        match self.config.token {
            None => Err(ContractError::NotInitialized),
            Some(t) => {
                if token_address == t {
                    Ok(true)
                } else {
                    Ok(self.whitelist_setting(token_address))
                }
            }
        }
    }

    /// The whitelist setting of a token: the last one recorded, false if none.
    pub fn whitelist_setting(&self, token_address: Address) -> (r: bool)
        ensures
            r == whitelist_lookup(self@.whitelist, token_address),
    {
        let mut i: usize = self.whitelist.len();
        assert(self.whitelist@.subrange(0, i as int) =~= self.whitelist@);
        while i > 0
            invariant
                i <= self.whitelist@.len(),
                whitelist_lookup(self.whitelist@, token_address)
                    == whitelist_lookup(self.whitelist@.subrange(0, i as int), token_address),
            decreases i,
        {
            let (t, on) = self.whitelist[i - 1];
            assert(self.whitelist@.subrange(0, i - 1) =~= self.whitelist@.subrange(0, i as int).drop_last());
            if t == token_address {
                return on;
            }
            i = i - 1;
        }
        false
    }

    /// Registers (or re-registers) an active bridge for a chain (admin only).
    pub fn register_bridge(&mut self, chain_id: u32, bridge_address: Address) -> (r: Result<(), ContractError>)
        requires
            old(self).wf(),
        ensures
            final(self).wf(),
            match r {
                Ok(()) => admin_error(old(self)@) is None
                    && final(self)@ == ContractView {
                        bridges: old(self)@.bridges.push(BridgeConfig { chain_id, bridge_address, is_active: true }),
                        ..old(self)@
                    },
                Err(e) => admin_error(old(self)@) == Some(e) && final(self)@ == old(self)@,
            },
    {
        self.require_admin()?;
        self.bridges.push(BridgeConfig { chain_id, bridge_address, is_active: true });
        Ok(())
    }

    /// Deactivates the bridge of a chain, if one is registered (admin only).
    pub fn deactivate_bridge(&mut self, chain_id: u32) -> (r: Result<(), ContractError>)
        requires
            old(self).wf(),
        ensures
            final(self).wf(),
            match r {
                Ok(()) => admin_error(old(self)@) is None
                    && final(self)@ == (match bridge_lookup(old(self)@.bridges, chain_id) {
                        Some(b) => ContractView {
                            bridges: old(self)@.bridges.push(BridgeConfig { is_active: false, ..b }),
                            ..old(self)@
                        },
                        None => old(self)@,
                    }),
                Err(e) => admin_error(old(self)@) == Some(e) && final(self)@ == old(self)@,
            },
    {
        self.require_admin()?;
        if let Some(b) = self.get_bridge_config(chain_id) {
            self.bridges.push(BridgeConfig { chain_id: b.chain_id, bridge_address: b.bridge_address, is_active: false });
        }
        Ok(())
    }

    /// The bridge registered for a chain, if any.
    pub fn get_bridge_config(&self, chain_id: u32) -> (r: Option<BridgeConfig>)
        ensures
            r == bridge_lookup(self@.bridges, chain_id),
    {
        let mut i: usize = self.bridges.len();
        assert(self.bridges@.subrange(0, i as int) =~= self.bridges@);
        while i > 0
            invariant
                i <= self.bridges@.len(),
                bridge_lookup(self.bridges@, chain_id)
                    == bridge_lookup(self.bridges@.subrange(0, i as int), chain_id),
            decreases i,
        {
            let b = self.bridges[i - 1];
            assert(self.bridges@.subrange(0, i - 1) =~= self.bridges@.subrange(0, i as int).drop_last());
            if b.chain_id == chain_id {
                return Some(b);
            }
            i = i - 1;
        }
        None
    }

    /// Whether the bridge of a chain is registered and active.
    pub fn is_bridge_active(&self, chain_id: u32) -> (r: bool)
        ensures
            r == (bridge_lookup(self@.bridges, chain_id) matches Some(b) && b.is_active),
    {
        match self.get_bridge_config(chain_id) {
            Some(b) => b.is_active,
            None => false,
        }
    }

    /// Checks that an upgrade target is not the all-zero hash.
    pub fn validate_upgrade(&self, new_wasm_hash: Hash32) -> (r: Result<(), ContractError>)
        ensures
            match r {
                Ok(()) => !is_zero_hash(new_wasm_hash),
                Err(e) => is_zero_hash(new_wasm_hash) && e == ContractError::UpgradeInvalidHash,
            },
    {
        let zero: Hash32 = [0u8; 32];
        if hash_eq(&new_wasm_hash, &zero) {
            assert(is_zero_hash(new_wasm_hash)) by {
                assert(forall|i: int| 0 <= i < 32 ==> zero[i] == 0u8);
            }
            Err(ContractError::UpgradeInvalidHash)
        } else {
            proof {
                broadcast use vstd::array::group_array_axioms;
                if is_zero_hash(new_wasm_hash) {
                    assert(forall|i: int| 0 <= i < 32 ==> zero[i] == 0u8);
                    assert(new_wasm_hash =~= zero);
                }
            }
            Ok(())
        }
    }

    /// Validates and installs a new code hash (admin only).
    pub fn upgrade(&mut self, new_wasm_hash: Hash32) -> (r: Result<(), ContractError>)
        requires
            old(self).wf(),
        ensures
            final(self).wf(),
            match r {
                Ok(()) => admin_error(old(self)@) is None && !is_zero_hash(new_wasm_hash)
                    && final(self)@ == with_config(old(self)@, Config { wasm_hash: Some(new_wasm_hash), ..old(self)@.config }),
                Err(e) => final(self)@ == old(self)@ && (
                    if admin_error(old(self)@) is Some {
                        admin_error(old(self)@) == Some(e)
                    } else {
                        is_zero_hash(new_wasm_hash) && e == ContractError::UpgradeInvalidHash
                    }),
            },
    {
        self.require_admin()?;
        self.validate_upgrade(new_wasm_hash)?;
        self.config.wasm_hash = Some(new_wasm_hash);
        Ok(())
    }

    /// Whether the contract is paused.
    pub fn is_paused(&self) -> (r: bool)
        ensures
            r == self@.config.paused,
    {
        self.config.paused
    }

    /// The administrator; fails if the contract is not initialized.
    pub fn get_admin(&self) -> (r: Result<Address, ContractError>)
        ensures
            match r {
                Ok(a) => self@.config.admin == Some(a),
                Err(e) => self@.config.admin is None && e == ContractError::NotInitialized,
            },
    {
        match self.config.admin {
            Some(a) => Ok(a),
            None => Err(ContractError::NotInitialized),
        }
    }

    /// The contract version; fails if the contract is not initialized.
    pub fn get_version(&self) -> (r: Result<String, ContractError>)
        ensures
            match r {
                Ok(v) => self@.initialized() && v@ == spec_version(),
                Err(e) => !self@.initialized() && e == ContractError::NotInitialized,
            },
    {
        if self.config.admin.is_none() {
            return Err(ContractError::NotInitialized);
        }
        Ok("1.0.0".to_owned())
    }

    /// Proposes a new administrator (admin only); the proposed admin must accept.
    pub fn propose_admin(&mut self, new_admin: Address) -> (r: Result<(), ContractError>)
        requires
            old(self).wf(),
        ensures
            final(self).wf(),
            match r {
                Ok(()) => admin_error(old(self)@) is None
                    && final(self)@ == with_config(old(self)@, Config { pending_admin: Some(new_admin), ..old(self)@.config }),
                Err(e) => admin_error(old(self)@) == Some(e) && final(self)@ == old(self)@,
            },
    {
        self.require_admin()?;
        self.config.pending_admin = Some(new_admin);
        Ok(())
    }

    /// The proposed administrator, if any.
    pub fn get_pending_admin(&self) -> (r: Option<Address>)
        ensures
            r == self@.config.pending_admin,
    {
        self.config.pending_admin
    }

    /// Completes an admin transfer: the pending admin becomes the admin.
    pub fn accept_admin(&mut self) -> (r: Result<(), ContractError>)
        requires
            old(self).wf(),
        ensures
            final(self).wf(),
            match r {
                Ok(()) => old(self)@.config.pending_admin is Some
                    && final(self)@ == with_config(old(self)@, Config {
                        admin: old(self)@.config.pending_admin,
                        pending_admin: None,
                        ..old(self)@.config
                    }),
                Err(e) => old(self)@.config.pending_admin is None && e == ContractError::NoPendingAdmin
                    && final(self)@ == old(self)@,
            },
    {
        match self.config.pending_admin {
            None => Err(ContractError::NoPendingAdmin),
            Some(p) => {
                self.config.admin = Some(p);
                self.config.pending_admin = None;
                Ok(())
            }
        }
    }
}

} // verus!
