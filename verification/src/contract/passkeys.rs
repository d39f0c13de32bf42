use vstd::prelude::*;
use crate::contract::access::{owner_error, owner_locked_error};
use crate::contract::error::ContractError;
use crate::contract::state::{ContractView, TtlVaultContract, VaultRecordView};
use crate::contract::types::{
    bytes_eq, copy_vec, hash_eq, Address, BackupCode, BackupCodeView, Hash32, PasskeyExpiry,
    PasskeyHash, PasskeyUsageEntry, ReleaseStatus, VaultView,
};

verus! {

/// The ASCII hex digit of a value below 16.
pub open spec fn hex_digit(d: int) -> u8 {
    if d < 10 { (48 + d) as u8 } else { (87 + d) as u8 }
}

/// The last `n` hex digits of `x`, most significant first.
pub open spec fn hex_digits(x: nat, n: nat) -> Seq<u8>
    decreases n,
{
    if n == 0 {
        Seq::empty()
    } else {
        hex_digits(x / 16, (n - 1) as nat).push(hex_digit((x % 16) as int))
    }
}

/// The seed of the backup codes made for a vault at time `now`.
pub open spec fn backup_seed(vault_id: u64, now: u64) -> nat {
    ((vault_id as nat) * (now as nat)) % 0x1_0000_0000_0000_0000
}

/// Backup code number `index` made for a vault at time `now`: the sixteen hex
/// digits of the seed, a hyphen and the index.
pub open spec fn backup_code_text(vault_id: u64, now: u64, index: int) -> Seq<u8> {
    hex_digits(backup_seed(vault_id, now), 16) + seq![45u8, (48 + index) as u8]
}

proof fn lemma_hex_digits_len(x: nat, n: nat)
    ensures
        hex_digits(x, n).len() == n,
    decreases n,
{
    if n > 0 {
        lemma_hex_digits_len(x / 16, (n - 1) as nat);
    }
}

/// Codes made with different indices differ.
pub proof fn law_backup_codes_distinct(vault_id: u64, now: u64, j: int, k: int)
    requires
        0 <= j < 10,
        0 <= k < 10,
        j != k,
    ensures
        backup_code_text(vault_id, now, j) != backup_code_text(vault_id, now, k),
{
    lemma_hex_digits_len(backup_seed(vault_id, now), 16);
    assert(backup_code_text(vault_id, now, j)[17] != backup_code_text(vault_id, now, k)[17]);
}

/// Appends the last `n` hex digits of `x`.
fn push_hex_digits(out: &mut Vec<u8>, x: u64, n: usize)
    ensures
        final(out)@ == old(out)@ + hex_digits(x as nat, n as nat),
    decreases n,
{
    if n > 0 {
        push_hex_digits(out, x / 16, n - 1);
        let d = x % 16;
        let c: u8 = if d < 10 { 48 + d as u8 } else { 87 + d as u8 };
        let ghost before = out@;
        out.push(c);
        assert(out@ =~= old(out)@ + hex_digits(x as nat, n as nat));
    }
}

/// The position of the first backup code equal to `code`, if any.
pub open spec fn code_position(codes: Seq<BackupCodeView>, code: Seq<u8>) -> Option<int>
    decreases codes.len(),
{
    if codes.len() == 0 {
        None
    } else {
        match code_position(codes.drop_last(), code) {
            Some(k) => Some(k),
            None => if codes.last().code == code { Some(codes.len() - 1) } else { None },
        }
    }
}

/// Why `use_backup_code` refuses, if it does.
pub open spec fn backup_code_error(s: ContractView, vault_id: u64, code: Seq<u8>) -> Option<ContractError> {
    if !s.has_vault(vault_id) {
        Some(ContractError::VaultNotFound)
    } else if s.vault(vault_id).status != ReleaseStatus::Locked {
        Some(ContractError::AlreadyReleased)
    } else {
        match code_position(s.rec(vault_id).backup_codes, code) {
            None => Some(ContractError::InvalidBackupCode),
            Some(k) => if s.rec(vault_id).backup_codes[k].used { Some(ContractError::BackupCodeAlreadyUsed) } else { None },
        }
    }
}

/// The state after backup code `code` of a vault is used at `now`: the code is
/// marked used and the vault's timer restarts.
pub open spec fn backup_code_used(s: ContractView, vault_id: u64, code: Seq<u8>, now: u64) -> ContractView {
    let rec = s.rec(vault_id);
    let k = code_position(rec.backup_codes, code)->0;
    s.with_record(vault_id, VaultRecordView {
        vault: VaultView { last_check_in: now, ..rec.vault },
        backup_codes: rec.backup_codes.update(k, BackupCodeView { used: true, ..rec.backup_codes[k] }),
        ..rec
    })
}

/// Marking a code used keeps every code's position.
proof fn lemma_code_position_kept(codes: Seq<BackupCodeView>, k: int, c: BackupCodeView, code: Seq<u8>)
    requires
        0 <= k < codes.len(),
        c.code == codes[k].code,
    ensures
        code_position(codes.update(k, c), code) == code_position(codes, code),
    decreases codes.len(),
{
    let u = codes.update(k, c);
    if k < codes.len() - 1 {
        lemma_code_position_kept(codes.drop_last(), k, c, code);
        assert(u.drop_last() =~= codes.drop_last().update(k, c));
    } else {
        assert(u.drop_last() =~= codes.drop_last());
    }
}

/// A backup code works once: after it is used, using it again is refused.
pub proof fn law_backup_code_single_use(s: ContractView, vault_id: u64, code: Seq<u8>, now: u64)
    requires
        backup_code_error(s, vault_id, code) is None,
    ensures
        backup_code_error(backup_code_used(s, vault_id, code, now), vault_id, code)
            == Some(ContractError::BackupCodeAlreadyUsed),
{
    let rec = s.rec(vault_id);
    let k = code_position(rec.backup_codes, code)->0;
    lemma_code_position_bounds(rec.backup_codes, code);
    lemma_code_position_kept(rec.backup_codes, k, BackupCodeView { used: true, ..rec.backup_codes[k] }, code);
}

/// A code's position, when it has one, is within the codes.
proof fn lemma_code_position_bounds(codes: Seq<BackupCodeView>, code: Seq<u8>)
    ensures
        code_position(codes, code) matches Some(k) ==> 0 <= k < codes.len() && codes[k].code == code,
    decreases codes.len(),
{
    if codes.len() > 0 {
        lemma_code_position_bounds(codes.drop_last(), code);
    }
}

/// Whether a vault has a passkey with hash `h`.
pub open spec fn has_passkey(keys: Seq<PasskeyHash>, h: Hash32) -> bool {
    exists|i: int| 0 <= i < keys.len() && (#[trigger] keys[i]).hash == h
}

/// The passkeys other than those with hash `h`.
pub open spec fn passkeys_without(keys: Seq<PasskeyHash>, h: Hash32) -> Seq<PasskeyHash> {
    keys.filter(|p: PasskeyHash| p.hash != h)
}

/// Why `rotate_passkey` refuses, if it does.
pub open spec fn rotate_error(s: ContractView, vault_id: u64, caller: Address, old_hash: Hash32) -> Option<ContractError> {
    if owner_locked_error(s, vault_id, caller) is Some {
        owner_locked_error(s, vault_id, caller)
    } else if s.vault(vault_id).passkey_hash != Some(old_hash) {
        Some(ContractError::InvalidPasskey)
    } else {
        None
    }
}

impl TtlVaultContract {
    /// The owner of a locked vault replaces its passkey, naming the current one.
    pub fn rotate_passkey(&mut self, vault_id: u64, caller: Address, old_passkey_hash: Hash32, new_passkey_hash: Hash32) -> (r: Result<(), ContractError>)
        requires
            old(self).wf(),
        ensures
            final(self).wf(),
            match r {
                Ok(()) => rotate_error(old(self)@, vault_id, caller, old_passkey_hash) is None
                    && final(self)@ == old(self)@.with_vault(vault_id, VaultView { passkey_hash: Some(new_passkey_hash), ..old(self)@.vault(vault_id) }),
                Err(e) => rotate_error(old(self)@, vault_id, caller, old_passkey_hash) == Some(e) && final(self)@ == old(self)@,
            },
    {
        let i = self.check_owner_locked(vault_id, caller)?;
        proof { self.lemma_view_index(i as int); }
        match &self.vaults[i].vault.passkey_hash {
            None => return Err(ContractError::InvalidPasskey),
            Some(h) => {
                if !hash_eq(h, &old_passkey_hash) {
                    return Err(ContractError::InvalidPasskey);
                }
            }
        }
        self.vaults[i].vault.passkey_hash = Some(new_passkey_hash);
        proof { self.lemma_view_index(i as int); }
        assert(self@.vaults[i as int].vault =~= VaultView { passkey_hash: Some(new_passkey_hash), ..old(self)@.vault(vault_id) });
        assert(self@.vaults[i as int] =~= VaultRecordView { vault: self@.vaults[i as int].vault, ..old(self)@.rec(vault_id) });
        assert(self@.vaults =~= old(self)@.vaults.update(i as int, self@.vaults[i as int]));
        Ok(())
    }

    /// The owner of a locked vault replaces its backup codes with ten fresh,
    /// unused ones and gets their texts back.
    pub fn generate_backup_codes(&mut self, vault_id: u64, caller: Address, now: u64) -> (r: Result<Vec<Vec<u8>>, ContractError>)
        requires
            old(self).wf(),
        ensures
            final(self).wf(),
            match r {
                Ok(codes) => owner_locked_error(old(self)@, vault_id, caller) is None
                    && codes@.len() == 10
                    && (forall|j: int| 0 <= j < 10 ==> (#[trigger] codes@[j])@ == backup_code_text(vault_id, now, j))
                    && (forall|j: int, k: int| 0 <= j < k < 10 ==> (#[trigger] codes@[j])@ != (#[trigger] codes@[k])@)
                    && final(self)@ == old(self)@.with_record(vault_id, VaultRecordView {
                        backup_codes: Seq::new(10, |j: int| BackupCodeView { code: backup_code_text(vault_id, now, j), used: false }),
                        ..old(self)@.rec(vault_id)
                    }),
                Err(e) => owner_locked_error(old(self)@, vault_id, caller) == Some(e) && final(self)@ == old(self)@,
            },
    {
        let i = self.check_owner_locked(vault_id, caller)?;
        let seed: u64 = vault_id.wrapping_mul(now);
        assert(seed as nat == backup_seed(vault_id, now));
        let mut codes: Vec<BackupCode> = Vec::new();
        let mut result: Vec<Vec<u8>> = Vec::new();
        let mut k: usize = 0;
        while k < 10
            invariant
                k <= 10,
                seed as nat == backup_seed(vault_id, now),
                codes@.len() == k,
                result@.len() == k,
                forall|j: int| 0 <= j < k ==> (#[trigger] codes@[j])@ == (BackupCodeView { code: backup_code_text(vault_id, now, j), used: false }),
                forall|j: int| 0 <= j < k ==> (#[trigger] result@[j])@ == backup_code_text(vault_id, now, j),
            decreases 10 - k,
        {
            let mut text: Vec<u8> = Vec::new();
            push_hex_digits(&mut text, seed, 16);
            proof { lemma_hex_digits_len(seed as nat, 16); }
            text.push(45);
            text.push(48 + k as u8);
            assert(text@ =~= backup_code_text(vault_id, now, k as int));
            codes.push(BackupCode { code: copy_vec(&text), used: false });
            result.push(text);
            k = k + 1;
        }
        self.vaults[i].backup_codes = codes;
        assert forall|j: int, m: int| 0 <= j < m < 10 implies (#[trigger] result@[j])@ != (#[trigger] result@[m])@ by {
            law_backup_codes_distinct(vault_id, now, j, m);
        }
        proof {
            self.lemma_view_index(i as int);
            assert(self@.vaults[i as int].backup_codes =~= Seq::new(10, |j: int| BackupCodeView { code: backup_code_text(vault_id, now, j), used: false }));
            assert(self@.vaults[i as int] =~= VaultRecordView {
                backup_codes: Seq::new(10, |j: int| BackupCodeView { code: backup_code_text(vault_id, now, j), used: false }),
                ..old(self)@.rec(vault_id)
            });
            assert(self@.vaults =~= old(self)@.vaults.update(i as int, self@.vaults[i as int]));
        }
        Ok(result)
    }

    /// Uses a backup code of a locked vault: the first code with this text is
    /// marked used and the vault's expiry timer restarts at `now`.
    pub fn use_backup_code(&mut self, vault_id: u64, code: &Vec<u8>, now: u64) -> (r: Result<(), ContractError>)
        requires
            old(self).wf(),
        ensures
            final(self).wf(),
            match r {
                Ok(()) => backup_code_error(old(self)@, vault_id, code@) is None
                    && final(self)@ == backup_code_used(old(self)@, vault_id, code@, now),
                Err(e) => backup_code_error(old(self)@, vault_id, code@) == Some(e) && final(self)@ == old(self)@,
            },
    {
        let i = match self.vault_index(vault_id) {
            None => return Err(ContractError::VaultNotFound),
            Some(i) => i,
        };
        proof { self.lemma_view_index(i as int); }
        if self.vaults[i].vault.status != ReleaseStatus::Locked {
            return Err(ContractError::AlreadyReleased);
        }
        let ghost codes = self@.vaults[i as int].backup_codes;
        let n = self.vaults[i].backup_codes.len();
        let mut k: usize = 0;
        while k < n
            invariant
                self@ == old(self)@,
                self.wf(),
                i == vault_id - 1,
                old(self)@.has_vault(vault_id),
                old(self)@.vault(vault_id).status == ReleaseStatus::Locked,
                i < self.vaults@.len(),
                codes == old(self)@.rec(vault_id).backup_codes,
                n == codes.len(),
                k <= n,
                code_position(codes.subrange(0, k as int), code@) is None,
            decreases n - k,
        {
            proof { self.lemma_view_index(i as int); }
            assert(codes.subrange(0, k + 1).drop_last() =~= codes.subrange(0, k as int));
            assert(self.vaults@[i as int].backup_codes@[k as int]@ == codes[k as int]);
            if bytes_eq(&self.vaults[i].backup_codes[k].code, code) {
                proof { lemma_code_position_prefix(codes, code@, k as int + 1); }
                if self.vaults[i].backup_codes[k].used {
                    return Err(ContractError::BackupCodeAlreadyUsed);
                }
                self.vaults[i].backup_codes[k].used = true;
                self.vaults[i].vault.last_check_in = now;
                proof {
                    self.lemma_view_index(i as int);
                    let rec = old(self)@.rec(vault_id);
                    assert(self@.vaults[i as int].backup_codes =~= rec.backup_codes.update(k as int, BackupCodeView { used: true, ..rec.backup_codes[k as int] }));
                    assert(self@.vaults[i as int].vault =~= VaultView { last_check_in: now, ..rec.vault });
                    assert(self@.vaults[i as int] =~= VaultRecordView {
                        vault: VaultView { last_check_in: now, ..rec.vault },
                        backup_codes: rec.backup_codes.update(k as int, BackupCodeView { used: true, ..rec.backup_codes[k as int] }),
                        ..rec
                    });
                    assert(self@.vaults =~= old(self)@.vaults.update(i as int, self@.vaults[i as int]));
                    assert forall|j: int| 0 <= j < self@.vaults.len() implies crate::contract::state::record_wf(#[trigger] self@.vaults[j]) by {
                        assert(crate::contract::state::record_wf(old(self)@.vaults[j]));
                    }
                }
                return Ok(());
            }
            k = k + 1;
        }
        assert(codes.subrange(0, n as int) =~= codes);
        Err(ContractError::InvalidBackupCode)
    }

    /// The owner of a locked vault registers another passkey, added at `now`.
    pub fn add_passkey(&mut self, vault_id: u64, caller: Address, passkey_hash: Hash32, now: u64) -> (r: Result<(), ContractError>)
        requires
            old(self).wf(),
        ensures
            final(self).wf(),
            match r {
                Ok(()) => owner_locked_error(old(self)@, vault_id, caller) is None
                    && final(self)@ == old(self)@.with_record(vault_id, VaultRecordView {
                        passkeys: old(self)@.rec(vault_id).passkeys.push(PasskeyHash { hash: passkey_hash, added_at: now }),
                        ..old(self)@.rec(vault_id)
                    }),
                Err(e) => owner_locked_error(old(self)@, vault_id, caller) == Some(e) && final(self)@ == old(self)@,
            },
    {
        let i = self.check_owner_locked(vault_id, caller)?;
        self.vaults[i].passkeys.push(PasskeyHash { hash: passkey_hash, added_at: now });
        proof { self.lemma_view_index(i as int); }
        assert(self@.vaults[i as int] =~= VaultRecordView {
            passkeys: old(self)@.rec(vault_id).passkeys.push(PasskeyHash { hash: passkey_hash, added_at: now }),
            ..old(self)@.rec(vault_id)
        });
        assert(self@.vaults =~= old(self)@.vaults.update(i as int, self@.vaults[i as int]));
        Ok(())
    }

    /// The owner of a locked vault removes every passkey with the given hash.
    pub fn remove_passkey(&mut self, vault_id: u64, caller: Address, passkey_hash: Hash32) -> (r: Result<(), ContractError>)
        requires
            old(self).wf(),
        ensures
            final(self).wf(),
            match r {
                Ok(()) => owner_locked_error(old(self)@, vault_id, caller) is None
                    && has_passkey(old(self)@.rec(vault_id).passkeys, passkey_hash)
                    && final(self)@ == old(self)@.with_record(vault_id, VaultRecordView {
                        passkeys: passkeys_without(old(self)@.rec(vault_id).passkeys, passkey_hash),
                        ..old(self)@.rec(vault_id)
                    }),
                Err(e) => final(self)@ == old(self)@ && e == (match owner_locked_error(old(self)@, vault_id, caller) {
                    Some(x) => x,
                    None => ContractError::PasskeyNotFound,
                }) && (owner_locked_error(old(self)@, vault_id, caller) is None ==> !has_passkey(old(self)@.rec(vault_id).passkeys, passkey_hash)),
            },
    {
        let i = self.check_owner_locked(vault_id, caller)?;
        proof { self.lemma_view_index(i as int); }
        let keys = &self.vaults[i].passkeys;
        let mut kept: Vec<PasskeyHash> = Vec::new();
        let mut found = false;
        let mut k: usize = 0;
        while k < keys.len()
            invariant
                k <= keys@.len(),
                keys@ == old(self)@.rec(vault_id).passkeys,
                kept@ == keys@.subrange(0, k as int).filter(|p: PasskeyHash| p.hash != passkey_hash),
                found == exists|j: int| 0 <= j < k && (#[trigger] keys@[j]).hash == passkey_hash,
            decreases keys@.len() - k,
        {
            proof { crate::backend::store::lemma_filter_step(keys@, k as int, |p: PasskeyHash| p.hash != passkey_hash); }
            let pk = keys[k];
            if hash_eq(&pk.hash, &passkey_hash) {
                found = true;
            } else {
                kept.push(pk);
            }
            k = k + 1;
        }
        assert(keys@.subrange(0, keys@.len() as int) =~= keys@);
        if !found {
            return Err(ContractError::PasskeyNotFound);
        }
        let ghost kv = kept@;
        self.vaults[i].passkeys = kept;
        proof { self.lemma_view_index(i as int); }
        assert(self@.vaults[i as int] =~= VaultRecordView { passkeys: kv, ..old(self)@.rec(vault_id) });
        assert(self@.vaults =~= old(self)@.vaults.update(i as int, self@.vaults[i as int]));
        Ok(())
    }

    /// The passkeys registered with a vault.
    pub fn get_vault_passkeys(&self, vault_id: u64) -> (r: Vec<PasskeyHash>)
        ensures
            r@ == (if self@.has_vault(vault_id) { self@.rec(vault_id).passkeys } else { Seq::empty() }),
    {
        match self.vault_index(vault_id) {
            None => Vec::new(),
            Some(i) => {
                proof { self.lemma_view_index(i as int); }
                copy_vec(&self.vaults[i].passkeys)
            }
        }
    }

    /// Whether a passkey with this hash is registered with a vault.
    pub fn is_valid_passkey(&self, vault_id: u64, passkey_hash: Hash32) -> (r: bool)
        ensures
            r == (self@.has_vault(vault_id) && has_passkey(self@.rec(vault_id).passkeys, passkey_hash)),
    {
        let i = match self.vault_index(vault_id) {
            None => return false,
            Some(i) => i,
        };
        proof { self.lemma_view_index(i as int); }
        let keys = &self.vaults[i].passkeys;
        let mut k: usize = 0;
        while k < keys.len()
            invariant
                k <= keys@.len(),
                self@.has_vault(vault_id),
                keys@ == self@.rec(vault_id).passkeys,
                forall|j: int| 0 <= j < k ==> (#[trigger] keys@[j]).hash != passkey_hash,
            decreases keys@.len() - k,
        {
            if hash_eq(&keys[k].hash, &passkey_hash) {
                assert(keys@[k as int].hash == passkey_hash);
                return true;
            }
            k = k + 1;
        }
        false
    }

    /// The owner sets the expiry time of a passkey; check-ins with it are
    /// refused after that time.
    pub fn extend_passkey_expiry(&mut self, vault_id: u64, caller: Address, passkey_hash: Hash32, new_expiry: u64) -> (r: Result<(), ContractError>)
        requires
            old(self).wf(),
        ensures
            final(self).wf(),
            match r {
                Ok(()) => owner_error(old(self)@, vault_id, caller) is None
                    && final(self)@ == old(self)@.with_record(vault_id, VaultRecordView {
                        passkey_expiries: old(self)@.rec(vault_id).passkey_expiries.push(PasskeyExpiry { hash: passkey_hash, expiry: new_expiry }),
                        ..old(self)@.rec(vault_id)
                    }),
                Err(e) => owner_error(old(self)@, vault_id, caller) == Some(e) && final(self)@ == old(self)@,
            },
    {
        let i = self.check_owner(vault_id, caller)?;
        self.vaults[i].passkey_expiries.push(PasskeyExpiry { hash: passkey_hash, expiry: new_expiry });
        proof { self.lemma_view_index(i as int); }
        assert(self@.vaults[i as int] =~= VaultRecordView {
            passkey_expiries: old(self)@.rec(vault_id).passkey_expiries.push(PasskeyExpiry { hash: passkey_hash, expiry: new_expiry }),
            ..old(self)@.rec(vault_id)
        });
        assert(self@.vaults =~= old(self)@.vaults.update(i as int, self@.vaults[i as int]));
        Ok(())
    }

    /// The passkey uses recorded for a vault, oldest first.
    pub fn get_passkey_usage(&self, vault_id: u64) -> (r: Vec<PasskeyUsageEntry>)
        ensures
            r@ == (if self@.has_vault(vault_id) { self@.rec(vault_id).passkey_usage } else { Seq::empty() }),
    {
        match self.vault_index(vault_id) {
            None => Vec::new(),
            Some(i) => {
                proof { self.lemma_view_index(i as int); }
                copy_vec(&self.vaults[i].passkey_usage)
            }
        }
    }

    /// The owner of a locked vault names a recovery contact; the contract
    /// records nothing for it beyond announcing it.
    pub fn set_recovery_contact(&self, vault_id: u64, caller: Address, contact: Address) -> (r: Result<(), ContractError>)
        ensures
            match r {
                Ok(()) => owner_locked_error(self@, vault_id, caller) is None,
                Err(e) => owner_locked_error(self@, vault_id, caller) == Some(e),
            },
    {
        self.check_owner_locked(vault_id, caller)?;
        Ok(())
    }

    /// Restarts the expiry timer of a locked vault at `now` on a recovery request.
    pub fn request_recovery_extension(&mut self, vault_id: u64, caller: Address, now: u64) -> (r: Result<(), ContractError>)
        requires
            old(self).wf(),
        ensures
            final(self).wf(),
            match r {
                Ok(()) => old(self)@.has_vault(vault_id) && old(self)@.vault(vault_id).status == ReleaseStatus::Locked
                    && final(self)@ == old(self)@.with_vault(vault_id, VaultView { last_check_in: now, ..old(self)@.vault(vault_id) }),
                Err(e) => final(self)@ == old(self)@ && if !old(self)@.has_vault(vault_id) {
                    e == ContractError::VaultNotFound
                } else {
                    old(self)@.vault(vault_id).status != ReleaseStatus::Locked && e == ContractError::AlreadyReleased
                },
            },
    {
        let i = match self.vault_index(vault_id) {
            None => return Err(ContractError::VaultNotFound),
            Some(i) => i,
        };
        proof { self.lemma_view_index(i as int); }
        if self.vaults[i].vault.status != ReleaseStatus::Locked {
            return Err(ContractError::AlreadyReleased);
        }
        self.vaults[i].vault.last_check_in = now;
        proof { self.lemma_view_index(i as int); }
        assert(self@.vaults[i as int].vault =~= VaultView { last_check_in: now, ..old(self)@.vault(vault_id) });
        assert(self@.vaults[i as int] =~= VaultRecordView { vault: self@.vaults[i as int].vault, ..old(self)@.rec(vault_id) });
        assert(self@.vaults =~= old(self)@.vaults.update(i as int, self@.vaults[i as int]));
        Ok(())
    }
}

/// When the first match lies within the first `k` codes and no code before
/// position `k - 1` matches, it is at position `k - 1`.
proof fn lemma_code_position_prefix(codes: Seq<BackupCodeView>, code: Seq<u8>, k: int)
    requires
        1 <= k <= codes.len(),
        code_position(codes.subrange(0, k - 1), code) is None,
        codes[k - 1].code == code,
    ensures
        code_position(codes, code) == Some(k - 1),
    decreases codes.len() - k,
{
    assert(codes.subrange(0, k).drop_last() =~= codes.subrange(0, k - 1));
    assert(codes.subrange(0, k).last() == codes[k - 1]);
    assert(code_position(codes.subrange(0, k), code) == Some(k - 1));
    if k == codes.len() {
        assert(codes.subrange(0, k) =~= codes);
    } else {
        lemma_code_position_extend(codes, code, k, codes.len() as int);
        assert(codes.subrange(0, codes.len() as int) =~= codes);
    }
}

/// A match among the first `k` codes stays the first match of any longer prefix.
proof fn lemma_code_position_extend(codes: Seq<BackupCodeView>, code: Seq<u8>, k: int, m: int)
    requires
        1 <= k <= m <= codes.len(),
        code_position(codes.subrange(0, k), code) is Some,
    ensures
        code_position(codes.subrange(0, m), code) == code_position(codes.subrange(0, k), code),
    decreases m - k,
{
    if m > k {
        lemma_code_position_extend(codes, code, k, m - 1);
        assert(codes.subrange(0, m).drop_last() =~= codes.subrange(0, m - 1));
    }
    if m == codes.len() {
        assert(codes.subrange(0, m) =~= codes);
    }
}

} // verus!
