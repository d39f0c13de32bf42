use vstd::prelude::*;
use crate::contract::error::ContractError;
use crate::contract::types::{
    Address, AuditEntry, BackupCode, BackupCodeView, BeneficiaryEntry, BeneficiaryStatus,
    BridgeConfig, ConditionalAcceptanceEntry, ConditionalAcceptanceView, DisputeStatus, Hash32,
    MultiSigConfig, MultiSigConfigView, MultiSigProposal, MultiSigProposalView, OwnershipTransferRequest,
    PasskeyExpiry, PasskeyHash, PasskeyUsageEntry, Vault, VaultView, VestingSchedule,
    WithdrawalScheduleEntry,
};

verus! {

/// Contract-wide configuration.
#[derive(Clone, Copy, Debug)]
pub struct Config {
    /// The default token; `None` until the contract is initialized.
    pub token: Option<Address>,
    /// The administrator; `None` until the contract is initialized.
    pub admin: Option<Address>,
    pub pending_admin: Option<Address>,
    pub paused: bool,
    pub min_interval: Option<u64>,
    pub max_interval: Option<u64>,
    pub max_ttl: Option<u64>,
    pub decay_rate: Option<u32>,
    /// The code hash installed by the last upgrade, if any.
    pub wasm_hash: Option<Hash32>,
}

/// Everything stored for one vault.
#[derive(Debug)]
pub struct VaultRecord {
    pub vault: Vault,
    pub vesting: Option<VestingSchedule>,
    pub passkeys: Vec<PasskeyHash>,
    pub backup_codes: Vec<BackupCode>,
    /// Expiry times of passkeys; a later entry for the same hash overrides an earlier one.
    pub passkey_expiries: Vec<PasskeyExpiry>,
    pub passkey_usage: Vec<PasskeyUsageEntry>,
    pub beneficiary_status: BeneficiaryStatus,
    pub pending_ownership: Option<OwnershipTransferRequest>,
    pub delegate: Option<Address>,
    pub withdrawal_schedule: Option<Vec<WithdrawalScheduleEntry>>,
    pub dispute: DisputeStatus,
    pub conditional_acceptance: Option<ConditionalAcceptanceEntry>,
    pub multisig: Option<MultiSigConfig>,
    /// Proposal `n` is stored at index `n - 1`.
    pub proposals: Vec<MultiSigProposal>,
    /// A snapshot kept by off-ledger tooling before the entry was archived.
    pub archived: Option<Vault>,
    pub audit_log: Vec<AuditEntry>,
    /// When the TTL of the vault was last decayed, if ever.
    pub decayed_at: Option<u64>,
}

#[verifier::ext_equal]
pub struct VaultRecordView {
    pub vault: VaultView,
    pub vesting: Option<VestingSchedule>,
    pub passkeys: Seq<PasskeyHash>,
    pub backup_codes: Seq<BackupCodeView>,
    pub passkey_expiries: Seq<PasskeyExpiry>,
    pub passkey_usage: Seq<PasskeyUsageEntry>,
    pub beneficiary_status: BeneficiaryStatus,
    pub pending_ownership: Option<OwnershipTransferRequest>,
    pub delegate: Option<Address>,
    pub withdrawal_schedule: Option<Seq<WithdrawalScheduleEntry>>,
    pub dispute: DisputeStatus,
    pub conditional_acceptance: Option<ConditionalAcceptanceView>,
    pub multisig: Option<MultiSigConfigView>,
    pub proposals: Seq<MultiSigProposalView>,
    pub archived: Option<VaultView>,
    pub audit_log: Seq<AuditEntry>,
    pub decayed_at: Option<u64>,
}

pub open spec fn view_backup_codes(s: Seq<BackupCode>) -> Seq<BackupCodeView> {
    s.map_values(|c: BackupCode| c@)
}

pub open spec fn view_proposals(s: Seq<MultiSigProposal>) -> Seq<MultiSigProposalView> {
    s.map_values(|p: MultiSigProposal| p@)
}

impl View for VaultRecord {
    type V = VaultRecordView;

    open spec fn view(&self) -> VaultRecordView {
        VaultRecordView {
            vault: self.vault@,
            vesting: self.vesting,
            passkeys: self.passkeys@,
            backup_codes: view_backup_codes(self.backup_codes@),
            passkey_expiries: self.passkey_expiries@,
            passkey_usage: self.passkey_usage@,
            beneficiary_status: self.beneficiary_status,
            pending_ownership: self.pending_ownership,
            delegate: self.delegate,
            withdrawal_schedule: match &self.withdrawal_schedule {
                Some(s) => Some(s@),
                None => None,
            },
            dispute: self.dispute,
            conditional_acceptance: match &self.conditional_acceptance {
                Some(c) => Some(c@),
                None => None,
            },
            multisig: match &self.multisig {
                Some(m) => Some(m@),
                None => None,
            },
            proposals: view_proposals(self.proposals@),
            archived: match &self.archived {
                Some(v) => Some(v@),
                None => None,
            },
            audit_log: self.audit_log@,
            decayed_at: self.decayed_at,
        }
    }
}

/// The state of the vault contract: configuration, vaults and lookup indexes.
pub struct TtlVaultContract {
    /// The contract's own account, which holds deposited funds.
    pub contract_address: Address,
    pub config: Config,
    /// Token whitelist settings; a later entry for a token overrides an earlier one.
    pub whitelist: Vec<(Address, bool)>,
    /// Bridge registrations; a later entry for a chain overrides an earlier one.
    pub bridges: Vec<BridgeConfig>,
    /// Vault `n` is stored at index `n - 1`.
    pub vaults: Vec<VaultRecord>,
    /// (owner, vault id) pairs in the order the vaults were indexed.
    pub owner_index: Vec<(Address, u64)>,
    /// (beneficiary, vault id) pairs in the order the vaults were indexed.
    pub beneficiary_index: Vec<(Address, u64)>,
}

#[verifier::ext_equal]
pub struct ContractView {
    pub contract_address: Address,
    pub config: Config,
    pub whitelist: Seq<(Address, bool)>,
    pub bridges: Seq<BridgeConfig>,
    pub vaults: Seq<VaultRecordView>,
    pub owner_index: Seq<(Address, u64)>,
    pub beneficiary_index: Seq<(Address, u64)>,
}

pub open spec fn view_records(s: Seq<VaultRecord>) -> Seq<VaultRecordView> {
    s.map_values(|r: VaultRecord| r@)
}

impl View for TtlVaultContract {
    type V = ContractView;

    open spec fn view(&self) -> ContractView {
        ContractView {
            contract_address: self.contract_address,
            config: self.config,
            whitelist: self.whitelist@,
            bridges: self.bridges@,
            vaults: view_records(self.vaults@),
            owner_index: self.owner_index@,
            beneficiary_index: self.beneficiary_index@,
        }
    }
}

// ---------------------------------------------------------------------------
// Lookups in append-only tables: the last entry for a key wins.

/// Whether a token is whitelisted by the settings in `s`.
pub open spec fn whitelist_lookup(s: Seq<(Address, bool)>, token: Address) -> bool
    decreases s.len(),
{
    if s.len() == 0 {
        false
    } else if s.last().0 == token {
        s.last().1
    } else {
        whitelist_lookup(s.drop_last(), token)
    }
}

/// The bridge registered for a chain by the entries in `s`.
pub open spec fn bridge_lookup(s: Seq<BridgeConfig>, chain_id: u32) -> Option<BridgeConfig>
    decreases s.len(),
{
    if s.len() == 0 {
        None
    } else if s.last().chain_id == chain_id {
        Some(s.last())
    } else {
        bridge_lookup(s.drop_last(), chain_id)
    }
}

/// The expiry recorded for a passkey by the entries in `s`.
pub open spec fn expiry_lookup(s: Seq<PasskeyExpiry>, hash: Hash32) -> Option<u64>
    decreases s.len(),
{
    if s.len() == 0 {
        None
    } else if s.last().hash == hash {
        Some(s.last().expiry)
    } else {
        expiry_lookup(s.drop_last(), hash)
    }
}

/// The vault ids indexed under an address, in index order.
pub open spec fn ids_for(pairs: Seq<(Address, u64)>, addr: Address) -> Seq<u64>
    decreases pairs.len(),
{
    if pairs.len() == 0 {
        Seq::empty()
    } else if pairs.last().0 == addr {
        ids_for(pairs.drop_last(), addr).push(pairs.last().1)
    } else {
        ids_for(pairs.drop_last(), addr)
    }
}

/// The index without the pair (addr, id).
pub open spec fn without_pair(pairs: Seq<(Address, u64)>, addr: Address, id: u64) -> Seq<(Address, u64)>
    decreases pairs.len(),
{
    if pairs.len() == 0 {
        Seq::empty()
    } else if pairs.last().0 == addr && pairs.last().1 == id {
        without_pair(pairs.drop_last(), addr, id)
    } else {
        without_pair(pairs.drop_last(), addr, id).push(pairs.last())
    }
}

/// The sum of the basis points of a beneficiary list.
pub open spec fn bps_total(s: Seq<BeneficiaryEntry>) -> int
    decreases s.len(),
{
    if s.len() == 0 {
        0
    } else {
        bps_total(s.drop_last()) + s.last().bps
    }
}

/// The check-in deadline of a vault.
pub open spec fn deadline(v: VaultView) -> int {
    v.last_check_in + v.check_in_interval
}

/// A vault is expired once the current time reaches its deadline.
pub open spec fn expired(v: VaultView, now: u64) -> bool {
    now >= deadline(v)
}

/// Seconds left before the deadline, or `None` once it has passed.
pub open spec fn ttl_remaining(v: VaultView, now: u64) -> Option<u64> {
    if now >= deadline(v) {
        None
    } else {
        Some((deadline(v) - now) as u64)
    }
}

/// The default maximum TTL: ten years in seconds.
pub const DEFAULT_MAX_TTL_SECONDS: u64 = 315_360_000;

/// Well-formedness of one vault record.
pub open spec fn record_wf(r: VaultRecordView) -> bool {
    &&& r.vault.balance >= 0
    &&& r.vault.check_in_interval > 0
    &&& (r.vault.spending_limit matches Some(l) ==> l > 0)
    &&& bps_total(r.vault.beneficiaries) <= 10_000
    &&& (forall|i: int| 0 <= i < r.vault.beneficiaries.len() ==> #[trigger] r.vault.beneficiaries[i].bps <= 10_000)
    &&& (r.vesting matches Some(s) ==> s.interval > 0 && s.num_installments > 0 && s.total_amount >= 0)
}

impl ContractView {
    pub open spec fn initialized(self) -> bool {
        self.config.admin is Some
    }

    pub open spec fn has_vault(self, id: u64) -> bool {
        1 <= id <= self.vaults.len()
    }

    pub open spec fn rec(self, id: u64) -> VaultRecordView {
        self.vaults[id - 1]
    }

    pub open spec fn vault(self, id: u64) -> VaultView {
        self.rec(id).vault
    }

    pub open spec fn with_record(self, id: u64, r: VaultRecordView) -> ContractView {
        ContractView { vaults: self.vaults.update(id - 1, r), ..self }
    }

    pub open spec fn with_vault(self, id: u64, v: VaultView) -> ContractView {
        self.with_record(id, VaultRecordView { vault: v, ..self.rec(id) })
    }

    pub open spec fn max_ttl(self) -> u64 {
        match self.config.max_ttl {
            Some(m) => m,
            None => DEFAULT_MAX_TTL_SECONDS,
        }
    }

    pub open spec fn decay_rate(self) -> u32 {
        match self.config.decay_rate {
            Some(r) => r,
            None => 0,
        }
    }

    /// The vault ids indexed under an owner.
    pub open spec fn owner_ids(self, owner: Address) -> Seq<u64> {
        ids_for(self.owner_index, owner)
    }

    /// The vault ids indexed under a beneficiary.
    pub open spec fn beneficiary_ids(self, beneficiary: Address) -> Seq<u64> {
        ids_for(self.beneficiary_index, beneficiary)
    }

    /// A token is usable for vaults if it is the default token or whitelisted.
    pub open spec fn token_allowed(self, token: Address) -> bool {
        self.config.token == Some(token) || whitelist_lookup(self.whitelist, token)
    }

    /// Where an interval falls outside the configured bounds, the error it gives.
    pub open spec fn interval_bounds_error(self, interval: u64) -> Option<ContractError> {
        if self.config.min_interval matches Some(min) && interval < min {
            Some(ContractError::IntervalTooLow)
        } else if self.config.max_interval matches Some(max) && interval > max {
            Some(ContractError::IntervalTooHigh)
        } else {
            None
        }
    }

    pub open spec fn wf(self) -> bool {
        &&& self.vaults.len() + 1 < u64::MAX
        &&& (self.config.admin is Some ==> self.config.token is Some)
        &&& (self.config.pending_admin is Some ==> self.config.token is Some)
        &&& (self.config.decay_rate matches Some(rate) ==> rate <= 10_000)
        &&& forall|i: int| 0 <= i < self.vaults.len() ==> record_wf(#[trigger] self.vaults[i])
    }
}

impl TtlVaultContract {
    pub open spec fn wf(&self) -> bool {
        self@.wf()
    }
}

} // verus!
