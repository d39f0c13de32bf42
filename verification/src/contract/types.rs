use vstd::prelude::*;

verus! {

/// An account on the ledger, identified by a plain number.
pub type Address = u64;

/// A 32-byte hash, such as a passkey hash or a code hash.
pub type Hash32 = [u8; 32];

/// Lifecycle status of a vault.
#[derive(Clone, Copy, Debug, PartialEq, Eq, Structural)]
pub enum ReleaseStatus {
    Locked,
    Released,
    Cancelled,
    EmergencyFrozen,
}

/// Condition under which a vault's funds become releasable.
#[derive(Debug)]
pub enum ReleaseCondition {
    OnExpiry,
    OnProof(u32),
    Tranche(Vec<(u64, u32)>),
}

pub enum ReleaseConditionView {
    OnExpiry,
    OnProof(u32),
    Tranche(Seq<(u64, u32)>),
}

impl View for ReleaseCondition {
    type V = ReleaseConditionView;

    open spec fn view(&self) -> ReleaseConditionView {
        match self {
            ReleaseCondition::OnExpiry => ReleaseConditionView::OnExpiry,
            ReleaseCondition::OnProof(n) => ReleaseConditionView::OnProof(*n),
            ReleaseCondition::Tranche(t) => ReleaseConditionView::Tranche(t@),
        }
    }
}

impl ReleaseCondition {
    /// Returns a copy of this condition.
    pub fn duplicate(&self) -> (r: ReleaseCondition)
        ensures
            r@ == self@,
    {
        match self {
            ReleaseCondition::OnExpiry => ReleaseCondition::OnExpiry,
            ReleaseCondition::OnProof(n) => ReleaseCondition::OnProof(*n),
            ReleaseCondition::Tranche(t) => ReleaseCondition::Tranche(copy_vec(t)),
        }
    }
}

/// Returns a copy of a vector of plain values.
pub fn copy_vec<T: Copy>(v: &Vec<T>) -> (r: Vec<T>)
    ensures
        r@ == v@,
{
    let mut r: Vec<T> = Vec::new();
    let mut i: usize = 0;
    while i < v.len()
        invariant
            i <= v.len(),
            r@ == v@.subrange(0, i as int),
        decreases v.len() - i,
    {
        r.push(v[i]);
        i = i + 1;
    }
    assert(v@.subrange(0, v@.len() as int) =~= v@);
    r
}

/// One recipient of a multi-beneficiary split, with its share in basis points.
#[derive(Clone, Copy, Debug, PartialEq, Eq, Structural)]
pub struct BeneficiaryEntry {
    pub address: Address,
    pub bps: u32,
}

/// A vesting schedule attached to a vault.
#[derive(Clone, Copy, Debug, PartialEq, Eq, Structural)]
pub struct VestingSchedule {
    pub start_time: u64,
    pub interval: u64,
    pub num_installments: u32,
    pub claimed_installments: u32,
    pub total_amount: i128,
}

/// A bridge registration for a target chain.
#[derive(Clone, Copy, Debug, PartialEq, Eq, Structural)]
pub struct BridgeConfig {
    pub chain_id: u32,
    pub bridge_address: Address,
    pub is_active: bool,
}

/// A passkey registered with a vault.
#[derive(Clone, Copy, Debug)]
pub struct PasskeyHash {
    pub hash: Hash32,
    pub added_at: u64,
}

/// The expiry time recorded for a passkey.
#[derive(Clone, Copy, Debug)]
pub struct PasskeyExpiry {
    pub hash: Hash32,
    pub expiry: u64,
}

/// One use of a passkey during a check-in.
#[derive(Clone, Copy, Debug)]
pub struct PasskeyUsageEntry {
    pub passkey_hash: Hash32,
    pub timestamp: u64,
}

/// A one-time backup code.
#[derive(Debug)]
pub struct BackupCode {
    pub code: Vec<u8>,
    pub used: bool,
}

pub struct BackupCodeView {
    pub code: Seq<u8>,
    pub used: bool,
}

impl View for BackupCode {
    type V = BackupCodeView;

    open spec fn view(&self) -> BackupCodeView {
        BackupCodeView { code: self.code@, used: self.used }
    }
}

/// Whether the beneficiary has accepted its role.
#[derive(Clone, Copy, Debug, PartialEq, Eq, Structural)]
pub enum BeneficiaryStatus {
    Pending,
    Accepted,
    Declined,
}

/// State of a beneficiary's dispute.
#[derive(Clone, Copy, Debug, PartialEq, Eq, Structural)]
pub enum DisputeStatus {
    NoDispute,
    Filed,
    Resolved,
}

/// One entry of a withdrawal schedule.
#[derive(Clone, Copy, Debug, PartialEq, Eq, Structural)]
pub struct WithdrawalScheduleEntry {
    pub timestamp: u64,
    pub amount: i128,
}

/// A beneficiary's conditional acceptance of its role.
#[derive(Debug)]
pub struct ConditionalAcceptanceEntry {
    pub conditions: Vec<u8>,
    pub approved_by_owner: bool,
    pub acceptance_deadline: Option<u64>,
}

pub struct ConditionalAcceptanceView {
    pub conditions: Seq<u8>,
    pub approved_by_owner: bool,
    pub acceptance_deadline: Option<u64>,
}

impl View for ConditionalAcceptanceEntry {
    type V = ConditionalAcceptanceView;

    open spec fn view(&self) -> ConditionalAcceptanceView {
        ConditionalAcceptanceView {
            conditions: self.conditions@,
            approved_by_owner: self.approved_by_owner,
            acceptance_deadline: self.acceptance_deadline,
        }
    }
}

/// A pending two-step ownership transfer.
#[derive(Clone, Copy, Debug, PartialEq, Eq, Structural)]
pub struct OwnershipTransferRequest {
    pub new_owner: Address,
    pub initiated_at: u64,
    pub unlocks_at: u64,
    pub expires_at: u64,
}

/// What an audit entry records.
#[derive(Clone, Copy, Debug, PartialEq, Eq, Structural)]
pub enum AuditAction {
    CreateVault,
    CheckIn,
    Deposit,
    Withdraw,
    TriggerRelease,
    UpdateMetadata,
    UpdateBeneficiary,
    UpdateCheckInInterval,
    CancelVault,
    InitiateOwnershipTransfer,
    AcceptOwnershipTransfer,
    CancelOwnershipTransfer,
    CloneVault,
    MergeVaultsSource,
    MergeVaultsTarget,
}

/// An entry of a vault's audit log. `operation_recorded` is set for entries
/// written by the audit logger, which records the operation name as well as
/// the action; activity entries leave it unset.
#[derive(Clone, Copy, Debug, PartialEq, Eq, Structural)]
pub struct AuditEntry {
    pub action: AuditAction,
    pub caller: Address,
    pub timestamp: u64,
    pub operation_recorded: bool,
}

/// Multi-signature configuration of a vault.
#[derive(Debug)]
pub struct MultiSigConfig {
    pub signers: Vec<Address>,
    pub threshold: u32,
}

pub struct MultiSigConfigView {
    pub signers: Seq<Address>,
    pub threshold: u32,
}

impl View for MultiSigConfig {
    type V = MultiSigConfigView;

    open spec fn view(&self) -> MultiSigConfigView {
        MultiSigConfigView { signers: self.signers@, threshold: self.threshold }
    }
}

/// Operations that can be carried out through a multi-signature proposal.
#[derive(Clone, Copy, Debug, PartialEq, Eq, Structural)]
pub enum MultiSigOperation {
    Withdraw,
    UpdateBeneficiary,
    CancelVault,
    UpdateCheckInInterval,
    TransferOwnership,
}

/// Lifecycle of a multi-signature proposal.
#[derive(Clone, Copy, Debug, PartialEq, Eq, Structural)]
pub enum ProposalStatus {
    Pending,
    Approved,
    Rejected,
    Executed,
    Expired,
}

/// A multi-signature proposal.
#[derive(Debug)]
pub struct MultiSigProposal {
    pub id: u64,
    pub operation: MultiSigOperation,
    pub approvals: Vec<Address>,
    pub status: ProposalStatus,
    pub expires_at: u64,
    pub vault_id: u64,
    pub payload: Vec<u8>,
    pub address_payload: Option<Address>,
    pub created_at: u64,
}

pub struct MultiSigProposalView {
    pub id: u64,
    pub operation: MultiSigOperation,
    pub approvals: Seq<Address>,
    pub status: ProposalStatus,
    pub expires_at: u64,
    pub vault_id: u64,
    pub payload: Seq<u8>,
    pub address_payload: Option<Address>,
    pub created_at: u64,
}

impl View for MultiSigProposal {
    type V = MultiSigProposalView;

    open spec fn view(&self) -> MultiSigProposalView {
        MultiSigProposalView {
            id: self.id,
            operation: self.operation,
            approvals: self.approvals@,
            status: self.status,
            expires_at: self.expires_at,
            vault_id: self.vault_id,
            payload: self.payload@,
            address_payload: self.address_payload,
            created_at: self.created_at,
        }
    }
}

/// A vault: funds locked for a beneficiary until the owner stops checking in.
#[derive(Debug)]
pub struct Vault {
    pub owner: Address,
    pub beneficiary: Address,
    pub balance: i128,
    pub check_in_interval: u64,
    pub last_check_in: u64,
    pub created_at: u64,
    pub status: ReleaseStatus,
    pub beneficiaries: Vec<BeneficiaryEntry>,
    pub metadata: Vec<u8>,
    pub token_address: Address,
    pub custom_metadata: Vec<u8>,
    pub is_paused: bool,
    pub release_condition: ReleaseCondition,
    pub parent_vault_id: Option<u64>,
    pub passkey_hash: Option<Hash32>,
    pub max_deposit_amount: Option<i128>,
    pub withdrawal_approval_threshold: Option<i128>,
    pub spending_limit: Option<i128>,
}

#[verifier::ext_equal]
pub struct VaultView {
    pub owner: Address,
    pub beneficiary: Address,
    pub balance: i128,
    pub check_in_interval: u64,
    pub last_check_in: u64,
    pub created_at: u64,
    pub status: ReleaseStatus,
    pub beneficiaries: Seq<BeneficiaryEntry>,
    pub metadata: Seq<u8>,
    pub token_address: Address,
    pub custom_metadata: Seq<u8>,
    pub is_paused: bool,
    pub release_condition: ReleaseConditionView,
    pub parent_vault_id: Option<u64>,
    pub passkey_hash: Option<Hash32>,
    pub max_deposit_amount: Option<i128>,
    pub withdrawal_approval_threshold: Option<i128>,
    pub spending_limit: Option<i128>,
}

impl View for Vault {
    type V = VaultView;

    open spec fn view(&self) -> VaultView {
        VaultView {
            owner: self.owner,
            beneficiary: self.beneficiary,
            balance: self.balance,
            check_in_interval: self.check_in_interval,
            last_check_in: self.last_check_in,
            created_at: self.created_at,
            status: self.status,
            beneficiaries: self.beneficiaries@,
            metadata: self.metadata@,
            token_address: self.token_address,
            custom_metadata: self.custom_metadata@,
            is_paused: self.is_paused,
            release_condition: self.release_condition@,
            parent_vault_id: self.parent_vault_id,
            passkey_hash: self.passkey_hash,
            max_deposit_amount: self.max_deposit_amount,
            withdrawal_approval_threshold: self.withdrawal_approval_threshold,
            spending_limit: self.spending_limit,
        }
    }
}

impl Vault {
    /// Returns a copy of this vault.
    pub fn duplicate(&self) -> (r: Vault)
        ensures
            r@ == self@,
    {
        Vault {
            owner: self.owner,
            beneficiary: self.beneficiary,
            balance: self.balance,
            check_in_interval: self.check_in_interval,
            last_check_in: self.last_check_in,
            created_at: self.created_at,
            status: self.status,
            beneficiaries: copy_vec(&self.beneficiaries),
            metadata: copy_vec(&self.metadata),
            token_address: self.token_address,
            custom_metadata: copy_vec(&self.custom_metadata),
            is_paused: self.is_paused,
            release_condition: self.release_condition.duplicate(),
            parent_vault_id: self.parent_vault_id,
            passkey_hash: self.passkey_hash,
            max_deposit_amount: self.max_deposit_amount,
            withdrawal_approval_threshold: self.withdrawal_approval_threshold,
            spending_limit: self.spending_limit,
        }
    }
}

/// A token transfer that an operation makes: `amount` units of `token`
/// move from `from` to `to`.
#[derive(Clone, Copy, Debug, PartialEq, Eq, Structural)]
pub struct Transfer {
    pub token: Address,
    pub from: Address,
    pub to: Address,
    pub amount: i128,
}

/// Returns whether two 32-byte hashes are equal.
pub fn hash_eq(a: &Hash32, b: &Hash32) -> (r: bool)
    ensures
        r == (*a == *b),
{
    let mut i: usize = 0;
    while i < 32
        invariant
            i <= 32,
            forall|j: int| 0 <= j < i ==> a@[j] == b@[j],
        decreases 32 - i,
    {
        if a[i] != b[i] {
            return false;
        }
        i = i + 1;
    }
    proof {
        broadcast use vstd::array::group_array_axioms;
        assert(forall|j: int| 0 <= j < 32 ==> a[j] == b[j]);
        assert(*a =~= *b);
    }
    true
}

/// Returns whether two byte strings are equal.
pub fn bytes_eq(a: &Vec<u8>, b: &Vec<u8>) -> (r: bool)
    ensures
        r == (a@ == b@),
{
    if a.len() != b.len() {
        return false;
    }
    let mut i: usize = 0;
    while i < a.len()
        invariant
            i <= a.len(),
            a.len() == b.len(),
            forall|j: int| 0 <= j < i ==> a@[j] == b@[j],
        decreases a.len() - i,
    {
        if a[i] != b[i] {
            return false;
        }
        i = i + 1;
    }
    assert(a@ =~= b@);
    true
}

} // verus!
