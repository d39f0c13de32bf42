use vstd::prelude::*;

verus! {

/// Errors that vault operations report to their caller.
#[derive(Clone, Copy, Debug, PartialEq, Eq, Structural)]
pub enum ContractError {
    AlreadyInitialized,
    InvalidInterval,
    VaultNotFound,
    EmptyVault,
    InvalidAmount,
    NotOwner,
    AlreadyReleased,
    InsufficientBalance,
    NotAdmin,
    Paused,
    NoPendingAdmin,
    InvalidBps,
    NotExpiringSoon,
    IntervalTooLow,
    IntervalTooHigh,
    NotExpired,
    InvalidBeneficiary,
    BalanceOverflow,
    VaultExpired,
    InvalidAdmin,
    NotInitialized,
    VestingNotFound,
    NothingToClaimYet,
    VestingAlreadyComplete,
    MaxTtlExceeded,
    InvalidPasskey,
    PasskeyNotFound,
    InvalidBackupCode,
    BackupCodeAlreadyUsed,
    NotBeneficiary,
    DisputeFiled,
    NoScheduledWithdrawals,
    ConditionsNotApproved,
    NoPendingOwnershipTransfer,
    OwnershipTransferExpired,
    OwnershipTransferTimeLocked,
    UpgradeInvalidHash,
    DepositLimitExceeded,
    WithdrawalNotApproved,
    NotRecoveryContact,
    InvalidThreshold,
    MultiSigRequired,
    NotASigner,
    ProposalNotFound,
    ProposalExpired,
    AlreadyApproved,
    ProposalNotApproved,
}

/// The numeric code under which each error is reported on the ledger; the
/// multi-signature errors hold 34 to 40.
pub open spec fn spec_error_code(e: ContractError) -> u32 {
    match e {
        ContractError::AlreadyInitialized => 1,
        ContractError::InvalidInterval => 2,
        ContractError::VaultNotFound => 3,
        ContractError::EmptyVault => 4,
        ContractError::InvalidAmount => 5,
        ContractError::NotOwner => 6,
        ContractError::AlreadyReleased => 7,
        ContractError::InsufficientBalance => 8,
        ContractError::NotAdmin => 9,
        ContractError::Paused => 10,
        ContractError::NoPendingAdmin => 11,
        ContractError::InvalidBps => 12,
        ContractError::NotExpiringSoon => 13,
        ContractError::IntervalTooLow => 14,
        ContractError::IntervalTooHigh => 15,
        ContractError::NotExpired => 16,
        ContractError::InvalidBeneficiary => 17,
        ContractError::BalanceOverflow => 18,
        ContractError::VaultExpired => 19,
        ContractError::InvalidAdmin => 20,
        ContractError::NotInitialized => 21,
        ContractError::VestingNotFound => 22,
        ContractError::NothingToClaimYet => 23,
        ContractError::VestingAlreadyComplete => 24,
        ContractError::MaxTtlExceeded => 25,
        ContractError::InvalidPasskey => 26,
        ContractError::PasskeyNotFound => 27,
        ContractError::InvalidBackupCode => 28,
        ContractError::BackupCodeAlreadyUsed => 29,
        ContractError::NotBeneficiary => 30,
        ContractError::DisputeFiled => 31,
        ContractError::NoScheduledWithdrawals => 32,
        ContractError::ConditionsNotApproved => 33,
        ContractError::NoPendingOwnershipTransfer => 41,
        ContractError::OwnershipTransferExpired => 42,
        ContractError::OwnershipTransferTimeLocked => 43,
        ContractError::UpgradeInvalidHash => 44,
        ContractError::DepositLimitExceeded => 45,
        ContractError::WithdrawalNotApproved => 46,
        ContractError::NotRecoveryContact => 47,
        ContractError::InvalidThreshold => 40,
        ContractError::MultiSigRequired => 34,
        ContractError::NotASigner => 39,
        ContractError::ProposalNotFound => 36,
        ContractError::ProposalExpired => 37,
        ContractError::AlreadyApproved => 35,
        ContractError::ProposalNotApproved => 38,
    }
}

impl ContractError {
    /// Returns the numeric error code of this error.
    pub fn code(&self) -> (c: u32)
        ensures
            c == spec_error_code(*self),
            1 <= c <= 47,
    {
        match self {
            ContractError::AlreadyInitialized => 1,
            ContractError::InvalidInterval => 2,
            ContractError::VaultNotFound => 3,
            ContractError::EmptyVault => 4,
            ContractError::InvalidAmount => 5,
            ContractError::NotOwner => 6,
            ContractError::AlreadyReleased => 7,
            ContractError::InsufficientBalance => 8,
            ContractError::NotAdmin => 9,
            ContractError::Paused => 10,
            ContractError::NoPendingAdmin => 11,
            ContractError::InvalidBps => 12,
            ContractError::NotExpiringSoon => 13,
            ContractError::IntervalTooLow => 14,
            ContractError::IntervalTooHigh => 15,
            ContractError::NotExpired => 16,
            ContractError::InvalidBeneficiary => 17,
            ContractError::BalanceOverflow => 18,
            ContractError::VaultExpired => 19,
            ContractError::InvalidAdmin => 20,
            ContractError::NotInitialized => 21,
            ContractError::VestingNotFound => 22,
            ContractError::NothingToClaimYet => 23,
            ContractError::VestingAlreadyComplete => 24,
            ContractError::MaxTtlExceeded => 25,
            ContractError::InvalidPasskey => 26,
            ContractError::PasskeyNotFound => 27,
            ContractError::InvalidBackupCode => 28,
            ContractError::BackupCodeAlreadyUsed => 29,
            ContractError::NotBeneficiary => 30,
            ContractError::DisputeFiled => 31,
            ContractError::NoScheduledWithdrawals => 32,
            ContractError::ConditionsNotApproved => 33,
            ContractError::NoPendingOwnershipTransfer => 41,
            ContractError::OwnershipTransferExpired => 42,
            ContractError::OwnershipTransferTimeLocked => 43,
            ContractError::UpgradeInvalidHash => 44,
            ContractError::DepositLimitExceeded => 45,
            ContractError::WithdrawalNotApproved => 46,
            ContractError::NotRecoveryContact => 47,
            ContractError::InvalidThreshold => 40,
            ContractError::MultiSigRequired => 34,
            ContractError::NotASigner => 39,
            ContractError::ProposalNotFound => 36,
            ContractError::ProposalExpired => 37,
            ContractError::AlreadyApproved => 35,
            ContractError::ProposalNotApproved => 38,
        }
    }
}

} // verus!
