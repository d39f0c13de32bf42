use ttl_legacy::contract::error::ContractError;
use ttl_legacy::contract::multisig::{decode_i128, decode_u64, encode_i128_payload, encode_u64_payload};
use ttl_legacy::contract::state::TtlVaultContract;
use ttl_legacy::contract::types::{MultiSigOperation, ProposalStatus, ReleaseStatus};

const CONTRACT: u64 = 1;
const OWNER: u64 = 10;
const BENEFICIARY: u64 = 11;
const ALICE: u64 = 12;
const BOB: u64 = 13;
const CAROL: u64 = 14;
const ADMIN: u64 = 15;
const TOKEN: u64 = 16;
const WEEK: u64 = 604_800;

/// A contract with one vault of `OWNER` holding 1,000.
fn setup() -> (TtlVaultContract, u64) {
    let mut c = TtlVaultContract::new(CONTRACT);
    c.initialize(TOKEN, ADMIN).unwrap();
    let id = c.create_vault(OWNER, BENEFICIARY, 100, None, 0).unwrap();
    c.deposit(id, OWNER, 1_000, 0).unwrap();
    (c, id)
}

#[test]
fn two_of_three_withdraw_runs_once_the_threshold_is_reached() {
    let (mut c, id) = setup();
    c.configure_multisig(id, OWNER, vec![ALICE, BOB], 2).unwrap();
    assert!(c.has_multisig(id));
    let pid = c.propose_multisig(id, OWNER, MultiSigOperation::Withdraw, encode_i128_payload(500), None, 0).unwrap();
    assert_eq!(pid, 1);
    let p = c.get_multisig_proposal(id, pid).unwrap();
    assert_eq!(p.status, ProposalStatus::Pending);
    assert_eq!(p.approvals, vec![OWNER]);
    assert_eq!(p.expires_at, WEEK);
    assert_eq!(c.execute_multisig(id, pid, OWNER, 1).unwrap_err(), ContractError::ProposalNotApproved);
    c.approve_multisig(id, pid, ALICE, 1).unwrap();
    assert_eq!(c.get_multisig_proposal(id, pid).unwrap().status, ProposalStatus::Approved);
    let t = c.execute_multisig(id, pid, OWNER, 2).unwrap();
    assert_eq!(t.len(), 1);
    assert_eq!((t[0].from, t[0].to, t[0].amount), (CONTRACT, OWNER, 500));
    assert_eq!(c.get_vault_balance(id).unwrap(), 500);
    assert_eq!(c.get_multisig_proposal(id, pid).unwrap().status, ProposalStatus::Executed);
    assert_eq!(c.execute_multisig(id, pid, OWNER, 3).unwrap_err(), ContractError::ProposalNotApproved);
}

#[test]
fn expired_proposals_can_be_neither_approved_nor_executed() {
    let (mut c, id) = setup();
    c.configure_multisig(id, OWNER, vec![ALICE, BOB], 2).unwrap();
    let pid = c.propose_multisig(id, OWNER, MultiSigOperation::CancelVault, Vec::new(), None, 0).unwrap();
    assert_eq!(c.approve_multisig(id, pid, ALICE, WEEK + 1).unwrap_err(), ContractError::ProposalExpired);
    c.approve_multisig(id, pid, ALICE, WEEK).unwrap();
    assert_eq!(c.execute_multisig(id, pid, OWNER, WEEK + 1).unwrap_err(), ContractError::ProposalExpired);
    assert_eq!(c.get_release_status(id).unwrap(), ReleaseStatus::Locked);
}

#[test]
fn a_threshold_of_one_is_met_by_the_proposal() {
    let (mut c, id) = setup();
    c.configure_multisig(id, OWNER, vec![ALICE], 1).unwrap();
    let pid = c.propose_multisig(id, OWNER, MultiSigOperation::UpdateCheckInInterval, encode_u64_payload(200), None, 5).unwrap();
    assert_eq!(c.get_multisig_proposal(id, pid).unwrap().status, ProposalStatus::Approved);
    c.execute_multisig(id, pid, OWNER, 6).unwrap();
    assert_eq!(c.get_vault(id).unwrap().check_in_interval, 200);
}

#[test]
fn approvals_come_only_from_signers_and_only_once() {
    let (mut c, id) = setup();
    c.configure_multisig(id, OWNER, vec![ALICE, BOB, CAROL], 3).unwrap();
    let pid = c.propose_multisig(id, OWNER, MultiSigOperation::UpdateBeneficiary, Vec::new(), Some(ALICE), 0).unwrap();
    assert_eq!(c.approve_multisig(id, pid, BENEFICIARY, 1).unwrap_err(), ContractError::NotASigner);
    assert_eq!(c.approve_multisig(id, pid, OWNER, 1).unwrap_err(), ContractError::AlreadyApproved);
    c.approve_multisig(id, pid, BOB, 1).unwrap();
    assert_eq!(c.approve_multisig(id, pid, BOB, 1).unwrap_err(), ContractError::AlreadyApproved);
    assert_eq!(c.get_multisig_proposal(id, pid).unwrap().status, ProposalStatus::Pending);
    c.approve_multisig(id, pid, CAROL, 1).unwrap();
    assert_eq!(c.get_multisig_proposal(id, pid).unwrap().status, ProposalStatus::Approved);
    c.execute_multisig(id, pid, OWNER, 2).unwrap();
    assert_eq!(c.get_vault(id).unwrap().beneficiary, ALICE);
}

#[test]
fn rejected_proposals_leave_the_pending_state() {
    let (mut c, id) = setup();
    c.configure_multisig(id, OWNER, vec![ALICE], 2).unwrap();
    let pid = c.propose_multisig(id, OWNER, MultiSigOperation::Withdraw, encode_i128_payload(10), None, 0).unwrap();
    assert_eq!(c.reject_multisig(id, pid, ALICE).unwrap_err(), ContractError::NotOwner);
    c.reject_multisig(id, pid, OWNER).unwrap();
    assert_eq!(c.get_multisig_proposal(id, pid).unwrap().status, ProposalStatus::Rejected);
    assert_eq!(c.approve_multisig(id, pid, ALICE, 1).unwrap_err(), ContractError::ProposalNotFound);
}

#[test]
fn configuration_checks_the_threshold_and_the_signers() {
    let (mut c, id) = setup();
    assert_eq!(c.configure_multisig(id, OWNER, vec![ALICE], 0).unwrap_err(), ContractError::InvalidThreshold);
    assert_eq!(c.configure_multisig(id, OWNER, vec![ALICE], 3).unwrap_err(), ContractError::InvalidThreshold);
    assert_eq!(c.configure_multisig(id, OWNER, vec![OWNER], 1).unwrap_err(), ContractError::InvalidBeneficiary);
    assert_eq!(c.configure_multisig(id, ALICE, vec![BOB], 1).unwrap_err(), ContractError::NotOwner);
    assert!(!c.has_multisig(id));
    assert_eq!(
        c.propose_multisig(id, OWNER, MultiSigOperation::CancelVault, Vec::new(), None, 0).unwrap_err(),
        ContractError::MultiSigRequired
    );
    c.configure_multisig(id, OWNER, vec![ALICE], 2).unwrap();
    assert_eq!(c.get_multisig_config(id).unwrap().threshold, 2);
    c.remove_multisig(id, OWNER).unwrap();
    assert!(c.get_multisig_config(id).is_none());
}

#[test]
fn withdraw_payload_beyond_the_balance_is_refused_at_execution() {
    let (mut c, id) = setup();
    c.configure_multisig(id, OWNER, vec![ALICE], 1).unwrap();
    let pid = c.propose_multisig(id, OWNER, MultiSigOperation::Withdraw, encode_i128_payload(5_000), None, 0).unwrap();
    assert_eq!(c.execute_multisig(id, pid, OWNER, 1).unwrap_err(), ContractError::InsufficientBalance);
    let bad = c.propose_multisig(id, OWNER, MultiSigOperation::Withdraw, vec![1, 2, 3], None, 0).unwrap();
    assert_eq!(c.execute_multisig(id, bad, OWNER, 1).unwrap_err(), ContractError::InvalidAmount);
    assert_eq!(c.get_vault_balance(id).unwrap(), 1_000);
}

#[test]
fn payloads_decode_to_what_was_encoded() {
    for v in [0i128, 1, -1, 500, i128::MAX, i128::MIN] {
        let p = encode_i128_payload(v);
        assert_eq!(p.len(), 16);
        assert_eq!(decode_i128(&p).unwrap(), v);
    }
    for v in [0u64, 1, 86_400, u64::MAX] {
        let p = encode_u64_payload(v);
        assert_eq!(p.len(), 8);
        assert_eq!(decode_u64(&p).unwrap(), v);
    }
    assert_eq!(encode_u64_payload(1), vec![1, 0, 0, 0, 0, 0, 0, 0]);
    assert_eq!(decode_i128(&vec![0u8; 15]).unwrap_err(), ContractError::InvalidAmount);
    assert_eq!(decode_u64(&vec![0u8; 7]).unwrap_err(), ContractError::InvalidAmount);
    assert_eq!(decode_u64(&vec![2u8, 0, 0, 0, 0, 0, 0, 0, 9]).unwrap(), 2);
}

#[test]
fn release_before_the_deadline_is_refused_as_not_expired() {
    let (mut c, id) = setup();
    assert_eq!(c.trigger_release(id, 99).unwrap_err(), ContractError::NotExpired);
    assert_eq!(c.get_vault_balance(id).unwrap(), 1_000);
    let t = c.trigger_release(id, 100).unwrap();
    assert_eq!(t.len(), 1);
    assert_eq!((t[0].to, t[0].amount), (BENEFICIARY, 1_000));
}

#[test]
fn check_in_moves_the_deadline_later() {
    let (mut c, id) = setup();
    c.check_in(id, OWNER, [0u8; 32], 60).unwrap();
    assert_eq!(c.get_vault_last_check_in(id).unwrap(), 60);
    assert_eq!(c.get_ttl_remaining(id, 60), Some(100));
    assert!(!c.is_expired(id, 159).unwrap());
    assert!(c.is_expired(id, 160).unwrap());
}

#[test]
fn direct_sensitive_operations_need_a_proposal_once_multisig_is_configured() {
    let (mut c, id) = setup();
    c.configure_multisig(id, OWNER, vec![ALICE], 2).unwrap();
    assert_eq!(c.withdraw(id, OWNER, 500, 1).unwrap_err(), ContractError::MultiSigRequired);
    assert_eq!(c.get_vault_balance(id).unwrap(), 1_000);
    assert_eq!(c.batch_withdraw(&vec![id], &vec![500], OWNER).unwrap_err(), ContractError::MultiSigRequired);
    assert_eq!(c.update_beneficiary(id, OWNER, BOB, 1).unwrap_err(), ContractError::MultiSigRequired);
    assert_eq!(c.cancel_vault(id, OWNER, 1).unwrap_err(), ContractError::MultiSigRequired);
    assert_eq!(c.initiate_ownership_transfer(id, OWNER, CAROL, 1).unwrap_err(), ContractError::MultiSigRequired);
    assert_eq!(c.update_check_in_interval(id, 300, 1).unwrap_err(), ContractError::MultiSigRequired);
    assert_eq!(c.get_vault(id).unwrap().beneficiary, BENEFICIARY);
    assert_eq!(c.get_release_status(id).unwrap(), ReleaseStatus::Locked);
    c.remove_multisig(id, OWNER).unwrap();
    let t = c.withdraw(id, OWNER, 500, 1).unwrap();
    assert_eq!((t[0].to, t[0].amount), (OWNER, 500));
    assert_eq!(c.get_vault_balance(id).unwrap(), 500);
}

#[test]
fn backup_codes_are_ten_distinct_one_time_codes() {
    let (mut c, id) = setup();
    let codes = c.generate_backup_codes(id, OWNER, 16).unwrap();
    assert_eq!(codes.len(), 10);
    assert_eq!(codes[0], b"0000000000000010-0".to_vec());
    assert_eq!(codes[9], b"0000000000000010-9".to_vec());
    for j in 0..10 {
        for k in (j + 1)..10 {
            assert_ne!(codes[j], codes[k]);
        }
    }
    for code in &codes {
        c.use_backup_code(id, code, 50).unwrap();
        assert_eq!(c.use_backup_code(id, code, 50).unwrap_err(), ContractError::BackupCodeAlreadyUsed);
    }
    let other = c.generate_backup_codes(id, OWNER, 255).unwrap();
    assert_eq!(other[3], b"00000000000000ff-3".to_vec());
    assert_eq!(c.generate_backup_codes(id, ALICE, 255).unwrap_err(), ContractError::NotOwner);
}

#[test]
fn ttl_decays_at_most_once_per_thirty_days() {
    let mut c = TtlVaultContract::new(CONTRACT);
    c.initialize(TOKEN, ADMIN).unwrap();
    let id = c.create_vault(OWNER, BENEFICIARY, 3_000_000, None, 10_000_000).unwrap();
    c.set_ttl_decay_rate(100).unwrap();
    assert_eq!(c.apply_ttl_decay(id, 12_591_999).unwrap(), 408_001);
    assert_eq!(c.apply_ttl_decay(id, 12_592_000).unwrap(), 403_920);
    assert_eq!(c.apply_ttl_decay(id, 12_592_000).unwrap(), 403_920);
    assert_eq!(c.get_ttl_remaining(id, 12_592_000), Some(403_920));
    assert_eq!(c.apply_ttl_decay(id, 12_592_000 + 2_591_999).is_ok(), true);
    assert_eq!(c.get_ttl_remaining(id, 12_592_000), Some(403_920));
}

#[test]
fn multisig_errors_carry_their_documented_codes() {
    assert_eq!(ContractError::MultiSigRequired.code(), 34);
    assert_eq!(ContractError::AlreadyApproved.code(), 35);
    assert_eq!(ContractError::ProposalNotFound.code(), 36);
    assert_eq!(ContractError::ProposalExpired.code(), 37);
    assert_eq!(ContractError::ProposalNotApproved.code(), 38);
    assert_eq!(ContractError::NotASigner.code(), 39);
    assert_eq!(ContractError::InvalidThreshold.code(), 40);
    let (mut c, id) = setup();
    let err = c.propose_multisig(id, OWNER, MultiSigOperation::CancelVault, Vec::new(), None, 0).unwrap_err();
    assert_eq!(err.code(), 34);
    assert_eq!(c.get_multisig_proposal_count(id), 0);
}

#[test]
fn deposit_then_withdraw_restores_the_balance() {
    let (mut c, id) = setup();
    c.deposit(id, OWNER, 250, 10).unwrap();
    assert_eq!(c.get_vault_balance(id).unwrap(), 1_250);
    c.withdraw(id, OWNER, 250, 20).unwrap();
    assert_eq!(c.get_vault_balance(id).unwrap(), 1_000);
}
