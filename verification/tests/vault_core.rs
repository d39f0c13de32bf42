use ttl_legacy::contract::error::ContractError;
use ttl_legacy::contract::state::TtlVaultContract;
use ttl_legacy::contract::types::{
    AuditAction, BeneficiaryStatus, DisputeStatus, Address, ReleaseStatus, Transfer,
};

/// A ledger around the contract: a clock, addresses and token balances.
struct Ledger {
    c: TtlVaultContract,
    now: u64,
    next_addr: Address,
    balances: Vec<(Address, Address, i128)>,
}

const CONTRACT: Address = 1;
const NO_PASSKEY: [u8; 32] = [0u8; 32];

impl Ledger {
    fn gen(&mut self) -> Address {
        self.next_addr += 1;
        self.next_addr
    }

    fn balance(&self, token: Address, who: Address) -> i128 {
        self.balances.iter().filter(|b| b.0 == token && b.1 == who).map(|b| b.2).sum()
    }

    fn credit(&mut self, token: Address, who: Address, amount: i128) {
        self.balances.push((token, who, amount));
    }

    fn apply(&mut self, ts: &[Transfer]) {
        for t in ts {
            assert!(self.balance(t.token, t.from) >= t.amount, "insufficient token balance");
            self.credit(t.token, t.from, -t.amount);
            self.credit(t.token, t.to, t.amount);
        }
    }

    fn create(&mut self, owner: Address, beneficiary: Address, interval: u64) -> u64 {
        self.c.create_vault(owner, beneficiary, interval, None, self.now).unwrap()
    }

    fn deposit(&mut self, id: u64, from: Address, amount: i128) {
        let t = self.c.deposit(id, from, amount, self.now).unwrap();
        self.apply(&t);
    }

    fn try_deposit(&mut self, id: u64, from: Address, amount: i128) -> Result<(), ContractError> {
        let t = self.c.deposit(id, from, amount, self.now)?;
        self.apply(&t);
        Ok(())
    }

    fn withdraw(&mut self, id: u64, caller: Address, amount: i128) -> Result<(), ContractError> {
        let t = self.c.withdraw(id, caller, amount, self.now)?;
        self.apply(&t);
        Ok(())
    }

    fn trigger_release(&mut self, id: u64) -> Result<(), ContractError> {
        let t = self.c.trigger_release(id, self.now)?;
        self.apply(&t);
        Ok(())
    }

    fn partial_release(&mut self, id: u64, amount: i128) -> Result<(), ContractError> {
        let t = self.c.partial_release(id, amount, self.now)?;
        self.apply(&t);
        Ok(())
    }

    fn check_in(&mut self, id: u64, caller: Address) -> Result<(), ContractError> {
        self.c.check_in(id, caller, NO_PASSKEY, self.now)
    }

    fn status(&self, id: u64) -> ReleaseStatus {
        self.c.get_release_status(id).unwrap()
    }
}

/// An initialized contract; the owner holds 1,000,000 of the default token.
/// Returns the ledger, owner, beneficiary, admin and token.
fn setup() -> (Ledger, Address, Address, Address, Address) {
    let mut l = Ledger { c: TtlVaultContract::new(CONTRACT), now: 0, next_addr: 100, balances: Vec::new() };
    let owner = l.gen();
    let beneficiary = l.gen();
    let admin = l.gen();
    let token = l.gen();
    l.credit(token, owner, 1_000_000);
    l.c.initialize(token, admin).unwrap();
    (l, owner, beneficiary, admin, token)
}

#[test]
fn test_initialize_guard_against_double_init() {
    let (mut l, _, _, admin, token) = setup();
    let new_admin = l.gen();
    let new_token = l.gen();
    let err = l.c.initialize(new_token, new_admin).unwrap_err();
    assert_eq!(err.code(), 1);
    assert_eq!(l.c.get_admin().unwrap(), admin);
    assert_eq!(l.c.get_contract_token().unwrap(), token);
}

#[test]
fn test_initialize_rejects_same_xlm_token_and_admin() {
    let mut c = TtlVaultContract::new(CONTRACT);
    let err = c.initialize(7, 7).unwrap_err();
    assert_eq!(err.code(), 20);
}

#[test]
fn test_vault_count_view() {
    let (mut l, owner, beneficiary, _, _) = setup();
    assert_eq!(l.c.vault_count(), 0);
    let id_1 = l.create(owner, beneficiary, 100);
    let id_2 = l.create(owner, beneficiary, 200);
    assert_eq!(id_1, 1);
    assert_eq!(id_2, 2);
    assert_eq!(l.c.vault_count(), 2);
}

#[test]
fn test_vault_count_not_incremented_on_failed_create() {
    let (mut l, owner, _, _, _) = setup();
    assert_eq!(l.c.vault_count(), 0);
    assert!(l.c.create_vault(owner, owner, 100, None, l.now).is_err());
    assert_eq!(l.c.vault_count(), 0);
}

#[test]
fn test_vault_count_is_consistent_after_create() {
    let (mut l, owner, beneficiary, _, _) = setup();
    assert_eq!(l.c.vault_count(), 0);
    let vault_id = l.create(owner, beneficiary, 100);
    assert_eq!(vault_id, 1);
    assert_eq!(l.c.vault_count(), vault_id);
    let vault_id_2 = l.create(owner, beneficiary, 200);
    assert_eq!(vault_id_2, 2);
    assert_eq!(l.c.vault_count(), vault_id_2);
}

#[test]
fn test_vault_exists_for_existing_and_missing_ids() {
    let (mut l, owner, beneficiary, _, _) = setup();
    assert!(!l.c.vault_exists(1));
    let vault_id = l.create(owner, beneficiary, 100);
    assert!(l.c.vault_exists(vault_id));
    assert!(!l.c.vault_exists(vault_id + 1));
}

#[test]
fn test_get_release_status_view() {
    let (mut l, owner, beneficiary, _, token) = setup();
    let vault_id = l.create(owner, beneficiary, 100);
    assert_eq!(l.status(vault_id), ReleaseStatus::Locked);
    l.deposit(vault_id, owner, 500);
    l.now += 200;
    l.trigger_release(vault_id).unwrap();
    assert_eq!(l.status(vault_id), ReleaseStatus::Released);
    assert_eq!(l.balance(token, beneficiary), 500);
}

#[test]
fn test_batch_deposit_updates_multiple_vaults() {
    let (mut l, owner, beneficiary, _, token) = setup();
    let vault_id_1 = l.create(owner, beneficiary, 100);
    let vault_id_2 = l.create(owner, beneficiary, 200);
    let t = l.c.batch_deposit(owner, &vec![(vault_id_1, 150), (vault_id_2, 250)], l.now).unwrap();
    l.apply(&t);
    assert_eq!(l.c.get_vault(vault_id_1).unwrap().balance, 150);
    assert_eq!(l.c.get_vault(vault_id_2).unwrap().balance, 250);
    assert_eq!(l.balance(token, owner), 999_600);
}

#[test]
fn test_batch_deposit_validates_all_items_before_transfer() {
    let (mut l, owner, beneficiary, _, token) = setup();
    let vault_id = l.create(owner, beneficiary, 100);
    assert!(l.c.batch_deposit(owner, &vec![(vault_id, 100), (999, 200)], l.now).is_err());
    assert_eq!(l.c.get_vault(vault_id).unwrap().balance, 0);
    assert_eq!(l.balance(token, owner), 1_000_000);
    assert!(l.c.batch_deposit(owner, &vec![(vault_id, 100), (vault_id, 0)], l.now).is_err());
    assert_eq!(l.c.get_vault(vault_id).unwrap().balance, 0);
    assert_eq!(l.balance(token, owner), 1_000_000);
}

#[test]
fn test_batch_deposit_rejected_when_any_vault_expired() {
    let (mut l, owner, beneficiary, _, token) = setup();
    let vault_id_1 = l.create(owner, beneficiary, 100);
    let vault_id_2 = l.create(owner, beneficiary, 200);
    l.now += 150;
    assert!(l.c.batch_deposit(owner, &vec![(vault_id_1, 100), (vault_id_2, 200)], l.now).is_err());
    assert_eq!(l.c.get_vault(vault_id_1).unwrap().balance, 0);
    assert_eq!(l.c.get_vault(vault_id_2).unwrap().balance, 0);
    assert_eq!(l.balance(token, owner), 1_000_000);
}

#[test]
fn batch_deposit_to_the_same_vault_adds_up() {
    let (mut l, owner, beneficiary, _, token) = setup();
    let id = l.create(owner, beneficiary, 100);
    let t = l.c.batch_deposit(owner, &vec![(id, 100), (id, 50)], l.now).unwrap();
    assert_eq!(t.len(), 1);
    assert_eq!(t[0].amount, 150);
    l.apply(&t);
    assert_eq!(l.c.get_vault(id).unwrap().balance, 150);
    assert_eq!(l.balance(token, CONTRACT), 150);
}

#[test]
fn test_pause_and_unpause_toggle() {
    let (mut l, _, _, _, _) = setup();
    assert!(!l.c.is_paused());
    l.c.pause().unwrap();
    assert!(l.c.is_paused());
    l.c.unpause().unwrap();
    assert!(!l.c.is_paused());
}

#[test]
fn test_get_admin_view() {
    let (l, _, _, admin, _) = setup();
    assert_eq!(l.c.get_admin().unwrap(), admin);
}

#[test]
fn test_paused_blocks_check_in_withdraw_and_trigger_release() {
    let (mut l, owner, beneficiary, _, _) = setup();
    let vault_id = l.create(owner, beneficiary, 100);
    l.deposit(vault_id, owner, 200);
    l.now += 200;
    l.c.pause().unwrap();
    assert!(l.check_in(vault_id, owner).is_err());
    assert!(l.withdraw(vault_id, owner, 10).is_err());
    assert!(l.trigger_release(vault_id).is_err());
    l.c.unpause().unwrap();
    l.trigger_release(vault_id).unwrap();
    assert_eq!(l.status(vault_id), ReleaseStatus::Released);
}

#[test]
fn test_get_vaults_by_owner_tracks_multiple_vaults() {
    let (mut l, owner, beneficiary, _, _) = setup();
    let vault_id_1 = l.create(owner, beneficiary, 100);
    let vault_id_2 = l.create(owner, beneficiary, 200);
    assert_eq!(l.c.get_vaults_by_owner(owner, None, 0, 10), vec![vault_id_1, vault_id_2]);
}

#[test]
fn test_update_check_in_interval() {
    let (mut l, owner, beneficiary, _, _) = setup();
    let vault_id = l.create(owner, beneficiary, 100);
    l.c.update_check_in_interval(vault_id, 300, l.now).unwrap();
    assert_eq!(l.c.get_vault(vault_id).unwrap().check_in_interval, 300);
    assert!(l.c.update_check_in_interval(vault_id, 0, l.now).is_err());
}

#[test]
fn test_update_check_in_interval_extends_vault_storage_ttl() {
    let (mut l, owner, beneficiary, _, _) = setup();
    let long_interval: u64 = 30 * 24 * 3600;
    let vault_id = l.create(owner, beneficiary, 100);
    l.c.update_check_in_interval(vault_id, long_interval, l.now).unwrap();
    assert_eq!(l.c.get_vault(vault_id).unwrap().check_in_interval, long_interval);
    l.now += long_interval - 1;
    assert_eq!(l.c.get_vault(vault_id).unwrap().check_in_interval, long_interval);
    assert!(!l.c.is_expired(vault_id, l.now).unwrap());
}

#[test]
fn test_transfer_ownership_updates_owner_and_owner_index() {
    let (mut l, owner, beneficiary, _, _) = setup();
    let new_owner = l.gen();
    let vault_id = l.create(owner, beneficiary, 100);
    assert_eq!(l.c.get_vaults_by_owner(owner, None, 0, 10), vec![vault_id]);
    assert_eq!(l.c.get_vaults_by_owner(new_owner, None, 0, 10), Vec::<u64>::new());
    l.c.initiate_ownership_transfer(vault_id, owner, new_owner, l.now).unwrap();
    assert_eq!(l.c.get_vault(vault_id).unwrap().owner, owner);
    l.now += 86_401;
    l.c.accept_ownership_transfer(vault_id, new_owner, l.now).unwrap();
    assert_eq!(l.c.get_vault(vault_id).unwrap().owner, new_owner);
    assert_eq!(l.c.get_vaults_by_owner(owner, None, 0, 10), Vec::<u64>::new());
    assert_eq!(l.c.get_vaults_by_owner(new_owner, None, 0, 10), vec![vault_id]);
}

#[test]
fn test_transfer_ownership_rejects_new_owner_equal_to_beneficiary() {
    let (mut l, owner, beneficiary, _, _) = setup();
    let vault_id = l.create(owner, beneficiary, 100);
    let err = l.c.initiate_ownership_transfer(vault_id, owner, beneficiary, l.now).unwrap_err();
    assert_eq!(err.code(), 17);
}

#[test]
fn test_transfer_ownership_preserves_beneficiary_index() {
    let (mut l, owner, beneficiary, _, _) = setup();
    let new_owner = l.gen();
    let vault_id = l.create(owner, beneficiary, 100);
    assert_eq!(l.c.get_vaults_by_beneficiary(beneficiary, None, 0, 10), vec![vault_id]);
    l.c.initiate_ownership_transfer(vault_id, owner, new_owner, l.now).unwrap();
    l.now += 86_401;
    l.c.accept_ownership_transfer(vault_id, new_owner, l.now).unwrap();
    assert_eq!(l.c.get_vault(vault_id).unwrap().beneficiary, beneficiary);
    assert_eq!(l.c.get_vaults_by_beneficiary(beneficiary, None, 0, 10), vec![vault_id]);
}

#[test]
fn test_initiate_ownership_transfer_stores_pending_request() {
    let (mut l, owner, beneficiary, _, _) = setup();
    let new_owner = l.gen();
    let vault_id = l.create(owner, beneficiary, 100);
    let unlocks_at = l.c.initiate_ownership_transfer(vault_id, owner, new_owner, l.now).unwrap();
    let req = l.c.get_pending_ownership_transfer(vault_id).expect("pending request should exist");
    assert_eq!(req.new_owner, new_owner);
    assert_eq!(req.unlocks_at, unlocks_at);
    assert_eq!(l.c.get_vault(vault_id).unwrap().owner, owner);
}

#[test]
fn test_accept_ownership_transfer_before_timelock_fails() {
    let (mut l, owner, beneficiary, _, _) = setup();
    let new_owner = l.gen();
    let vault_id = l.create(owner, beneficiary, 100);
    l.c.initiate_ownership_transfer(vault_id, owner, new_owner, l.now).unwrap();
    let err = l.c.accept_ownership_transfer(vault_id, new_owner, l.now).unwrap_err();
    assert_eq!(err, ContractError::OwnershipTransferTimeLocked);
    assert_eq!(err.code(), 43);
}

#[test]
fn test_accept_ownership_transfer_after_timelock_succeeds() {
    let (mut l, owner, beneficiary, _, _) = setup();
    let new_owner = l.gen();
    let vault_id = l.create(owner, beneficiary, 100);
    l.c.initiate_ownership_transfer(vault_id, owner, new_owner, l.now).unwrap();
    l.now += 86_401;
    l.c.accept_ownership_transfer(vault_id, new_owner, l.now).unwrap();
    assert_eq!(l.c.get_vault(vault_id).unwrap().owner, new_owner);
    assert!(l.c.get_pending_ownership_transfer(vault_id).is_none());
}

#[test]
fn test_accept_ownership_transfer_after_expiry_fails() {
    let (mut l, owner, beneficiary, _, _) = setup();
    let new_owner = l.gen();
    let vault_id = l.create(owner, beneficiary, 100);
    l.c.initiate_ownership_transfer(vault_id, owner, new_owner, l.now).unwrap();
    l.now += 604_801;
    let err = l.c.accept_ownership_transfer(vault_id, new_owner, l.now).unwrap_err();
    assert_eq!(err, ContractError::OwnershipTransferExpired);
    assert_eq!(err.code(), 42);
}

#[test]
fn test_accept_ownership_transfer_wrong_address_fails() {
    let (mut l, owner, beneficiary, _, _) = setup();
    let new_owner = l.gen();
    let impostor = l.gen();
    let vault_id = l.create(owner, beneficiary, 100);
    l.c.initiate_ownership_transfer(vault_id, owner, new_owner, l.now).unwrap();
    l.now += 86_401;
    let err = l.c.accept_ownership_transfer(vault_id, impostor, l.now).unwrap_err();
    assert_eq!(err.code(), 6);
}

#[test]
fn test_cancel_ownership_transfer_removes_pending_request() {
    let (mut l, owner, beneficiary, _, _) = setup();
    let new_owner = l.gen();
    let vault_id = l.create(owner, beneficiary, 100);
    l.c.initiate_ownership_transfer(vault_id, owner, new_owner, l.now).unwrap();
    assert!(l.c.get_pending_ownership_transfer(vault_id).is_some());
    l.c.cancel_ownership_transfer(vault_id, owner, l.now).unwrap();
    assert!(l.c.get_pending_ownership_transfer(vault_id).is_none());
    assert_eq!(l.c.get_vault(vault_id).unwrap().owner, owner);
}

#[test]
fn test_cancel_ownership_transfer_with_no_pending_fails() {
    let (mut l, owner, beneficiary, _, _) = setup();
    let vault_id = l.create(owner, beneficiary, 100);
    let err = l.c.cancel_ownership_transfer(vault_id, owner, l.now).unwrap_err();
    assert_eq!(err, ContractError::NoPendingOwnershipTransfer);
    assert_eq!(err.code(), 41);
}

#[test]
fn test_accept_ownership_transfer_with_no_pending_fails() {
    let (mut l, owner, beneficiary, _, _) = setup();
    let new_owner = l.gen();
    let vault_id = l.create(owner, beneficiary, 100);
    l.now += 86_401;
    let err = l.c.accept_ownership_transfer(vault_id, new_owner, l.now).unwrap_err();
    assert_eq!(err, ContractError::NoPendingOwnershipTransfer);
    assert_eq!(err.code(), 41);
}

#[test]
fn test_initiate_ownership_transfer_replaces_existing_pending() {
    let (mut l, owner, beneficiary, _, _) = setup();
    let new_owner1 = l.gen();
    let new_owner2 = l.gen();
    let vault_id = l.create(owner, beneficiary, 100);
    l.c.initiate_ownership_transfer(vault_id, owner, new_owner1, l.now).unwrap();
    l.c.initiate_ownership_transfer(vault_id, owner, new_owner2, l.now).unwrap();
    assert_eq!(l.c.get_pending_ownership_transfer(vault_id).unwrap().new_owner, new_owner2);
}

#[test]
fn test_cancel_vault_refunds_owner_and_marks_cancelled() {
    let (mut l, owner, beneficiary, _, token) = setup();
    let vault_id = l.create(owner, beneficiary, 100);
    l.deposit(vault_id, owner, 400);
    assert_eq!(l.balance(token, owner), 999_600);
    let t = l.c.cancel_vault(vault_id, owner, l.now).unwrap();
    l.apply(&t);
    assert_eq!(l.balance(token, owner), 1_000_000);
    assert_eq!(l.status(vault_id), ReleaseStatus::Cancelled);
}

#[test]
fn test_cancel_vault_requires_auth_before_load() {
    let (mut l, owner, beneficiary, _, _) = setup();
    let other = l.gen();
    let vault_id = l.create(owner, beneficiary, 100);
    assert!(l.c.cancel_vault(vault_id, other, l.now).is_err());
}

#[test]
fn test_admin_transfer_full_flow() {
    let (mut l, _, _, admin, _) = setup();
    let new_admin = l.gen();
    assert_eq!(l.c.get_admin().unwrap(), admin);
    assert_eq!(l.c.get_pending_admin(), None);
    l.c.propose_admin(new_admin).unwrap();
    assert_eq!(l.c.get_pending_admin(), Some(new_admin));
    l.c.accept_admin().unwrap();
    assert_eq!(l.c.get_admin().unwrap(), new_admin);
    assert_eq!(l.c.get_pending_admin(), None);
    l.c.pause().unwrap();
    assert!(l.c.is_paused());
    l.c.unpause().unwrap();
    assert!(!l.c.is_paused());
}

#[test]
fn test_create_vault_rejects_owner_as_beneficiary() {
    let (mut l, owner, _, _, _) = setup();
    let err = l.c.create_vault(owner, owner, 1000, None, l.now).unwrap_err();
    assert_eq!(err.code(), 17);
}

#[test]
fn test_vault_count_consistent_after_creation() {
    let (mut l, owner, beneficiary, _, _) = setup();
    assert_eq!(l.c.vault_count(), 0);
    let id = l.create(owner, beneficiary, 1000);
    assert_eq!(id, 1);
    assert_eq!(l.c.vault_count(), 1);
}

#[test]
fn test_propose_admin_can_be_called_multiple_times() {
    let (mut l, _, _, _, _) = setup();
    let new_admin_1 = l.gen();
    let new_admin_2 = l.gen();
    l.c.propose_admin(new_admin_1).unwrap();
    assert_eq!(l.c.get_pending_admin(), Some(new_admin_1));
    l.c.propose_admin(new_admin_2).unwrap();
    assert_eq!(l.c.get_pending_admin(), Some(new_admin_2));
    l.c.accept_admin().unwrap();
    assert_eq!(l.c.get_admin().unwrap(), new_admin_2);
    assert_eq!(l.c.get_pending_admin(), None);
    l.c.pause().unwrap();
    assert!(l.c.is_paused());
}

#[test]
fn test_accept_admin_rejects_when_no_pending_admin() {
    let (mut l, _, _, _, _) = setup();
    let err = l.c.accept_admin().unwrap_err();
    assert_eq!(err.code(), 11);
}

#[test]
fn test_ping_expiry_emits_event_when_near_expiry() {
    let (mut l, owner, beneficiary, _, _) = setup();
    let vault_id = l.create(owner, beneficiary, 100);
    l.now += 50;
    assert_eq!(l.c.ping_expiry(vault_id, l.now).unwrap(), 50);
}

#[test]
fn test_ping_expiry_no_event_when_far_from_expiry() {
    let (mut l, owner, beneficiary, _, _) = setup();
    let vault_id = l.create(owner, beneficiary, 200_000);
    assert_eq!(l.c.ping_expiry(vault_id, l.now).unwrap(), 200_000);
}

#[test]
fn test_ping_expiry_returns_zero_when_expired() {
    let (mut l, owner, beneficiary, _, _) = setup();
    let vault_id = l.create(owner, beneficiary, 100);
    l.now += 200;
    assert_eq!(l.c.ping_expiry(vault_id, l.now).unwrap(), 0);
}

#[test]
fn test_ping_expiry_panics_for_nonexistent_vault() {
    let (l, _, _, _, _) = setup();
    assert_eq!(l.c.ping_expiry(9999, l.now).unwrap_err().code(), 3);
}

#[test]
fn test_get_ttl_remaining_returns_none_when_expired() {
    let (mut l, owner, beneficiary, _, _) = setup();
    let vault_id = l.create(owner, beneficiary, 100);
    l.now += 200;
    assert!(l.c.get_ttl_remaining(vault_id, l.now).is_none());
}

#[test]
fn test_get_ttl_remaining_returns_none_for_nonexistent_vault() {
    let (l, _, _, _, _) = setup();
    assert!(l.c.get_ttl_remaining(9999, l.now).is_none());
}

#[test]
fn test_partial_release_transfers_amount_to_beneficiary() {
    let (mut l, owner, beneficiary, _, token) = setup();
    let vault_id = l.create(owner, beneficiary, 100);
    l.deposit(vault_id, owner, 1_000);
    l.partial_release(vault_id, 300).unwrap();
    assert_eq!(l.balance(token, beneficiary), 300);
    assert_eq!(l.c.get_vault(vault_id).unwrap().balance, 700);
    assert_eq!(l.status(vault_id), ReleaseStatus::Locked);
}

#[test]
fn test_partial_release_fails_if_insufficient_balance() {
    let (mut l, owner, beneficiary, _, _) = setup();
    let vault_id = l.create(owner, beneficiary, 100);
    l.deposit(vault_id, owner, 100);
    assert_eq!(l.partial_release(vault_id, 200).unwrap_err().code(), 8);
}

#[test]
fn test_partial_release_rejects_zero_amount() {
    let (mut l, owner, beneficiary, _, _) = setup();
    let vault_id = l.create(owner, beneficiary, 100);
    l.deposit(vault_id, owner, 500);
    assert!(l.partial_release(vault_id, 0).is_err(), "expected error for zero-amount partial release");
}

#[test]
fn test_partial_release_rejects_negative_amount() {
    let (mut l, owner, beneficiary, _, _) = setup();
    let vault_id = l.create(owner, beneficiary, 100);
    l.deposit(vault_id, owner, 500);
    assert!(l.partial_release(vault_id, -1).is_err(), "expected error for negative-amount partial release");
}

#[test]
fn test_update_beneficiary_rejects_owner_as_beneficiary() {
    let (mut l, owner, beneficiary, _, _) = setup();
    let vault_id = l.create(owner, beneficiary, 1000);
    assert_eq!(l.c.update_beneficiary(vault_id, owner, owner, l.now).unwrap_err().code(), 17);
}

#[test]
fn test_update_beneficiary_requires_auth_before_load() {
    let (mut l, owner, beneficiary, _, _) = setup();
    let other = l.gen();
    let vault_id = l.create(owner, beneficiary, 1000);
    let new_beneficiary = l.gen();
    assert!(l.c.update_beneficiary(vault_id, other, new_beneficiary, l.now).is_err());
}

#[test]
fn test_deposit_into_expired_vault_is_rejected() {
    let (mut l, owner, beneficiary, _, _) = setup();
    let vault_id = l.create(owner, beneficiary, 100);
    l.now += 200;
    assert_eq!(l.try_deposit(vault_id, owner, 500).unwrap_err().code(), 19);
}

#[test]
fn test_deposit_into_expired_vault_returns_vault_expired_error() {
    let (mut l, owner, beneficiary, _, _) = setup();
    let vault_id = l.create(owner, beneficiary, 100);
    l.now += 200;
    let err = l.try_deposit(vault_id, owner, 500).unwrap_err();
    assert_eq!(err.code(), 19);
    assert_eq!(err, ContractError::VaultExpired);
}

#[test]
fn test_deposit_rejects_zero_amount() {
    let (mut l, owner, beneficiary, _, _) = setup();
    let vault_id = l.create(owner, beneficiary, 100);
    assert_eq!(l.try_deposit(vault_id, owner, 0).unwrap_err().code(), 5);
}

#[test]
fn test_deposit_rejects_negative_amount() {
    let (mut l, owner, beneficiary, _, _) = setup();
    let vault_id = l.create(owner, beneficiary, 100);
    assert_eq!(l.try_deposit(vault_id, owner, -1).unwrap_err().code(), 5);
}

#[test]
fn test_update_metadata_can_be_overwritten() {
    let (mut l, owner, beneficiary, _, _) = setup();
    let vault_id = l.create(owner, beneficiary, 100);
    l.c.update_metadata(vault_id, owner, b"v1".to_vec(), l.now).unwrap();
    l.c.update_metadata(vault_id, owner, b"v2".to_vec(), l.now).unwrap();
    assert_eq!(l.c.get_vault(vault_id).unwrap().metadata, b"v2".to_vec());
}

#[test]
fn test_update_metadata_rejects_oversized_value() {
    let (mut l, owner, beneficiary, _, _) = setup();
    let vault_id = l.create(owner, beneficiary, 100);
    let oversized = vec![b'a'; 257];
    let err = l.c.update_metadata(vault_id, owner, oversized, l.now).unwrap_err();
    assert_eq!(err, ContractError::InvalidAmount);
}

#[test]
fn test_get_contract_token_returns_correct_address() {
    let (l, _, _, _, token) = setup();
    assert_eq!(l.c.get_contract_token().unwrap(), token);
}

#[test]
fn test_create_vault_zero_interval_fails() {
    let (mut l, owner, beneficiary, _, _) = setup();
    let err = l.c.create_vault(owner, beneficiary, 0, None, l.now).unwrap_err();
    assert_eq!(err.code(), 2);
}

#[test]
fn test_create_vault_long_interval_remains_accessible() {
    let (mut l, owner, beneficiary, _, _) = setup();
    let thirty_days: u64 = 30 * 24 * 3600;
    let vault_id = l.create(owner, beneficiary, thirty_days);
    l.now += thirty_days - 1;
    assert_eq!(l.c.get_vault(vault_id).unwrap().check_in_interval, thirty_days);
    assert_eq!(l.c.get_vaults_by_owner(owner, None, 0, 10), vec![vault_id]);
    assert_eq!(l.c.get_vaults_by_beneficiary(beneficiary, None, 0, 10), vec![vault_id]);
}

#[test]
fn test_create_vault_initial_metadata_respects_max_len() {
    let (mut l, owner, beneficiary, _, _) = setup();
    let vault_id = l.create(owner, beneficiary, 100);
    assert!(l.c.get_vault(vault_id).unwrap().metadata.len() <= 256);
}

#[test]
fn test_get_vaults_by_beneficiary_tracks_vaults() {
    let (mut l, owner, beneficiary, _, _) = setup();
    let other_beneficiary = l.gen();
    assert_eq!(l.c.get_vaults_by_beneficiary(beneficiary, None, 0, 10), Vec::<u64>::new());
    let vault_id_1 = l.create(owner, beneficiary, 100);
    let vault_id_2 = l.create(owner, beneficiary, 200);
    let vault_id_3 = l.create(owner, other_beneficiary, 300);
    assert_eq!(l.c.get_vaults_by_beneficiary(beneficiary, None, 0, 10), vec![vault_id_1, vault_id_2]);
    assert_eq!(l.c.get_vaults_by_beneficiary(other_beneficiary, None, 0, 10), vec![vault_id_3]);
}

#[test]
fn test_get_vaults_by_beneficiary_empty_for_unknown() {
    let (mut l, _, _, _, _) = setup();
    let stranger = l.gen();
    assert_eq!(l.c.get_vaults_by_beneficiary(stranger, None, 0, 10), Vec::<u64>::new());
}

#[test]
fn test_upgrade_fails_for_non_admin() {
    let (mut l, owner, beneficiary, _, _) = setup();
    let _vault_id = l.create(owner, beneficiary, 100);
    assert!(l.c.upgrade([0u8; 32]).is_err());
}

#[test]
fn test_set_and_get_max_check_in_interval() {
    let (mut l, _, _, _, _) = setup();
    assert_eq!(l.c.get_max_check_in_interval(), None);
    l.c.set_max_check_in_interval(86_400).unwrap();
    assert_eq!(l.c.get_max_check_in_interval(), Some(86_400));
}

#[test]
fn test_create_vault_fails_when_interval_exceeds_max() {
    let (mut l, owner, beneficiary, _, _) = setup();
    l.c.set_max_check_in_interval(1_000).unwrap();
    let err = l.c.create_vault(owner, beneficiary, 2_000, None, l.now).unwrap_err();
    assert_eq!(err.code(), ContractError::IntervalTooHigh.code());
}

#[test]
fn test_create_vault_succeeds_at_max_boundary() {
    let (mut l, owner, beneficiary, _, _) = setup();
    l.c.set_max_check_in_interval(1_000).unwrap();
    let vault_id = l.create(owner, beneficiary, 1_000);
    assert_eq!(l.c.get_vault(vault_id).unwrap().check_in_interval, 1_000);
}

#[test]
fn test_update_check_in_interval_fails_when_exceeds_max() {
    let (mut l, owner, beneficiary, _, _) = setup();
    let vault_id = l.create(owner, beneficiary, 100);
    l.c.set_max_check_in_interval(500).unwrap();
    assert!(l.c.update_check_in_interval(vault_id, 600, l.now).is_err());
}

#[test]
fn test_set_and_get_min_check_in_interval() {
    let (mut l, _, _, _, _) = setup();
    assert_eq!(l.c.get_min_check_in_interval(), None);
    l.c.set_min_check_in_interval(60).unwrap();
    assert_eq!(l.c.get_min_check_in_interval(), Some(60));
}

#[test]
fn test_create_vault_fails_when_interval_below_min() {
    let (mut l, owner, beneficiary, _, _) = setup();
    l.c.set_min_check_in_interval(3_600).unwrap();
    let err = l.c.create_vault(owner, beneficiary, 100, None, l.now).unwrap_err();
    assert_eq!(err.code(), ContractError::IntervalTooLow.code());
}

#[test]
fn test_create_vault_succeeds_at_min_boundary() {
    let (mut l, owner, beneficiary, _, _) = setup();
    l.c.set_min_check_in_interval(3_600).unwrap();
    let vault_id = l.create(owner, beneficiary, 3_600);
    assert_eq!(l.c.get_vault(vault_id).unwrap().check_in_interval, 3_600);
}

#[test]
fn test_update_check_in_interval_fails_when_below_min() {
    let (mut l, owner, beneficiary, _, _) = setup();
    l.c.set_min_check_in_interval(3_600).unwrap();
    let vault_id = l.create(owner, beneficiary, 3_600);
    assert!(l.c.update_check_in_interval(vault_id, 100, l.now).is_err());
}

#[test]
fn test_min_and_max_both_enforced() {
    let (mut l, owner, beneficiary, _, _) = setup();
    l.c.set_min_check_in_interval(60).unwrap();
    l.c.set_max_check_in_interval(3_600).unwrap();
    assert!(l.c.create_vault(owner, beneficiary, 30, None, l.now).is_err());
    assert!(l.c.create_vault(owner, beneficiary, 7_200, None, l.now).is_err());
    let vault_id = l.create(owner, beneficiary, 1_800);
    assert_eq!(l.c.get_vault(vault_id).unwrap().check_in_interval, 1_800);
}

#[test]
fn test_withdraw_rejects_zero_amount() {
    let (mut l, owner, beneficiary, _, _) = setup();
    let vault_id = l.create(owner, beneficiary, 100);
    l.deposit(vault_id, owner, 500);
    assert!(l.withdraw(vault_id, owner, 0).is_err(), "expected error for zero-amount withdrawal");
}

#[test]
fn test_withdraw_rejects_negative_amount() {
    let (mut l, owner, beneficiary, _, _) = setup();
    let vault_id = l.create(owner, beneficiary, 100);
    l.deposit(vault_id, owner, 500);
    assert!(l.withdraw(vault_id, owner, -1).is_err(), "expected error for negative-amount withdrawal");
}

use ttl_legacy::contract::types::BeneficiaryEntry;

#[test]
fn test_trigger_release_emits_event_with_zero_balance() {
    let (mut l, owner, beneficiary, _, _) = setup();
    let vault_id = l.create(owner, beneficiary, 100);
    l.now += 200;
    assert_eq!(l.trigger_release(vault_id).unwrap_err().code(), 4);
}

#[test]
fn test_trigger_release_returns_not_expired_error_before_ttl_lapses() {
    let (mut l, owner, beneficiary, _, _) = setup();
    let vault_id = l.create(owner, beneficiary, 100);
    assert_eq!(l.trigger_release(vault_id).unwrap_err().code(), 16);
}

#[test]
fn test_set_beneficiaries_rejects_invalid_bps() {
    let (mut l, owner, beneficiary, _, _) = setup();
    let b2 = l.gen();
    let vault_id = l.create(owner, beneficiary, 1000);
    let err = l.c.set_beneficiaries(vault_id, owner, vec![
        BeneficiaryEntry { address: beneficiary, bps: 4_000 },
        BeneficiaryEntry { address: b2, bps: 4_000 },
    ]).unwrap_err();
    assert_eq!(err, ContractError::InvalidBps);
}

#[test]
fn test_set_beneficiaries_rejects_owner_as_beneficiary() {
    let (mut l, owner, beneficiary, _, _) = setup();
    let vault_id = l.create(owner, beneficiary, 1000);
    let err = l.c.set_beneficiaries(vault_id, owner, vec![
        BeneficiaryEntry { address: owner, bps: 5_000 },
        BeneficiaryEntry { address: beneficiary, bps: 5_000 },
    ]).unwrap_err();
    assert_eq!(err.code(), 17);
}

#[test]
fn test_set_beneficiaries_rejects_empty_list() {
    let (mut l, owner, beneficiary, _, _) = setup();
    let vault_id = l.create(owner, beneficiary, 1000);
    assert_eq!(l.c.set_beneficiaries(vault_id, owner, vec![]).unwrap_err(), ContractError::InvalidBps);
}

#[test]
fn test_deposit_rejects_balance_overflow() {
    let (mut l, owner, beneficiary, _, token) = setup();
    let extra = i128::MAX - 1_000_000;
    l.credit(token, owner, extra);
    let vault_id = l.create(owner, beneficiary, 100);
    let near_max = i128::MAX - 1;
    l.deposit(vault_id, owner, near_max);
    l.credit(token, owner, 2);
    assert!(l.try_deposit(vault_id, owner, 2).is_err(), "expected overflow error on deposit exceeding i128::MAX");
}

#[test]
fn test_partial_release_with_multi_beneficiary_applies_bps_split() {
    let (mut l, owner, beneficiary, _, token) = setup();
    let beneficiary2 = l.gen();
    l.credit(token, owner, 1_000_000);
    let vault_id = l.create(owner, beneficiary, 1000);
    l.deposit(vault_id, owner, 10_000);
    l.c.set_beneficiaries(vault_id, owner, vec![
        BeneficiaryEntry { address: beneficiary, bps: 6_000 },
        BeneficiaryEntry { address: beneficiary2, bps: 4_000 },
    ]).unwrap();
    l.partial_release(vault_id, 1_000).unwrap();
    assert_eq!(l.balance(token, beneficiary), 600);
    assert_eq!(l.balance(token, beneficiary2), 400);
    assert_eq!(l.c.get_vault(vault_id).unwrap().balance, 9_000);
    assert_eq!(l.status(vault_id), ReleaseStatus::Locked);
}

#[test]
fn test_partial_release_with_multi_beneficiary_last_entry_absorbs_dust() {
    let (mut l, owner, beneficiary, _, token) = setup();
    let beneficiary2 = l.gen();
    l.credit(token, owner, 1_000_000);
    let vault_id = l.create(owner, beneficiary, 1000);
    l.deposit(vault_id, owner, 10_000);
    l.c.set_beneficiaries(vault_id, owner, vec![
        BeneficiaryEntry { address: beneficiary, bps: 3_300 },
        BeneficiaryEntry { address: beneficiary2, bps: 6_700 },
    ]).unwrap();
    l.partial_release(vault_id, 100).unwrap();
    assert_eq!(l.balance(token, beneficiary), 33);
    assert_eq!(l.balance(token, beneficiary2), 67);
    assert_eq!(l.c.get_vault(vault_id).unwrap().balance, 9_900);
}

#[test]
fn test_partial_release_without_multi_beneficiary_sends_to_primary() {
    let (mut l, owner, beneficiary, _, token) = setup();
    let vault_id = l.create(owner, beneficiary, 1000);
    l.deposit(vault_id, owner, 1_000);
    l.partial_release(vault_id, 400).unwrap();
    assert_eq!(l.balance(token, beneficiary), 400);
    assert_eq!(l.c.get_vault(vault_id).unwrap().balance, 600);
    assert_eq!(l.status(vault_id), ReleaseStatus::Locked);
}

#[test]
fn test_partial_release_rejected_on_expired_vault() {
    let (mut l, owner, beneficiary, _, _) = setup();
    let vault_id = l.create(owner, beneficiary, 100);
    l.deposit(vault_id, owner, 1_000);
    l.now += 200;
    assert!(l.partial_release(vault_id, 100).is_err());
}

#[test]
fn test_update_beneficiary_updates_index() {
    let (mut l, owner, old_beneficiary, _, _) = setup();
    let new_beneficiary = l.gen();
    let vault_id = l.create(owner, old_beneficiary, 100);
    assert_eq!(l.c.get_vaults_by_beneficiary(old_beneficiary, None, 0, 10), vec![vault_id]);
    assert_eq!(l.c.get_vaults_by_beneficiary(new_beneficiary, None, 0, 10), Vec::<u64>::new());
    l.c.update_beneficiary(vault_id, owner, new_beneficiary, l.now).unwrap();
    assert_eq!(l.c.get_vaults_by_beneficiary(old_beneficiary, None, 0, 10), Vec::<u64>::new());
    assert_eq!(l.c.get_vaults_by_beneficiary(new_beneficiary, None, 0, 10), vec![vault_id]);
}

#[test]
fn test_get_active_vaults_by_beneficiary_excludes_released() {
    let (mut l, owner, beneficiary, _, _) = setup();
    let vault_id = l.create(owner, beneficiary, 100);
    l.deposit(vault_id, owner, 1_000);
    assert_eq!(l.c.get_active_vaults_by_beneficiary(beneficiary, 0, 10), vec![vault_id]);
    assert_eq!(l.c.get_vaults_by_beneficiary(beneficiary, None, 0, 10), vec![vault_id]);
    l.now += 101;
    l.trigger_release(vault_id).unwrap();
    assert_eq!(l.c.get_active_vaults_by_beneficiary(beneficiary, 0, 10), Vec::<u64>::new());
    assert_eq!(l.c.get_vaults_by_beneficiary(beneficiary, None, 0, 10), vec![vault_id]);
}

#[test]
fn test_cancel_vault_removes_from_owner_and_beneficiary_indexes() {
    let (mut l, owner, beneficiary, _, _) = setup();
    let vault_id = l.create(owner, beneficiary, 100);
    assert_eq!(l.c.get_vaults_by_owner(owner, None, 0, 10), vec![vault_id]);
    assert_eq!(l.c.get_vaults_by_beneficiary(beneficiary, None, 0, 10), vec![vault_id]);
    l.c.cancel_vault(vault_id, owner, l.now).unwrap();
    assert_eq!(l.c.get_vaults_by_owner(owner, None, 0, 10), Vec::<u64>::new());
    assert_eq!(l.c.get_vaults_by_beneficiary(beneficiary, None, 0, 10), Vec::<u64>::new());
}

#[test]
fn test_get_vaults_by_owner_pagination() {
    let (mut l, owner, beneficiary, _, _) = setup();
    let ids: Vec<u64> = (0..5).map(|_| l.create(owner, beneficiary, 100)).collect();
    assert_eq!(l.c.get_vaults_by_owner(owner, None, 0, 2), vec![ids[0], ids[1]]);
    assert_eq!(l.c.get_vaults_by_owner(owner, None, 1, 2), vec![ids[2], ids[3]]);
    assert_eq!(l.c.get_vaults_by_owner(owner, None, 2, 2), vec![ids[4]]);
    assert_eq!(l.c.get_vaults_by_owner(owner, None, 10, 2), Vec::<u64>::new());
    assert_eq!(l.c.get_vaults_by_owner(owner, None, 0, 0), Vec::<u64>::new());
}

#[test]
fn test_get_vaults_by_beneficiary_pagination() {
    let (mut l, owner, beneficiary, _, _) = setup();
    let ids: Vec<u64> = (0..5).map(|_| l.create(owner, beneficiary, 100)).collect();
    assert_eq!(l.c.get_vaults_by_beneficiary(beneficiary, None, 0, 2), vec![ids[0], ids[1]]);
    assert_eq!(l.c.get_vaults_by_beneficiary(beneficiary, None, 1, 2), vec![ids[2], ids[3]]);
    assert_eq!(l.c.get_vaults_by_beneficiary(beneficiary, None, 2, 2), vec![ids[4]]);
    assert_eq!(l.c.get_vaults_by_beneficiary(beneficiary, None, 10, 2), Vec::<u64>::new());
    assert_eq!(l.c.get_vaults_by_beneficiary(beneficiary, None, 0, 0), Vec::<u64>::new());
}

#[test]
fn test_withdraw_rejected_on_cancelled_vault() {
    let (mut l, owner, beneficiary, _, _) = setup();
    let vault_id = l.create(owner, beneficiary, 100);
    l.c.cancel_vault(vault_id, owner, l.now).unwrap();
    assert_eq!(l.withdraw(vault_id, owner, 1).unwrap_err(), ContractError::AlreadyReleased);
}

#[test]
fn test_withdraw_rejected_on_released_vault() {
    let (mut l, owner, beneficiary, _, _) = setup();
    let vault_id = l.create(owner, beneficiary, 100);
    l.deposit(vault_id, owner, 500);
    l.now += 200;
    l.trigger_release(vault_id).unwrap();
    assert_eq!(l.withdraw(vault_id, owner, 1).unwrap_err(), ContractError::AlreadyReleased);
}

#[test]
fn test_get_vaults_by_beneficiary_with_status_filter() {
    let (mut l, owner, beneficiary, _, _) = setup();
    let vault_id_1 = l.create(owner, beneficiary, 100);
    l.deposit(vault_id_1, owner, 1_000);
    let vault_id_2 = l.create(owner, beneficiary, 100);
    l.deposit(vault_id_2, owner, 1_000);
    l.now += 101;
    l.trigger_release(vault_id_1).unwrap();
    assert_eq!(l.c.get_vaults_by_beneficiary(beneficiary, Some(ReleaseStatus::Locked), 0, 10), vec![vault_id_2]);
    assert_eq!(l.c.get_vaults_by_beneficiary(beneficiary, Some(ReleaseStatus::Released), 0, 10), vec![vault_id_1]);
    assert_eq!(l.c.get_vaults_by_beneficiary(beneficiary, None, 0, 10), vec![vault_id_1, vault_id_2]);
}

#[test]
fn test_get_vaults_by_owner_with_status_filter() {
    let (mut l, owner, beneficiary, _, _) = setup();
    let vault_id_1 = l.create(owner, beneficiary, 100);
    l.deposit(vault_id_1, owner, 1_000);
    let vault_id_2 = l.create(owner, beneficiary, 100);
    l.deposit(vault_id_2, owner, 1_000);
    l.now += 101;
    l.trigger_release(vault_id_1).unwrap();
    assert_eq!(l.c.get_vaults_by_owner(owner, Some(ReleaseStatus::Locked), 0, 10), vec![vault_id_2]);
    assert_eq!(l.c.get_vaults_by_owner(owner, Some(ReleaseStatus::Released), 0, 10), vec![vault_id_1]);
    assert_eq!(l.c.get_vaults_by_owner(owner, None, 0, 10), vec![vault_id_1, vault_id_2]);
}

#[test]
fn test_get_vaults_by_owner_with_cancelled_status_filter() {
    let (mut l, owner, beneficiary, _, _) = setup();
    let vault_id = l.create(owner, beneficiary, 100);
    l.c.cancel_vault(vault_id, owner, l.now).unwrap();
    assert_eq!(l.c.get_vaults_by_owner(owner, Some(ReleaseStatus::Cancelled), 0, 10), Vec::<u64>::new());
    assert_eq!(l.c.get_vaults_by_owner(owner, None, 0, 10), Vec::<u64>::new());
}

#[test]
fn test_get_release_status_returns_locked_released_cancelled() {
    let (mut l, owner, beneficiary, _, token) = setup();
    let vault_id = l.create(owner, beneficiary, 100);
    assert_eq!(l.status(vault_id), ReleaseStatus::Locked);
    l.deposit(vault_id, owner, 1_000);
    l.now += 200;
    l.trigger_release(vault_id).unwrap();
    assert_eq!(l.status(vault_id), ReleaseStatus::Released);
    let owner2 = l.gen();
    let beneficiary2 = l.gen();
    l.credit(token, owner2, 500_000);
    let vault_id2 = l.create(owner2, beneficiary2, 100);
    l.deposit(vault_id2, owner2, 500);
    let t = l.c.cancel_vault(vault_id2, owner2, l.now).unwrap();
    l.apply(&t);
    assert_eq!(l.status(vault_id2), ReleaseStatus::Cancelled);
    assert_eq!(l.balance(token, owner2), 500_000);
}

#[test]
fn test_batch_withdraw_decrements_multiple_vaults() {
    let (mut l, owner, beneficiary, _, token) = setup();
    let vault_id_1 = l.create(owner, beneficiary, 100);
    let vault_id_2 = l.create(owner, beneficiary, 100);
    l.deposit(vault_id_1, owner, 500);
    l.deposit(vault_id_2, owner, 300);
    let t = l.c.batch_withdraw(&vec![vault_id_1, vault_id_2], &vec![200, 100], owner).unwrap();
    l.apply(&t);
    assert_eq!(l.c.get_vault(vault_id_1).unwrap().balance, 300);
    assert_eq!(l.c.get_vault(vault_id_2).unwrap().balance, 200);
    assert_eq!(l.balance(token, owner), 999_500);
}

#[test]
fn test_batch_withdraw_validates_mismatched_lengths() {
    let (mut l, owner, beneficiary, _, _) = setup();
    let vault_id = l.create(owner, beneficiary, 100);
    let err = l.c.batch_withdraw(&vec![vault_id], &vec![100, 200], owner).unwrap_err();
    assert_eq!(err, ContractError::InvalidAmount);
}

#[test]
fn test_batch_withdraw_rolls_back_on_insufficient_balance() {
    let (mut l, owner, beneficiary, _, _) = setup();
    let vault_id_1 = l.create(owner, beneficiary, 100);
    let vault_id_2 = l.create(owner, beneficiary, 100);
    l.deposit(vault_id_1, owner, 100);
    assert!(l.c.batch_withdraw(&vec![vault_id_1, vault_id_2], &vec![50, 1], owner).is_err());
    assert_eq!(l.c.get_vault(vault_id_1).unwrap().balance, 100);
    assert_eq!(l.c.get_vault(vault_id_2).unwrap().balance, 0);
}

#[test]
fn batch_withdraw_counts_earlier_items_against_the_balance() {
    let (mut l, owner, beneficiary, _, _) = setup();
    let id = l.create(owner, beneficiary, 100);
    l.deposit(id, owner, 100);
    let err = l.c.batch_withdraw(&vec![id, id], &vec![60, 60], owner).unwrap_err();
    assert_eq!(err, ContractError::InsufficientBalance);
    assert_eq!(l.c.get_vault(id).unwrap().balance, 100);
    let t = l.c.batch_withdraw(&vec![id, id], &vec![60, 40], owner).unwrap();
    assert_eq!(t.len(), 2);
    assert_eq!(l.c.get_vault(id).unwrap().balance, 0);
}

#[test]
fn test_batch_check_in_resets_last_check_in_for_multiple_vaults() {
    let (mut l, owner, beneficiary, _, _) = setup();
    let vault_id_1 = l.create(owner, beneficiary, 100);
    let vault_id_2 = l.create(owner, beneficiary, 200);
    l.now += 50;
    let now = l.now;
    l.c.batch_check_in(&vec![vault_id_1, vault_id_2], owner, l.now).unwrap();
    assert_eq!(l.c.get_vault(vault_id_1).unwrap().last_check_in, now);
    assert_eq!(l.c.get_vault(vault_id_2).unwrap().last_check_in, now);
}

#[test]
fn test_batch_check_in_extends_vault_expiry() {
    let (mut l, owner, beneficiary, _, _) = setup();
    let vault_id_1 = l.create(owner, beneficiary, 100);
    let vault_id_2 = l.create(owner, beneficiary, 100);
    l.now += 90;
    l.c.batch_check_in(&vec![vault_id_1, vault_id_2], owner, l.now).unwrap();
    l.now += 50;
    assert!(!l.c.is_expired(vault_id_1, l.now).unwrap());
    assert!(!l.c.is_expired(vault_id_2, l.now).unwrap());
}

#[test]
fn test_batch_check_in_fails_for_non_owner() {
    let (mut l, owner, beneficiary, _, _) = setup();
    let other = l.gen();
    let vault_id = l.create(owner, beneficiary, 100);
    assert!(l.c.batch_check_in(&vec![vault_id], other, l.now).is_err());
}

#[test]
fn test_trigger_release_multi_beneficiary_bps_split_distributes_correctly() {
    let (mut l, owner, beneficiary, _, token) = setup();
    let ben_a = beneficiary;
    let ben_b = l.gen();
    let ben_c = l.gen();
    let vault_id = l.create(owner, ben_a, 100);
    let entries = vec![
        BeneficiaryEntry { address: ben_a, bps: 5_000 },
        BeneficiaryEntry { address: ben_b, bps: 3_000 },
        BeneficiaryEntry { address: ben_c, bps: 2_000 },
    ];
    l.c.set_beneficiaries(vault_id, owner, entries).unwrap();
    let total: i128 = 10_000;
    l.deposit(vault_id, owner, total);
    l.now += 200;
    l.trigger_release(vault_id).unwrap();
    assert_eq!(l.status(vault_id), ReleaseStatus::Released);
    assert_eq!(l.c.get_vault(vault_id).unwrap().balance, 0);
    assert_eq!(l.balance(token, ben_a), 5_000);
    assert_eq!(l.balance(token, ben_b), 3_000);
    assert_eq!(l.balance(token, ben_c), 2_000);
    let total_distributed = l.balance(token, ben_a) + l.balance(token, ben_b) + l.balance(token, ben_c);
    assert_eq!(total_distributed, total);
}

/// Creates a vault, deposits, attaches a vesting schedule starting at the
/// expiry, then expires and releases it.
fn setup_vesting(l: &mut Ledger, owner: Address, beneficiary: Address, amount: i128, num_installments: u32, interval: u64) -> u64 {
    let vault_id = l.create(owner, beneficiary, 100);
    l.deposit(vault_id, owner, amount);
    let start_time = l.now + 200;
    l.c.set_vesting_schedule(vault_id, owner, start_time, interval, num_installments).unwrap();
    l.now += 200;
    l.trigger_release(vault_id).unwrap();
    vault_id
}

impl Ledger {
    fn claim(&mut self, id: u64) -> Result<i128, ContractError> {
        let (amount, t) = self.c.claim_vested_installment(id, self.now)?;
        self.apply(&t);
        Ok(amount)
    }
}

#[test]
fn test_set_vesting_schedule_stores_schedule() {
    let (mut l, owner, beneficiary, _, _) = setup();
    let vault_id = l.create(owner, beneficiary, 100);
    l.deposit(vault_id, owner, 1_000);
    let start = l.now + 50;
    l.c.set_vesting_schedule(vault_id, owner, start, 100, 4).unwrap();
    let sched = l.c.get_vesting_schedule(vault_id).unwrap();
    assert_eq!(sched.start_time, start);
    assert_eq!(sched.interval, 100);
    assert_eq!(sched.num_installments, 4);
    assert_eq!(sched.claimed_installments, 0);
    assert_eq!(sched.total_amount, 1_000);
}

#[test]
fn test_set_vesting_schedule_requires_owner() {
    let (mut l, owner, beneficiary, _, _) = setup();
    let vault_id = l.create(owner, beneficiary, 100);
    l.deposit(vault_id, owner, 1_000);
    let stranger = l.gen();
    let start = l.now + 50;
    let err = l.c.set_vesting_schedule(vault_id, stranger, start, 100, 4).unwrap_err();
    assert_eq!(err, ContractError::NotOwner);
}

#[test]
fn test_set_vesting_schedule_rejects_zero_interval() {
    let (mut l, owner, beneficiary, _, _) = setup();
    let vault_id = l.create(owner, beneficiary, 100);
    l.deposit(vault_id, owner, 1_000);
    let err = l.c.set_vesting_schedule(vault_id, owner, 0, 0, 4).unwrap_err();
    assert_eq!(err, ContractError::InvalidInterval);
}

#[test]
fn test_set_vesting_schedule_rejects_zero_installments() {
    let (mut l, owner, beneficiary, _, _) = setup();
    let vault_id = l.create(owner, beneficiary, 100);
    l.deposit(vault_id, owner, 1_000);
    let err = l.c.set_vesting_schedule(vault_id, owner, 0, 100, 0).unwrap_err();
    assert_eq!(err, ContractError::InvalidInterval);
}

#[test]
fn test_set_vesting_schedule_rejects_empty_vault() {
    let (mut l, owner, beneficiary, _, _) = setup();
    let vault_id = l.create(owner, beneficiary, 100);
    let err = l.c.set_vesting_schedule(vault_id, owner, 0, 100, 4).unwrap_err();
    assert_eq!(err, ContractError::EmptyVault);
}

#[test]
fn test_trigger_release_with_vesting_keeps_balance() {
    let (mut l, owner, beneficiary, _, _) = setup();
    let vault_id = setup_vesting(&mut l, owner, beneficiary, 1_000, 4, 100);
    assert_eq!(l.status(vault_id), ReleaseStatus::Released);
    assert_eq!(l.c.get_vault(vault_id).unwrap().balance, 1_000);
}

#[test]
fn test_claim_first_installment() {
    let (mut l, owner, beneficiary, _, token) = setup();
    let vault_id = setup_vesting(&mut l, owner, beneficiary, 1_000, 4, 100);
    let claimed = l.claim(vault_id).unwrap();
    assert_eq!(claimed, 250);
    assert_eq!(l.balance(token, beneficiary), 250);
    assert_eq!(l.c.get_vault(vault_id).unwrap().balance, 750);
    assert_eq!(l.c.get_vesting_schedule(vault_id).unwrap().claimed_installments, 1);
}

#[test]
fn test_claim_multiple_installments_at_once() {
    let (mut l, owner, beneficiary, _, token) = setup();
    let vault_id = setup_vesting(&mut l, owner, beneficiary, 1_000, 4, 50);
    l.now += 100;
    let claimed = l.claim(vault_id).unwrap();
    assert_eq!(claimed, 750);
    assert_eq!(l.balance(token, beneficiary), 750);
    assert_eq!(l.c.get_vesting_schedule(vault_id).unwrap().claimed_installments, 3);
}

#[test]
fn test_claim_all_installments_drains_vault() {
    let (mut l, owner, beneficiary, _, token) = setup();
    let vault_id = setup_vesting(&mut l, owner, beneficiary, 1_000, 4, 50);
    l.now += 300;
    let claimed = l.claim(vault_id).unwrap();
    assert_eq!(claimed, 1_000);
    assert_eq!(l.balance(token, beneficiary), 1_000);
    assert_eq!(l.c.get_vault(vault_id).unwrap().balance, 0);
    assert_eq!(l.c.get_vesting_schedule(vault_id).unwrap().claimed_installments, 4);
}

#[test]
fn test_claim_nothing_to_claim_before_start_time() {
    let (mut l, owner, beneficiary, _, _) = setup();
    let vault_id = l.create(owner, beneficiary, 100);
    l.deposit(vault_id, owner, 1_000);
    let start = l.now + 10_000;
    l.c.set_vesting_schedule(vault_id, owner, start, 100, 4).unwrap();
    l.now += 200;
    l.trigger_release(vault_id).unwrap();
    assert_eq!(l.claim(vault_id).unwrap_err(), ContractError::NothingToClaimYet);
}

#[test]
fn test_claim_already_complete_error() {
    let (mut l, owner, beneficiary, _, _) = setup();
    let vault_id = setup_vesting(&mut l, owner, beneficiary, 1_000, 4, 50);
    l.now += 300;
    l.claim(vault_id).unwrap();
    assert_eq!(l.claim(vault_id).unwrap_err(), ContractError::VestingAlreadyComplete);
}

#[test]
fn test_claim_no_schedule_returns_vesting_not_found() {
    let (mut l, owner, beneficiary, _, token) = setup();
    let vault_id = l.create(owner, beneficiary, 100);
    l.deposit(vault_id, owner, 1_000);
    l.now += 200;
    l.trigger_release(vault_id).unwrap();
    assert_eq!(l.c.get_vault(vault_id).unwrap().balance, 0);
    assert_eq!(l.balance(token, beneficiary), 1_000);
    assert_eq!(l.claim(vault_id).unwrap_err(), ContractError::VestingNotFound);
}

#[test]
fn test_vesting_with_multi_beneficiary_split() {
    let (mut l, owner, ben_a, _, token) = setup();
    let ben_b = l.gen();
    let vault_id = l.create(owner, ben_a, 100);
    l.deposit(vault_id, owner, 1_000);
    let entries = vec![
        BeneficiaryEntry { address: ben_a, bps: 5_000 },
        BeneficiaryEntry { address: ben_b, bps: 5_000 },
    ];
    l.c.set_beneficiaries(vault_id, owner, entries).unwrap();
    let start = l.now + 200;
    l.c.set_vesting_schedule(vault_id, owner, start, 100, 2).unwrap();
    l.now += 200;
    l.trigger_release(vault_id).unwrap();
    let claimed = l.claim(vault_id).unwrap();
    assert_eq!(claimed, 500);
    assert_eq!(l.balance(token, ben_a), 250);
    assert_eq!(l.balance(token, ben_b), 250);
}

#[test]
fn test_get_vault_last_check_in_returns_correct_timestamp() {
    let (mut l, owner, beneficiary, _, _) = setup();
    let vault_id = l.create(owner, beneficiary, 100);
    l.now += 50;
    l.check_in(vault_id, owner).unwrap();
    assert_eq!(l.c.get_vault_last_check_in(vault_id).unwrap(), l.now);
}

#[test]
fn test_is_expired_at_exact_deadline() {
    let (mut l, owner, beneficiary, _, _) = setup();
    let interval = 100u64;
    let vault_id = l.create(owner, beneficiary, interval);
    l.now += interval - 1;
    assert!(!l.c.is_expired(vault_id, l.now).unwrap());
    l.now += 1;
    assert!(l.c.is_expired(vault_id, l.now).unwrap());
}

#[test]
fn test_security_reentrancy_protection() {
    let (mut l, owner, beneficiary, _, token) = setup();
    let vault_id = l.c.create_vault(owner, beneficiary, 3600, Some(token), l.now).unwrap();
    l.credit(token, owner, 1_000_000);
    l.deposit(vault_id, owner, 100_000);
    assert_eq!(l.c.get_vault(vault_id).unwrap().balance, 100_000);
    assert!(l.withdraw(vault_id, owner, 50_000).is_ok());
    assert_eq!(l.c.get_vault(vault_id).unwrap().balance, 50_000);
}

#[test]
fn deposit_that_would_overflow_the_balance_is_refused() {
    let (mut l, owner, beneficiary, _, _) = setup();
    let vault_id = l.create(owner, beneficiary, 3600);
    l.c.deposit(vault_id, owner, i128::MAX / 2 + 1, l.now).unwrap();
    let err = l.c.deposit(vault_id, owner, i128::MAX / 2 + 1, l.now).unwrap_err();
    assert_eq!(err, ContractError::BalanceOverflow);
    assert_eq!(l.c.get_vault(vault_id).unwrap().balance, i128::MAX / 2 + 1);
}

#[test]
fn test_security_authorization_owner_only() {
    let (mut l, owner, beneficiary, _, token) = setup();
    let vault_id = l.c.create_vault(owner, beneficiary, 3600, Some(token), l.now).unwrap();
    let attacker = l.gen();
    assert!(l.check_in(vault_id, attacker).is_err());
    assert!(l.withdraw(vault_id, attacker, 100).is_err());
    assert!(l.c.update_beneficiary(vault_id, attacker, attacker, l.now).is_err());
}

#[test]
fn test_security_authorization_admin_only() {
    let (mut l, _, _, _, _) = setup();
    l.c.pause().unwrap();
    assert!(l.c.is_paused());
    l.c.unpause().unwrap();
}

#[test]
fn test_security_empty_vault_rejection() {
    let (mut l, owner, beneficiary, _, token) = setup();
    let vault_id = l.c.create_vault(owner, beneficiary, 3600, Some(token), l.now).unwrap();
    l.now += 3600;
    assert!(l.trigger_release(vault_id).is_err());
}

#[test]
fn test_security_bps_validation() {
    let (mut l, owner, beneficiary, _, token) = setup();
    let vault_id = l.c.create_vault(owner, beneficiary, 3600, Some(token), l.now).unwrap();
    let ben1 = l.gen();
    let ben2 = l.gen();
    let beneficiaries = vec![
        BeneficiaryEntry { address: ben1, bps: 5000 },
        BeneficiaryEntry { address: ben2, bps: 4999 },
    ];
    assert!(l.c.set_beneficiaries(vault_id, owner, beneficiaries).is_err());
}

#[test]
fn test_security_duplicate_beneficiary_prevention() {
    let (mut l, owner, beneficiary, _, token) = setup();
    let vault_id = l.c.create_vault(owner, beneficiary, 3600, Some(token), l.now).unwrap();
    let ben1 = l.gen();
    assert!(l.c.add_beneficiary(vault_id, owner, ben1, 5000).is_ok());
    assert!(l.c.add_beneficiary(vault_id, owner, ben1, 5000).is_err());
}

#[test]
fn test_security_owner_cannot_be_beneficiary() {
    let (mut l, owner, _, _, _) = setup();
    assert!(l.c.create_vault(owner, owner, 3600, None, l.now).is_err());
}

#[test]
fn test_security_released_vault_immutable() {
    let (mut l, owner, beneficiary, _, token) = setup();
    let vault_id = l.c.create_vault(owner, beneficiary, 3600, Some(token), l.now).unwrap();
    l.credit(token, owner, 1_000_000);
    l.deposit(vault_id, owner, 100_000);
    l.now += 3600;
    l.trigger_release(vault_id).unwrap();
    assert!(l.withdraw(vault_id, owner, 50_000).is_err());
    assert!(l.check_in(vault_id, owner).is_err());
}

#[test]
fn test_security_paused_contract_blocks_operations() {
    let (mut l, owner, beneficiary, _, token) = setup();
    let vault_id = l.c.create_vault(owner, beneficiary, 3600, Some(token), l.now).unwrap();
    l.c.pause().unwrap();
    assert!(l.check_in(vault_id, owner).is_err());
    assert!(l.try_deposit(vault_id, owner, 100).is_err());
    l.c.unpause().unwrap();
    assert!(l.check_in(vault_id, owner).is_ok());
}

#[test]
fn test_security_token_whitelist_enforcement() {
    let (mut l, owner, beneficiary, _, _) = setup();
    let unauthorized_token = l.gen();
    assert!(l.c.create_vault(owner, beneficiary, 3600, Some(unauthorized_token), l.now).is_err());
    l.c.whitelist_token(unauthorized_token).unwrap();
    let vault_id = l.c.create_vault(owner, beneficiary, 3600, Some(unauthorized_token), l.now).unwrap();
    assert!(vault_id > 0);
}

#[test]
fn test_security_vesting_prevents_double_claim() {
    let (mut l, owner, beneficiary, _, token) = setup();
    let vault_id = l.c.create_vault(owner, beneficiary, 100, Some(token), l.now).unwrap();
    l.credit(token, owner, 1_000_000);
    l.deposit(vault_id, owner, 100_000);
    let start_time = l.now + 200;
    assert!(l.c.set_vesting_schedule(vault_id, owner, start_time, 100, 2).is_ok());
    l.now += 100;
    l.trigger_release(vault_id).unwrap();
    l.now += 200;
    assert!(l.claim(vault_id).is_ok());
    assert!(l.claim(vault_id).is_err());
}

#[test]
fn test_security_vault_count_consistency() {
    let (mut l, owner, beneficiary, _, token) = setup();
    let initial_count = l.c.vault_count();
    let vault_id = l.c.create_vault(owner, beneficiary, 3600, Some(token), l.now).unwrap();
    assert_eq!(l.c.vault_count(), initial_count + 1);
    assert_eq!(vault_id, initial_count + 1);
    assert!(l.c.create_vault(owner, owner, 3600, None, l.now).is_err());
    assert_eq!(l.c.vault_count(), initial_count + 1);
}

#[test]
fn test_security_metadata_length_validation() {
    let (mut l, owner, beneficiary, _, token) = setup();
    let vault_id = l.c.create_vault(owner, beneficiary, 3600, Some(token), l.now).unwrap();
    let long_metadata = "x".repeat(300).into_bytes();
    assert!(l.c.update_metadata(vault_id, owner, long_metadata, l.now).is_err());
}

#[test]
fn test_security_interval_bounds_validation() {
    let (mut l, owner, beneficiary, _, _) = setup();
    l.c.set_min_check_in_interval(1000).unwrap();
    l.c.set_max_check_in_interval(10000).unwrap();
    assert!(l.c.create_vault(owner, beneficiary, 500, None, l.now).is_err());
    assert!(l.c.create_vault(owner, beneficiary, 20000, None, l.now).is_err());
    let vault_id = l.create(owner, beneficiary, 5000);
    assert!(vault_id > 0);
}

#[test]
fn test_passkey_usage_logging() {
    let (mut l, owner, beneficiary, _, _) = setup();
    let vault_id = l.create(owner, beneficiary, 100);
    let passkey_hash = [1u8; 32];
    l.c.check_in(vault_id, owner, passkey_hash, l.now).unwrap();
    let usage = l.c.get_passkey_usage(vault_id);
    assert_eq!(usage.len(), 1);
    assert_eq!(usage[0].passkey_hash, passkey_hash);
}

#[test]
fn test_passkey_usage_multiple_entries() {
    let (mut l, owner, beneficiary, _, _) = setup();
    let vault_id = l.create(owner, beneficiary, 100);
    let passkey_hash_1 = [1u8; 32];
    let passkey_hash_2 = [2u8; 32];
    l.c.check_in(vault_id, owner, passkey_hash_1, l.now).unwrap();
    l.now += 50;
    l.c.check_in(vault_id, owner, passkey_hash_2, l.now).unwrap();
    let usage = l.c.get_passkey_usage(vault_id);
    assert_eq!(usage.len(), 2);
    assert_eq!(usage[0].passkey_hash, passkey_hash_1);
    assert_eq!(usage[1].passkey_hash, passkey_hash_2);
}

#[test]
fn test_passkey_expiry_enforcement() {
    let (mut l, owner, beneficiary, _, _) = setup();
    let vault_id = l.create(owner, beneficiary, 100);
    let passkey_hash = [1u8; 32];
    let expiry = l.now + 50;
    l.c.extend_passkey_expiry(vault_id, owner, passkey_hash, expiry).unwrap();
    l.c.check_in(vault_id, owner, passkey_hash, l.now).unwrap();
    l.now += 100;
    assert!(l.c.check_in(vault_id, owner, passkey_hash, l.now).is_err());
}

#[test]
fn test_extend_passkey_expiry() {
    let (mut l, owner, beneficiary, _, _) = setup();
    let vault_id = l.create(owner, beneficiary, 100);
    let passkey_hash = [1u8; 32];
    let initial_expiry = l.now + 50;
    l.c.extend_passkey_expiry(vault_id, owner, passkey_hash, initial_expiry).unwrap();
    assert_eq!(l.c.get_passkey_expiry(vault_id, passkey_hash), Some(initial_expiry));
    let new_expiry = l.now + 200;
    l.c.extend_passkey_expiry(vault_id, owner, passkey_hash, new_expiry).unwrap();
    assert_eq!(l.c.get_passkey_expiry(vault_id, passkey_hash), Some(new_expiry));
}

#[test]
fn test_beneficiary_acceptance_flow() {
    let (mut l, owner, beneficiary, _, _) = setup();
    let vault_id = l.create(owner, beneficiary, 100);
    assert_eq!(l.c.get_beneficiary_status(vault_id), BeneficiaryStatus::Pending);
    l.c.accept_beneficiary_role(vault_id, beneficiary).unwrap();
    assert_eq!(l.c.get_beneficiary_status(vault_id), BeneficiaryStatus::Accepted);
}

#[test]
fn test_beneficiary_decline_flow() {
    let (mut l, owner, beneficiary, _, _) = setup();
    let vault_id = l.create(owner, beneficiary, 100);
    l.c.decline_beneficiary_role(vault_id, beneficiary).unwrap();
    assert_eq!(l.c.get_beneficiary_status(vault_id), BeneficiaryStatus::Declined);
}

#[test]
fn test_release_blocked_when_beneficiary_declined() {
    let (mut l, owner, beneficiary, _, _) = setup();
    let vault_id = l.create(owner, beneficiary, 100);
    l.deposit(vault_id, owner, 500);
    l.c.decline_beneficiary_role(vault_id, beneficiary).unwrap();
    l.now += 200;
    assert!(l.trigger_release(vault_id).is_err());
}

#[test]
fn test_release_succeeds_when_beneficiary_accepted() {
    let (mut l, owner, beneficiary, _, token) = setup();
    let vault_id = l.create(owner, beneficiary, 100);
    l.deposit(vault_id, owner, 500);
    l.c.accept_beneficiary_role(vault_id, beneficiary).unwrap();
    l.now += 200;
    l.trigger_release(vault_id).unwrap();
    assert_eq!(l.balance(token, beneficiary), 500);
}

#[test]
fn test_get_vaults_as_beneficiary() {
    let (mut l, owner, beneficiary, _, _) = setup();
    let vault_id_1 = l.create(owner, beneficiary, 100);
    let vault_id_2 = l.create(owner, beneficiary, 200);
    let vaults = l.c.get_vaults_as_beneficiary(beneficiary);
    assert_eq!(vaults.len(), 2);
    assert_eq!(vaults[0], vault_id_1);
    assert_eq!(vaults[1], vault_id_2);
}

#[test]
fn test_get_vaults_as_beneficiary_empty() {
    let (mut l, owner, beneficiary, _, _) = setup();
    let other_beneficiary = l.gen();
    l.create(owner, beneficiary, 100);
    assert_eq!(l.c.get_vaults_as_beneficiary(other_beneficiary).len(), 0);
}

#[test]
fn test_delegate_beneficiary_role() {
    let (mut l, owner, beneficiary, _, _) = setup();
    let vault_id = l.create(owner, beneficiary, 100);
    let delegate = l.gen();
    l.c.delegate_beneficiary_role(vault_id, delegate).unwrap();
    assert_eq!(l.c.get_delegated_beneficiary(vault_id), Some(delegate));
}

#[test]
fn delegating_to_the_beneficiary_itself_is_refused() {
    let (mut l, owner, beneficiary, _, _) = setup();
    let vault_id = l.create(owner, beneficiary, 100);
    let err = l.c.delegate_beneficiary_role(vault_id, beneficiary).unwrap_err();
    assert_eq!(err, ContractError::InvalidBeneficiary);
    assert_eq!(l.c.get_delegated_beneficiary(vault_id), None);
}

#[test]
fn test_update_beneficiary_owner_only() {
    let (mut l, owner, beneficiary, _, _) = setup();
    let vault_id = l.create(owner, beneficiary, 100);
    let new_beneficiary = l.gen();
    let attacker = l.gen();
    assert!(l.c.update_beneficiary(vault_id, attacker, new_beneficiary, l.now).is_err());
}

#[test]
fn test_set_withdrawal_schedule() {
    let (mut l, owner, beneficiary, _, _) = setup();
    let vault_id = l.create(owner, beneficiary, 100);
    l.deposit(vault_id, owner, 1000);
    let now = l.now;
    let schedule = vec![(now + 100, 100i128), (now + 200, 200i128)];
    l.c.set_withdrawal_schedule(vault_id, &schedule).unwrap();
}

#[test]
fn withdrawal_schedule_with_a_nonpositive_amount_is_refused() {
    let (mut l, owner, beneficiary, _, _) = setup();
    let vault_id = l.create(owner, beneficiary, 100);
    let schedule = vec![(l.now + 100, 100i128), (l.now + 200, 0i128)];
    assert_eq!(l.c.set_withdrawal_schedule(vault_id, &schedule).unwrap_err(), ContractError::InvalidAmount);
    l.now += 300;
    assert_eq!(l.c.execute_scheduled_withdrawal(vault_id, l.now).unwrap_err(), ContractError::NoScheduledWithdrawals);
}

#[test]
fn test_execute_scheduled_withdrawal() {
    let (mut l, owner, beneficiary, _, token) = setup();
    let vault_id = l.create(owner, beneficiary, 100);
    l.deposit(vault_id, owner, 1000);
    let now = l.now;
    l.c.set_withdrawal_schedule(vault_id, &vec![(now + 100, 200i128)]).unwrap();
    l.now = now + 150;
    let t = l.c.execute_scheduled_withdrawal(vault_id, l.now).unwrap();
    l.apply(&t);
    assert_eq!(l.balance(token, beneficiary), 200);
    assert_eq!(l.c.execute_scheduled_withdrawal(vault_id, l.now).unwrap_err(), ContractError::NoScheduledWithdrawals);
}

#[test]
fn test_execute_scheduled_withdrawal_with_delegation() {
    let (mut l, owner, beneficiary, _, token) = setup();
    let vault_id = l.create(owner, beneficiary, 100);
    let delegate = l.gen();
    l.deposit(vault_id, owner, 1000);
    l.c.delegate_beneficiary_role(vault_id, delegate).unwrap();
    let now = l.now;
    l.c.set_withdrawal_schedule(vault_id, &vec![(now + 100, 200i128)]).unwrap();
    l.now = now + 150;
    let t = l.c.execute_scheduled_withdrawal(vault_id, l.now).unwrap();
    l.apply(&t);
    assert_eq!(l.balance(token, delegate), 200);
}

#[test]
fn test_accept_with_conditions() {
    let (mut l, owner, beneficiary, _, _) = setup();
    let vault_id = l.create(owner, beneficiary, 100);
    l.c.accept_with_conditions(vault_id, b"Only if owner is deceased".to_vec()).unwrap();
    let stored = l.c.get_conditional_acceptance(vault_id);
    assert!(stored.is_some());
    assert_eq!(stored.unwrap().approved_by_owner, false);
}

#[test]
fn empty_conditions_are_refused() {
    let (mut l, owner, beneficiary, _, _) = setup();
    let vault_id = l.create(owner, beneficiary, 100);
    assert_eq!(l.c.accept_with_conditions(vault_id, Vec::new()).unwrap_err(), ContractError::InvalidAmount);
    assert!(l.c.get_conditional_acceptance(vault_id).is_none());
}

#[test]
fn test_approve_conditional_acceptance() {
    let (mut l, owner, beneficiary, _, _) = setup();
    let vault_id = l.create(owner, beneficiary, 100);
    l.c.accept_with_conditions(vault_id, b"Some conditions".to_vec()).unwrap();
    l.c.approve_conditional_acceptance(vault_id).unwrap();
    let stored = l.c.get_conditional_acceptance(vault_id);
    assert!(stored.is_some());
    assert_eq!(stored.unwrap().approved_by_owner, true);
}

#[test]
fn test_file_dispute() {
    let (mut l, owner, beneficiary, _, _) = setup();
    let vault_id = l.create(owner, beneficiary, 100);
    l.c.file_dispute(vault_id, b"Funds are incorrect".to_vec()).unwrap();
    assert_eq!(l.c.get_dispute_status(vault_id), DisputeStatus::Filed);
}

#[test]
fn test_resolve_dispute() {
    let (mut l, owner, beneficiary, _, _) = setup();
    let vault_id = l.create(owner, beneficiary, 100);
    assert_eq!(l.c.get_dispute_status(vault_id), DisputeStatus::NoDispute);
    l.c.file_dispute(vault_id, b"Funds are incorrect".to_vec()).unwrap();
    l.c.resolve_dispute(vault_id, b"Verified and approved".to_vec()).unwrap();
    assert_eq!(l.c.get_dispute_status(vault_id), DisputeStatus::Resolved);
}

#[test]
fn resolving_without_a_filed_dispute_is_refused() {
    let (mut l, owner, beneficiary, _, _) = setup();
    let vault_id = l.create(owner, beneficiary, 100);
    assert_eq!(l.c.resolve_dispute(vault_id, b"r".to_vec()).unwrap_err(), ContractError::InvalidBeneficiary);
}

#[test]
fn test_cannot_file_duplicate_dispute() {
    let (mut l, owner, beneficiary, _, _) = setup();
    let vault_id = l.create(owner, beneficiary, 100);
    l.c.file_dispute(vault_id, b"First dispute".to_vec()).unwrap();
    assert!(l.c.file_dispute(vault_id, b"Second dispute".to_vec()).is_err());
}

#[test]
fn test_get_vault_balance() {
    let (mut l, owner, beneficiary, _, _) = setup();
    let vault_id = l.create(owner, beneficiary, 100);
    assert_eq!(l.c.get_vault_balance(vault_id).unwrap(), 0);
    l.deposit(vault_id, owner, 500);
    assert_eq!(l.c.get_vault_balance(vault_id).unwrap(), 500);
}

#[test]
fn test_get_vault_owner() {
    let (mut l, owner, beneficiary, _, _) = setup();
    let vault_id = l.create(owner, beneficiary, 100);
    assert_eq!(l.c.get_vault_owner(vault_id).unwrap(), owner);
}

#[test]
fn test_get_vault_created_at() {
    let (mut l, owner, beneficiary, _, _) = setup();
    l.now = 1_234;
    let ts_before = l.now;
    let vault_id = l.create(owner, beneficiary, 100);
    let created_at = l.c.get_vault_created_at(vault_id).unwrap();
    assert!(created_at >= ts_before);
    assert_eq!(created_at, l.c.get_vault(vault_id).unwrap().created_at);
}

#[test]
fn test_set_spending_limit_and_enforce_on_release() {
    let (mut l, owner, beneficiary, _, token) = setup();
    let vault_id = l.create(owner, beneficiary, 100);
    l.deposit(vault_id, owner, 1000);
    l.c.set_spending_limit(vault_id, Some(400)).unwrap();
    assert_eq!(l.c.get_vault(vault_id).unwrap().spending_limit, Some(400));
    l.now += 200;
    let bal_before = l.balance(token, beneficiary);
    l.trigger_release(vault_id).unwrap();
    let bal_after = l.balance(token, beneficiary);
    assert_eq!(bal_after - bal_before, 400);
    assert_eq!(l.c.get_vault_balance(vault_id).unwrap(), 600);
    assert_eq!(l.status(vault_id), ReleaseStatus::Locked);
}

#[test]
fn test_no_spending_limit_releases_full_balance() {
    let (mut l, owner, beneficiary, _, token) = setup();
    let vault_id = l.create(owner, beneficiary, 100);
    l.deposit(vault_id, owner, 1000);
    l.now += 200;
    let bal_before = l.balance(token, beneficiary);
    l.trigger_release(vault_id).unwrap();
    let bal_after = l.balance(token, beneficiary);
    assert_eq!(bal_after - bal_before, 1000);
    assert_eq!(l.c.get_vault_balance(vault_id).unwrap(), 0);
    assert_eq!(l.status(vault_id), ReleaseStatus::Released);
}

#[test]
fn test_set_spending_limit_only_owner() {
    let (mut l, owner, beneficiary, _, _) = setup();
    let vault_id = l.create(owner, beneficiary, 100);
    let _stranger = l.gen();
    let result = l.c.set_spending_limit(vault_id, Some(100));
    let _ = result;
}

#[test]
fn test_set_spending_limit_zero_is_invalid() {
    let (mut l, owner, beneficiary, _, _) = setup();
    let vault_id = l.create(owner, beneficiary, 100);
    let err = l.c.set_spending_limit(vault_id, Some(0)).unwrap_err();
    assert_eq!(err.code(), 5);
}

#[test]
fn test_merge_vaults_transfers_balance_and_cancels_sources() {
    let (mut l, owner, beneficiary, _, _) = setup();
    let v1 = l.create(owner, beneficiary, 3600);
    let v2 = l.create(owner, beneficiary, 3600);
    let target = l.create(owner, beneficiary, 3600);
    l.deposit(v1, owner, 500_000);
    l.deposit(v2, owner, 300_000);
    l.c.merge_vaults(target, &vec![v1, v2], owner, l.now).unwrap();
    assert_eq!(l.c.get_vault(target).unwrap().balance, 800_000);
    let s1 = l.c.get_vault(v1).unwrap();
    let s2 = l.c.get_vault(v2).unwrap();
    assert_eq!(s1.status, ReleaseStatus::Cancelled);
    assert_eq!(s2.status, ReleaseStatus::Cancelled);
    assert_eq!(s1.balance, 0);
    assert_eq!(s2.balance, 0);
}

#[test]
fn test_merge_vaults_different_owner_fails() {
    let (mut l, owner, beneficiary, _, token) = setup();
    let other = l.gen();
    let other_beneficiary = l.gen();
    l.credit(token, other, 1_000_000);
    let v2 = l.create(other, other_beneficiary, 3600);
    let target = l.create(owner, beneficiary, 3600);
    assert!(l.c.merge_vaults(target, &vec![v2], owner, l.now).is_err());
}

#[test]
fn test_merge_vaults_not_owner_of_target_fails() {
    let (mut l, owner, beneficiary, _, _) = setup();
    let other = l.gen();
    let v1 = l.create(owner, beneficiary, 3600);
    let target = l.create(owner, beneficiary, 3600);
    assert!(l.c.merge_vaults(target, &vec![v1], other, l.now).is_err());
}

#[test]
fn test_merge_vaults_source_equals_target_fails() {
    let (mut l, owner, beneficiary, _, _) = setup();
    let target = l.create(owner, beneficiary, 3600);
    assert!(l.c.merge_vaults(target, &vec![target], owner, l.now).is_err());
}

#[test]
fn test_merge_vaults_emits_activity_log() {
    let (mut l, owner, beneficiary, _, _) = setup();
    let v1 = l.create(owner, beneficiary, 3600);
    let target = l.create(owner, beneficiary, 3600);
    l.c.merge_vaults(target, &vec![v1], owner, l.now).unwrap();
    let log = l.c.get_vault_audit_log(target);
    assert!(log.iter().any(|e| e.action == AuditAction::MergeVaultsTarget));
    let source_log = l.c.get_vault_audit_log(v1);
    assert!(source_log.iter().any(|e| e.action == AuditAction::MergeVaultsSource));
}

#[test]
fn test_merge_vaults_non_locked_source_fails() {
    let (mut l, owner, beneficiary, _, token) = setup();
    l.credit(token, owner, 1_000_000);
    let target = l.create(owner, beneficiary, 3600);
    let source = l.create(owner, beneficiary, 1);
    l.deposit(source, owner, 50_000);
    l.now = 10_000;
    l.trigger_release(source).unwrap();
    let err = l.c.merge_vaults(target, &vec![source], owner, l.now).unwrap_err();
    assert_eq!(err.code(), 7);
}

#[test]
fn test_merge_vaults_same_token_succeeds() {
    let (mut l, owner, beneficiary, _, token) = setup();
    l.credit(token, owner, 1_000_000);
    let target = l.create(owner, beneficiary, 3600);
    let source = l.create(owner, beneficiary, 3600);
    l.deposit(source, owner, 50_000);
    l.c.merge_vaults(target, &vec![source], owner, l.now).unwrap();
    assert_eq!(l.c.get_vault(target).unwrap().balance, 50_000);
}

#[test]
fn merging_vaults_of_different_tokens_is_refused() {
    let (mut l, owner, beneficiary, _, _) = setup();
    let token2 = l.gen();
    l.c.whitelist_token(token2).unwrap();
    let vault1 = l.create(owner, beneficiary, 3600);
    let vault2 = l.c.create_vault(owner, beneficiary, 3600, Some(token2), l.now).unwrap();
    let err = l.c.merge_vaults(vault1, &vec![vault2], owner, l.now).unwrap_err();
    assert_eq!(err, ContractError::InvalidAmount);
    assert_eq!(l.status(vault2), ReleaseStatus::Locked);
}

#[test]
fn test_set_acceptance_deadline_expired_reverts_to_owner() {
    let (mut l, owner, beneficiary, _, token) = setup();
    l.now = 1_000;
    let vault_id = l.create(owner, beneficiary, 100);
    l.deposit(vault_id, owner, 500_000);
    l.c.accept_with_conditions(vault_id, b"I accept".to_vec()).unwrap();
    let past_deadline = l.now - 1;
    l.c.set_acceptance_deadline(vault_id, past_deadline).unwrap();
    l.now += 200;
    l.trigger_release(vault_id).unwrap();
    let vault = l.c.get_vault(vault_id).unwrap();
    assert_eq!(vault.status, ReleaseStatus::Cancelled);
    assert_eq!(vault.balance, 0);
    assert_eq!(l.balance(token, owner), 1_000_000);
}

#[test]
fn test_set_acceptance_deadline_approved_releases_normally() {
    let (mut l, owner, beneficiary, _, _) = setup();
    let vault_id = l.create(owner, beneficiary, 100);
    l.deposit(vault_id, owner, 500_000);
    l.c.accept_with_conditions(vault_id, b"I accept".to_vec()).unwrap();
    l.c.approve_conditional_acceptance(vault_id).unwrap();
    let future_deadline = l.now + 10_000;
    l.c.set_acceptance_deadline(vault_id, future_deadline).unwrap();
    l.now += 200;
    l.trigger_release(vault_id).unwrap();
    assert_eq!(l.c.get_vault(vault_id).unwrap().status, ReleaseStatus::Released);
}

#[test]
fn test_set_acceptance_deadline_no_entry_fails() {
    let (mut l, owner, beneficiary, _, _) = setup();
    let vault_id = l.create(owner, beneficiary, 100);
    assert!(l.c.set_acceptance_deadline(vault_id, l.now + 1000).is_err());
}

#[test]
fn test_set_acceptance_deadline_released_vault_fails() {
    let (mut l, owner, beneficiary, _, _) = setup();
    let vault_id = l.create(owner, beneficiary, 100);
    l.deposit(vault_id, owner, 100_000);
    l.c.accept_with_conditions(vault_id, b"conditions".to_vec()).unwrap();
    l.now += 200;
    let _ = l.trigger_release(vault_id);
    assert!(l.c.set_acceptance_deadline(vault_id, l.now + 1000).is_err());
}

#[test]
fn test_activity_log_create_vault() {
    let (mut l, owner, beneficiary, _, _) = setup();
    let vault_id = l.create(owner, beneficiary, 3600);
    let log = l.c.get_vault_audit_log(vault_id);
    assert!(!log.is_empty());
    assert_eq!(log[0].action, AuditAction::CreateVault);
}

#[test]
fn test_activity_log_deposit() {
    let (mut l, owner, beneficiary, _, _) = setup();
    let vault_id = l.create(owner, beneficiary, 3600);
    l.deposit(vault_id, owner, 100_000);
    assert!(l.c.get_vault_audit_log(vault_id).iter().any(|e| e.action == AuditAction::Deposit));
}

#[test]
fn test_activity_log_withdraw() {
    let (mut l, owner, beneficiary, _, _) = setup();
    let vault_id = l.create(owner, beneficiary, 3600);
    l.deposit(vault_id, owner, 100_000);
    l.withdraw(vault_id, owner, 50_000).unwrap();
    assert!(l.c.get_vault_audit_log(vault_id).iter().any(|e| e.action == AuditAction::Withdraw));
}

#[test]
fn test_activity_log_update_beneficiary() {
    let (mut l, owner, beneficiary, _, _) = setup();
    let new_ben = l.gen();
    let vault_id = l.create(owner, beneficiary, 3600);
    l.c.update_beneficiary(vault_id, owner, new_ben, l.now).unwrap();
    assert!(l.c.get_vault_audit_log(vault_id).iter().any(|e| e.action == AuditAction::UpdateBeneficiary));
}

#[test]
fn test_activity_log_cancel_vault() {
    let (mut l, owner, beneficiary, _, _) = setup();
    let vault_id = l.create(owner, beneficiary, 3600);
    let t = l.c.cancel_vault(vault_id, owner, l.now).unwrap();
    l.apply(&t);
    assert!(l.c.get_vault_audit_log(vault_id).iter().any(|e| e.action == AuditAction::CancelVault));
}

#[test]
fn test_activity_log_records_caller() {
    let (mut l, owner, beneficiary, _, _) = setup();
    let vault_id = l.create(owner, beneficiary, 3600);
    assert_eq!(l.c.get_vault_audit_log(vault_id)[0].caller, owner);
}

#[test]
fn test_activity_log_empty_for_new_vault_before_create() {
    let (l, _, _, _, _) = setup();
    assert!(l.c.get_vault_audit_log(999).is_empty());
}
