use vstd::prelude::*;
use crate::contract::error::ContractError;
use crate::contract::lifecycle::{balance_moved, check_in_effect, check_in_error, deposit_error, withdraw_error};
use crate::contract::ownership::{
    accept_transfer_error, initiate_transfer_error, OWNERSHIP_TRANSFER_EXPIRY, OWNERSHIP_TRANSFER_TIMELOCK,
};
use crate::contract::multisig::{approve_error, execute_effect, execute_error, execute_transfers, payload_i128, proposal_of};
use crate::contract::release::{claim_amount, claim_error, trigger_release_effect, trigger_release_error, unlocked_installments};
use crate::contract::expiry::forecast;
use crate::contract::expiry::{decay_applies, DECAY_INACTIVITY_SECONDS};
use crate::contract::payout::{entry_share, lemma_shares_before_le_amount, payout_transfers, shares_before, split_transfers, split_wf};
use crate::contract::state::{deadline, expired, ttl_remaining, whitelist_lookup, ContractView, VaultRecordView};
use crate::contract::types::{
    Address, AuditAction, BeneficiaryEntry, Hash32, MultiSigOperation, OwnershipTransferRequest, ProposalStatus, ReleaseStatus,
    Transfer, VaultView,
};

verus! {

/// The sum of the amounts of a list of transfers.
pub open spec fn transfers_total(t: Seq<Transfer>) -> int
    decreases t.len(),
{
    if t.len() == 0 { 0 } else { transfers_total(t.drop_last()) + t.last().amount }
}

/// No vault of a well-formed contract ever holds a negative balance.
pub proof fn law_balances_never_negative(s: ContractView, vault_id: u64)
    requires
        s.wf(),
        s.has_vault(vault_id),
    ensures
        s.vault(vault_id).balance >= 0,
{
    assert(crate::contract::state::record_wf(s.vaults[vault_id - 1]));
}

/// A vault is expired exactly when the time since its last check-in reaches
/// its interval, and it has time left exactly when it is not expired.
pub proof fn law_expired_iff_interval_elapsed(v: VaultView, now: u64)
    ensures
        expired(v, now) <==> now - v.last_check_in >= v.check_in_interval,
        ttl_remaining(v, now) is None <==> expired(v, now),
{
}

/// A check-in restarts the vault's timer: right after it the vault has its
/// whole interval left and is not expired.
pub proof fn law_check_in_restarts_ttl(s: ContractView, vault_id: u64, caller: Address, passkey_hash: Hash32, now: u64)
    requires
        s.wf(),
        check_in_error(s, vault_id, caller, passkey_hash, now) is None,
    ensures
        ttl_remaining(check_in_effect(s, vault_id, caller, passkey_hash, now).vault(vault_id), now)
            == Some(s.vault(vault_id).check_in_interval),
        !expired(check_in_effect(s, vault_id, caller, passkey_hash, now).vault(vault_id), now),
{
    assert(crate::contract::state::record_wf(s.vaults[vault_id - 1]));
}

/// A check-in never moves the deadline earlier: checking in at or after the
/// last check-in sets the last check-in to now and leaves a deadline no
/// sooner than before.
pub proof fn law_check_in_never_shortens_deadline(s: ContractView, vault_id: u64, caller: Address, passkey_hash: Hash32, now: u64)
    requires
        s.wf(),
        check_in_error(s, vault_id, caller, passkey_hash, now) is None,
        now >= s.vault(vault_id).last_check_in,
    ensures
        check_in_effect(s, vault_id, caller, passkey_hash, now).vault(vault_id).last_check_in == now,
        deadline(check_in_effect(s, vault_id, caller, passkey_hash, now).vault(vault_id)) >= deadline(s.vault(vault_id)),
{
}

/// A withdrawal that is allowed never takes more than the balance.
pub proof fn law_withdraw_within_balance(s: ContractView, vault_id: u64, caller: Address, amount: i128)
    requires
        s.wf(),
        withdraw_error(s, vault_id, caller, amount) is None,
    ensures
        0 < amount <= s.vault(vault_id).balance,
        s.vault(vault_id).balance - amount >= 0,
{
}

/// Depositing an amount into a vault and having its owner withdraw it again
/// leaves the balance as it was; the withdrawal is allowed unless the vault is
/// under multi-signature control or the amount needs approval.
pub proof fn law_deposit_withdraw_round_trip(s: ContractView, vault_id: u64, from: Address, amount: i128, t1: u64, t2: u64)
    requires
        s.wf(),
        deposit_error(s, vault_id, amount, t1) is None,
    ensures
        ({
            let s1 = balance_moved(s, vault_id, amount as int, AuditAction::Deposit, from, t1);
            let owner = s.vault(vault_id).owner;
            &&& s1.rec(vault_id).multisig is None && (s.vault(vault_id).withdrawal_approval_threshold matches Some(a) ==> amount <= a)
                ==> withdraw_error(s1, vault_id, owner, amount) is None
            &&& balance_moved(s1, vault_id, -amount, AuditAction::Withdraw, owner, t2).vault(vault_id).balance
                == s.vault(vault_id).balance
        }),
{
}

proof fn lemma_split_total(token: Address, from: Address, amount: int, bens: Seq<BeneficiaryEntry>, k: int)
    requires
        0 <= amount <= i128::MAX,
        split_wf(bens),
        0 <= k <= bens.len(),
    ensures
        transfers_total(split_transfers(token, from, amount, bens, k))
            == if k == bens.len() && k > 0 { amount } else { shares_before(amount, bens, k) },
    decreases k,
{
    if k > 0 {
        lemma_split_total(token, from, amount, bens, k - 1);
        lemma_shares_before_le_amount(amount, bens, k - 1);
        lemma_shares_before_le_amount(amount, bens, k);
        let prev = split_transfers(token, from, amount, bens, k - 1);
        let share = entry_share(amount, bens, k - 1);
        if share > 0 {
            let next = prev.push(Transfer { token, from, to: bens[k - 1].address, amount: share as i128 });
            assert(next.drop_last() =~= prev);
            if k - 1 < bens.len() - 1 {
                assert(share <= amount);
            }
        }
    }
}

/// A payout pays out exactly the amount released: the split shares are
/// rounded down and the last beneficiary receives what rounding leaves.
pub proof fn law_payout_conserves_amount(token: Address, from: Address, primary: Address, amount: i128, bens: Seq<BeneficiaryEntry>)
    requires
        amount >= 0,
        split_wf(bens),
    ensures
        transfers_total(payout_transfers(token, from, primary, amount as int, bens)) == amount,
{
    if bens.len() == 0 {
        let t = payout_transfers(token, from, primary, amount as int, bens);
        assert(t.len() == 1);
        assert(t.drop_last() =~= Seq::<Transfer>::empty());
        assert(t.last().amount == amount);
        assert(transfers_total(t.drop_last()) == 0);
    } else {
        lemma_split_total(token, from, amount as int, bens, bens.len() as int);
    }
}

/// The latest whitelist setting of a token decides whether it is whitelisted.
pub proof fn law_whitelist_setting_read_back(settings: Seq<(Address, bool)>, token: Address, allowed: bool, other: Address)
    ensures
        whitelist_lookup(settings.push((token, allowed)), token) == allowed,
        other != token ==> whitelist_lookup(settings.push((token, allowed)), other) == whitelist_lookup(settings, other),
{
    assert(settings.push((token, allowed)).drop_last() =~= settings);
}

/// An ownership transfer offered at `start` can be accepted by the new owner
/// exactly from one day until seven days later, while the vault stays locked
/// and the contract is not paused.
pub proof fn law_ownership_transfer_window(s: ContractView, vault_id: u64, new_owner: Address, start: u64, now: u64)
    requires
        s.has_vault(vault_id),
        !s.config.paused,
        s.vault(vault_id).status == ReleaseStatus::Locked,
        start + OWNERSHIP_TRANSFER_EXPIRY <= u64::MAX,
        s.rec(vault_id).pending_ownership == Some(OwnershipTransferRequest {
            new_owner,
            initiated_at: start,
            unlocks_at: (start + OWNERSHIP_TRANSFER_TIMELOCK) as u64,
            expires_at: (start + OWNERSHIP_TRANSFER_EXPIRY) as u64,
        }),
    ensures
        accept_transfer_error(s, vault_id, new_owner, now) is None
            <==> start + OWNERSHIP_TRANSFER_TIMELOCK <= now <= start + OWNERSHIP_TRANSFER_EXPIRY,
        now < start + OWNERSHIP_TRANSFER_TIMELOCK ==> accept_transfer_error(s, vault_id, new_owner, now) == Some(ContractError::OwnershipTransferTimeLocked),
        now > start + OWNERSHIP_TRANSFER_EXPIRY ==> accept_transfer_error(s, vault_id, new_owner, now) == Some(ContractError::OwnershipTransferExpired),
{
}

/// Funds are released only from a locked vault that holds funds and whose
/// interval has elapsed since the last check-in; a release asked for earlier
/// is refused as not expired.
pub proof fn law_release_only_after_expiry(s: ContractView, vault_id: u64, now: u64)
    requires
        s.wf(),
    ensures
        trigger_release_error(s, vault_id, now) is None ==> {
            let v = s.vault(vault_id);
            &&& v.status == ReleaseStatus::Locked
            &&& now - v.last_check_in >= v.check_in_interval
            &&& v.balance > 0
        },
        !s.config.paused && s.has_vault(vault_id) && s.vault(vault_id).status == ReleaseStatus::Locked
            && now - s.vault(vault_id).last_check_in < s.vault(vault_id).check_in_interval
            ==> trigger_release_error(s, vault_id, now) == Some(ContractError::NotExpired),
{
    if trigger_release_error(s, vault_id, now) is None {
        law_balances_never_negative(s, vault_id);
    }
}

/// A proposal executes only once it is approved and before it expires, and a
/// proposal past its expiry can be neither approved nor executed.
pub proof fn law_multisig_gate(s: ContractView, vault_id: u64, proposal_id: u64, caller: Address, now: u64)
    ensures
        execute_error(s, vault_id, proposal_id, caller, now) is None ==> {
            let p = proposal_of(s, vault_id, proposal_id);
            &&& p is Some
            &&& p->0.status == ProposalStatus::Approved
            &&& now <= p->0.expires_at
        },
        proposal_of(s, vault_id, proposal_id) matches Some(p) && now > p.expires_at ==> {
            &&& approve_error(s, vault_id, proposal_id, caller, now) is Some
            &&& execute_error(s, vault_id, proposal_id, caller, now) is Some
        },
{
}

/// A vault's TTL decays at most once in any thirty days: within thirty days
/// of a decay no further decay applies.
pub proof fn law_decay_at_most_once_per_period(s: ContractView, r: VaultRecordView, decayed: u64, now: u64)
    requires
        r.decayed_at == Some(decayed),
        now < decayed + DECAY_INACTIVITY_SECONDS,
    ensures
        !decay_applies(s, r, now),
{
}

/// A vesting claim counts the installments unlocked by `now`: one at the start
/// time and one more per interval, at most all of them. A claim that leaves
/// installments locked pays one equal share of the schedule's total per
/// installment unlocked since the last claim, and never more than what is left
/// of the total after the installments claimed before; the claim that unlocks
/// the last installment pays out the rest of the balance.
pub proof fn law_claim_pays_newly_unlocked_installments(st: ContractView, vault_id: u64, now: u64)
    requires
        st.wf(),
        claim_error(st, vault_id, now) is None,
    ensures
        ({
            let s = st.rec(vault_id).vesting->0;
            let balance = st.vault(vault_id).balance;
            let share = (s.total_amount as int) / (s.num_installments as int);
            let elapsed = (now - s.start_time) / (s.interval as int) + 1;
            let unlocked = unlocked_installments(s, now);
            &&& unlocked == (if elapsed < s.num_installments { elapsed } else { s.num_installments as int })
            &&& s.claimed_installments < unlocked
            &&& unlocked < s.num_installments ==> {
                &&& claim_amount(s, balance, now) == share * (unlocked - s.claimed_installments)
                &&& claim_amount(s, balance, now) + share * s.claimed_installments <= s.total_amount
                &&& claim_amount(s, balance, now) > 0 <== s.total_amount >= s.num_installments
            }
            &&& unlocked == s.num_installments ==> claim_amount(s, balance, now) == balance
        }),
{
    assert(crate::contract::state::record_wf(st.vaults[vault_id - 1]));
    let s = st.rec(vault_id).vesting->0;
    let share = (s.total_amount as int) / (s.num_installments as int);
    let unlocked = unlocked_installments(s, now);
    let c = s.claimed_installments as int;
    let n = s.num_installments as int;
    if unlocked < n {
        assert(share * (unlocked - c) + share * c <= s.total_amount) by (nonlinear_arith)
            requires share == (s.total_amount as int) / n, n > 0, s.total_amount >= 0, 0 <= c < unlocked, unlocked < n;
        if s.total_amount >= n {
            assert(share * (unlocked - c) > 0) by (nonlinear_arith)
                requires share == (s.total_amount as int) / n, n > 0, s.total_amount >= n, c < unlocked;
        }
    }
}

/// Executing a proposal conserves funds: the balance the vault loses is
/// exactly what the returned transfers pay, every transfer goes from the
/// contract to the vault's owner, and a cancellation leaves the vault
/// cancelled and empty with its whole former balance refunded.
pub proof fn law_multisig_execution_conserves_funds(s: ContractView, vault_id: u64, proposal_id: u64, caller: Address, now: u64)
    requires
        s.wf(),
        execute_error(s, vault_id, proposal_id, caller, now) is None,
    ensures
        ({
            let v = s.vault(vault_id);
            let after = execute_effect(s, vault_id, proposal_id, now).vault(vault_id);
            let t = execute_transfers(s, vault_id, proposal_id);
            let op = proposal_of(s, vault_id, proposal_id)->0.operation;
            &&& v.balance - after.balance == transfers_total(t)
            &&& forall|i: int| 0 <= i < t.len() ==> (#[trigger] t[i]).from == s.contract_address
                && t[i].to == v.owner && t[i].amount > 0
            &&& op == MultiSigOperation::CancelVault ==> {
                &&& after.balance == 0
                &&& after.status == ReleaseStatus::Cancelled
                &&& transfers_total(t) == v.balance
            }
            &&& op == MultiSigOperation::Withdraw ==> transfers_total(t) == payload_i128(proposal_of(s, vault_id, proposal_id)->0.payload)->0
        }),
{
    let v = s.vault(vault_id);
    let t = execute_transfers(s, vault_id, proposal_id);
    let p = proposal_of(s, vault_id, proposal_id)->0;
    assert(crate::contract::state::record_wf(s.vaults[vault_id - 1]));
    assert(s.has_vault(vault_id));
    let after = execute_effect(s, vault_id, proposal_id, now).vault(vault_id);
    match p.operation {
        MultiSigOperation::Withdraw => {
            let a = payload_i128(p.payload)->0;
            assert(crate::contract::multisig::operation_error(s, vault_id, p) is None);
            assert(payload_i128(p.payload) is Some);
            assert(0 < a <= v.balance);
            assert(t.len() == 1 && t.last().amount == a);
            assert(t.drop_last() =~= Seq::<Transfer>::empty());
            assert(transfers_total(t.drop_last()) == 0);
            assert(transfers_total(t) == a);
            assert(after.balance == v.balance - a);
        },
        MultiSigOperation::CancelVault => {
            if v.balance > 0 {
                assert(t.len() == 1 && t.last().amount == v.balance);
                assert(t.drop_last() =~= Seq::<Transfer>::empty());
                assert(transfers_total(t.drop_last()) == 0);
            }
            assert(after.balance == 0);
        },
        _ => {
            assert(after.balance == v.balance);
        },
    }
}

/// When a release cancels the vault and refunds the owner: exactly when the
/// beneficiary's conditional acceptance has a deadline that has passed without
/// the owner's approval. Then the whole balance goes back to the owner;
/// otherwise the vault is not cancelled and nothing goes to the owner.
pub proof fn law_release_refunds_only_after_lapsed_acceptance(s: ContractView, vault_id: u64, now: u64)
    requires
        s.wf(),
        trigger_release_error(s, vault_id, now) is None,
        s.vault(vault_id).owner != s.vault(vault_id).beneficiary,
        forall|i: int| 0 <= i < s.vault(vault_id).beneficiaries.len()
            ==> (#[trigger] s.vault(vault_id).beneficiaries[i]).address != s.vault(vault_id).owner,
    ensures
        ({
            let r = s.rec(vault_id);
            let v = r.vault;
            let lapsed = r.conditional_acceptance matches Some(c) && !c.approved_by_owner
                && (c.acceptance_deadline matches Some(d) && now > d);
            let (r2, t) = trigger_release_effect(s, vault_id, now);
            &&& (r2.vault.status == ReleaseStatus::Cancelled) == lapsed
            &&& lapsed ==> r2.vault.balance == 0 && t == seq![Transfer {
                    token: v.token_address, from: s.contract_address, to: v.owner, amount: v.balance }]
            &&& !lapsed ==> forall|i: int| 0 <= i < t.len() ==> (#[trigger] t[i]).to != v.owner
        }),
{
    let v = s.vault(vault_id);
    let t = trigger_release_effect(s, vault_id, now).1;
    lemma_payout_recipients(v.token_address, s.contract_address, v.beneficiary, crate::contract::release::release_amount(v), v.beneficiaries, v.owner);
}

/// Every transfer of a payout goes to the primary beneficiary or to a listed
/// beneficiary.
proof fn lemma_payout_recipients(token: Address, from: Address, primary: Address, amount: int, bens: Seq<BeneficiaryEntry>, other: Address)
    requires
        primary != other,
        forall|i: int| 0 <= i < bens.len() ==> (#[trigger] bens[i]).address != other,
    ensures
        forall|i: int| 0 <= i < payout_transfers(token, from, primary, amount, bens).len()
            ==> (#[trigger] payout_transfers(token, from, primary, amount, bens)[i]).to != other,
{
    if bens.len() > 0 {
        lemma_split_recipients(token, from, amount, bens, bens.len() as int, other);
    }
}

proof fn lemma_split_recipients(token: Address, from: Address, amount: int, bens: Seq<BeneficiaryEntry>, k: int, other: Address)
    requires
        0 <= k <= bens.len(),
        forall|i: int| 0 <= i < bens.len() ==> (#[trigger] bens[i]).address != other,
    ensures
        forall|i: int| 0 <= i < split_transfers(token, from, amount, bens, k).len()
            ==> (#[trigger] split_transfers(token, from, amount, bens, k)[i]).to != other,
    decreases k,
{
    if k > 0 {
        lemma_split_recipients(token, from, amount, bens, k - 1, other);
        let prev = split_transfers(token, from, amount, bens, k - 1);
        let t = split_transfers(token, from, amount, bens, k);
        assert(bens[k - 1].address != other);
        assert forall|i: int| 0 <= i < t.len() implies (#[trigger] t[i]).to != other by {
            if i < prev.len() {
                assert(t[i] == prev[i]);
            }
        }
    }
}

/// The forecast for a vault with time left is a moment after `now`: `now`
/// plus a whole number `n` of check-in intervals, where `n` is the number of
/// check-ins at the given frequency needed to cover the time left, the
/// smallest `n` with `n` frequency periods reaching the deadline.
pub proof fn law_forecast_is_a_later_time(v: VaultView, freq_days: u64, now: u64)
    requires
        freq_days > 0,
        v.check_in_interval > 0,
        now < deadline(v),
    ensures
        forecast(v, freq_days, now) > now,
        ({
            let f = freq_days * 86_400;
            let rem = deadline(v) - now;
            let n = (forecast(v, freq_days, now) - now) / (v.check_in_interval as int);
            &&& forecast(v, freq_days, now) == now + n * v.check_in_interval
            &&& (n - 1) * f < rem <= n * f
        }),
{
    let f = freq_days * 86_400;
    let rem = deadline(v) - now;
    let i = v.check_in_interval as int;
    let n = (rem + f - 1) / f;
    assert(n >= 1 && (n - 1) * f < rem && rem <= n * f) by (nonlinear_arith)
        requires f >= 86_400, rem >= 1, n == (rem + f - 1) / f;
    assert(n * i > 0) by (nonlinear_arith) requires n >= 1, i >= 1;
    assert((n * i) / i == n) by (nonlinear_arith) requires i >= 1;
}

} // verus!
