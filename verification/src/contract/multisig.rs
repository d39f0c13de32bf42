use vstd::prelude::*;
use vstd::bytes::{spec_u128_from_le_bytes, spec_u128_to_le_bytes, spec_u64_from_le_bytes, spec_u64_to_le_bytes};
use crate::contract::access::{owner_error, owner_locked_error};
use crate::contract::error::ContractError;
use crate::contract::state::{without_pair, ContractView, TtlVaultContract, VaultRecordView};
use crate::contract::types::{
    copy_vec, Address, MultiSigConfig, MultiSigConfigView, MultiSigOperation, MultiSigProposal,
    MultiSigProposalView, ProposalStatus, ReleaseStatus, Transfer, VaultView,
};

verus! {

/// How long a proposal stays open: seven days.
pub const MULTISIG_PROPOSAL_EXPIRY: u64 = 604_800;

/// The amount a withdrawal payload holds: the first 16 bytes, little-endian.
pub open spec fn payload_i128(p: Seq<u8>) -> Option<i128> {
    if p.len() < 16 { None } else { Some(spec_u128_from_le_bytes(p.take(16)) as i128) }
}

/// The interval an interval payload holds: the first 8 bytes, little-endian.
pub open spec fn payload_u64(p: Seq<u8>) -> Option<u64> {
    if p.len() < 8 { None } else { Some(spec_u64_from_le_bytes(p.take(8))) }
}

/// Encodes an amount as a 16-byte little-endian payload.
pub fn encode_i128_payload(value: i128) -> (r: Vec<u8>)
    ensures
        r@ == spec_u128_to_le_bytes(value as u128),
        r@.len() == 16,
{
    vstd::bytes::u128_to_le_bytes(value as u128)
}

/// Encodes an interval as an 8-byte little-endian payload.
pub fn encode_u64_payload(value: u64) -> (r: Vec<u8>)
    ensures
        r@ == spec_u64_to_le_bytes(value),
        r@.len() == 8,
{
    vstd::bytes::u64_to_le_bytes(value)
}

fn prefix(p: &Vec<u8>, n: usize) -> (r: Vec<u8>)
    requires
        n <= p@.len(),
    ensures
        r@ == p@.take(n as int),
{
    let mut r: Vec<u8> = Vec::new();
    let mut i: usize = 0;
    while i < n
        invariant
            i <= n,
            n <= p@.len(),
            r@ == p@.take(i as int),
        decreases n - i,
    {
        r.push(p[i]);
        i = i + 1;
        assert(r@ =~= p@.take(i as int));
    }
    r
}

/// Decodes a withdrawal payload.
pub fn decode_i128(payload: &Vec<u8>) -> (r: Result<i128, ContractError>)
    ensures
        match payload_i128(payload@) {
            Some(v) => r == Ok::<i128, ContractError>(v),
            None => r == Err::<i128, ContractError>(ContractError::InvalidAmount),
        },
{
    if payload.len() < 16 {
        return Err(ContractError::InvalidAmount);
    }
    let head = prefix(payload, 16);
    let u = vstd::bytes::u128_from_le_bytes(head.as_slice());
    Ok(u as i128)
}

/// Decodes an interval payload.
pub fn decode_u64(payload: &Vec<u8>) -> (r: Result<u64, ContractError>)
    ensures
        match payload_u64(payload@) {
            Some(v) => r == Ok::<u64, ContractError>(v),
            None => r == Err::<u64, ContractError>(ContractError::InvalidAmount),
        },
{
    if payload.len() < 8 {
        return Err(ContractError::InvalidAmount);
    }
    let head = prefix(payload, 8);
    Ok(vstd::bytes::u64_from_le_bytes(head.as_slice()))
}

/// Decoding an encoded amount gives the amount back.
pub proof fn law_i128_payload_round_trip(value: i128)
    ensures
        payload_i128(spec_u128_to_le_bytes(value as u128)) == Some(value),
{
    vstd::bytes::lemma_auto_spec_u128_to_from_le_bytes();
    let b = spec_u128_to_le_bytes(value as u128);
    assert(b.take(16) =~= b);
    assert((value as u128) as i128 == value) by (bit_vector);
}

/// Decoding an encoded interval gives the interval back.
pub proof fn law_u64_payload_round_trip(value: u64)
    ensures
        payload_u64(spec_u64_to_le_bytes(value)) == Some(value),
{
    vstd::bytes::lemma_auto_spec_u64_to_from_le_bytes();
    let b = spec_u64_to_le_bytes(value);
    assert(b.take(8) =~= b);
}

/// Why `configure_multisig` refuses, if it does.
pub open spec fn configure_multisig_error(s: ContractView, vault_id: u64, caller: Address, signers: Seq<Address>, threshold: u32) -> Option<ContractError> {
    if owner_locked_error(s, vault_id, caller) is Some {
        owner_locked_error(s, vault_id, caller)
    } else if threshold == 0 || threshold > signers.len() + 1 {
        Some(ContractError::InvalidThreshold)
    } else if signers.contains(s.vault(vault_id).owner) {
        Some(ContractError::InvalidBeneficiary)
    } else {
        None
    }
}

/// The proposal `proposal_id` of a vault, if it exists.
pub open spec fn proposal_of(s: ContractView, vault_id: u64, proposal_id: u64) -> Option<MultiSigProposalView> {
    if s.has_vault(vault_id) && 1 <= proposal_id <= s.rec(vault_id).proposals.len() {
        Some(s.rec(vault_id).proposals[proposal_id - 1])
    } else {
        None
    }
}

/// The state with proposal `proposal_id` of a vault replaced.
pub open spec fn with_proposal(s: ContractView, vault_id: u64, proposal_id: u64, p: MultiSigProposalView) -> ContractView {
    let r = s.rec(vault_id);
    s.with_record(vault_id, VaultRecordView { proposals: r.proposals.update(proposal_id - 1, p), ..r })
}

/// Why `propose_multisig` refuses, if it does.
pub open spec fn propose_error(s: ContractView, vault_id: u64, caller: Address) -> Option<ContractError> {
    if owner_locked_error(s, vault_id, caller) is Some {
        owner_locked_error(s, vault_id, caller)
    } else if s.rec(vault_id).multisig is None {
        Some(ContractError::MultiSigRequired)
    } else {
        None
    }
}

/// Why `approve_multisig` refuses, if it does.
pub open spec fn approve_error(s: ContractView, vault_id: u64, proposal_id: u64, caller: Address, now: u64) -> Option<ContractError> {
    if !s.has_vault(vault_id) || s.rec(vault_id).multisig is None {
        Some(ContractError::MultiSigRequired)
    } else if caller != s.vault(vault_id).owner && !s.rec(vault_id).multisig->0.signers.contains(caller) {
        Some(ContractError::NotASigner)
    } else if proposal_of(s, vault_id, proposal_id) is None || proposal_of(s, vault_id, proposal_id)->0.status != ProposalStatus::Pending {
        Some(ContractError::ProposalNotFound)
    } else if now > proposal_of(s, vault_id, proposal_id)->0.expires_at {
        Some(ContractError::ProposalExpired)
    } else if proposal_of(s, vault_id, proposal_id)->0.approvals.contains(caller) {
        Some(ContractError::AlreadyApproved)
    } else {
        None
    }
}

/// Why `reject_multisig` refuses, if it does.
pub open spec fn reject_error(s: ContractView, vault_id: u64, proposal_id: u64, caller: Address) -> Option<ContractError> {
    if owner_error(s, vault_id, caller) is Some {
        owner_error(s, vault_id, caller)
    } else if proposal_of(s, vault_id, proposal_id) is None || proposal_of(s, vault_id, proposal_id)->0.status != ProposalStatus::Pending {
        Some(ContractError::ProposalNotFound)
    } else {
        None
    }
}


/// Why the operation of proposal `p` cannot be carried out on a vault, if it cannot.
pub open spec fn operation_error(s: ContractView, vault_id: u64, p: MultiSigProposalView) -> Option<ContractError> {
    let v = s.vault(vault_id);
    match p.operation {
        MultiSigOperation::Withdraw => match payload_i128(p.payload) {
            None => Some(ContractError::InvalidAmount),
            Some(a) => if a <= 0 {
                Some(ContractError::InvalidAmount)
            } else if v.balance < a {
                Some(ContractError::InsufficientBalance)
            } else {
                None
            },
        },
        MultiSigOperation::UpdateBeneficiary => match p.address_payload {
            None => Some(ContractError::InvalidAmount),
            Some(b) => if b == v.owner { Some(ContractError::InvalidBeneficiary) } else { None },
        },
        MultiSigOperation::CancelVault => None,
        MultiSigOperation::TransferOwnership => match p.address_payload {
            None => Some(ContractError::InvalidAmount),
            Some(o) => if o == v.beneficiary { Some(ContractError::InvalidBeneficiary) } else { None },
        },
        MultiSigOperation::UpdateCheckInInterval => match payload_u64(p.payload) {
            None => Some(ContractError::InvalidAmount),
            Some(n) => if n == 0 { Some(ContractError::InvalidInterval) } else { s.interval_bounds_error(n) },
        },
    }
}

/// Why `execute_multisig` refuses, if it does.
pub open spec fn execute_error(s: ContractView, vault_id: u64, proposal_id: u64, caller: Address, now: u64) -> Option<ContractError> {
    if owner_error(s, vault_id, caller) is Some {
        owner_error(s, vault_id, caller)
    } else if proposal_of(s, vault_id, proposal_id) is None {
        Some(ContractError::ProposalNotFound)
    } else if proposal_of(s, vault_id, proposal_id)->0.status != ProposalStatus::Approved {
        Some(ContractError::ProposalNotApproved)
    } else if now > proposal_of(s, vault_id, proposal_id)->0.expires_at {
        Some(ContractError::ProposalExpired)
    } else {
        operation_error(s, vault_id, proposal_of(s, vault_id, proposal_id)->0)
    }
}

/// The state after executing an approved proposal: the proposal is marked
/// executed and its operation carried out.
pub open spec fn execute_effect(s: ContractView, vault_id: u64, proposal_id: u64, now: u64) -> ContractView {
    let p = proposal_of(s, vault_id, proposal_id)->0;
    let s1 = with_proposal(s, vault_id, proposal_id, MultiSigProposalView { status: ProposalStatus::Executed, ..p });
    let v = s.vault(vault_id);
    match p.operation {
        MultiSigOperation::Withdraw => s1.with_vault(vault_id, VaultView { balance: (v.balance - payload_i128(p.payload)->0) as i128, ..v }),
        MultiSigOperation::UpdateBeneficiary => {
            let b = p.address_payload->0;
            let s2 = s1.with_vault(vault_id, VaultView { beneficiary: b, ..v });
            if v.beneficiary != b {
                ContractView { beneficiary_index: without_pair(s.beneficiary_index, v.beneficiary, vault_id).push((b, vault_id)), ..s2 }
            } else {
                s2
            }
        },
        MultiSigOperation::CancelVault => ContractView {
            owner_index: without_pair(s.owner_index, v.owner, vault_id),
            beneficiary_index: without_pair(s.beneficiary_index, v.beneficiary, vault_id),
            ..s1.with_vault(vault_id, VaultView { balance: 0, status: ReleaseStatus::Cancelled, ..v })
        },
        MultiSigOperation::TransferOwnership => {
            let o = p.address_payload->0;
            let s2 = s1.with_vault(vault_id, VaultView { owner: o, ..v });
            if v.owner != o {
                ContractView { owner_index: without_pair(s.owner_index, v.owner, vault_id).push((o, vault_id)), ..s2 }
            } else {
                s2
            }
        },
        MultiSigOperation::UpdateCheckInInterval => s1.with_vault(vault_id, VaultView {
            check_in_interval: payload_u64(p.payload)->0,
            last_check_in: now,
            ..v
        }),
    }
}

/// The transfers that executing a proposal makes: a withdrawal pays the owner,
/// a cancellation refunds the owner's balance if there is one.
pub open spec fn execute_transfers(s: ContractView, vault_id: u64, proposal_id: u64) -> Seq<Transfer> {
    let p = proposal_of(s, vault_id, proposal_id)->0;
    let v = s.vault(vault_id);
    match p.operation {
        MultiSigOperation::Withdraw => seq![Transfer {
            token: v.token_address, from: s.contract_address, to: v.owner, amount: payload_i128(p.payload)->0 }],
        MultiSigOperation::CancelVault => if v.balance > 0 {
            seq![Transfer { token: v.token_address, from: s.contract_address, to: v.owner, amount: v.balance }]
        } else {
            Seq::empty()
        },
        _ => Seq::empty(),
    }
}

impl TtlVaultContract {
    fn copy_addresses(v: &Vec<Address>) -> (r: Vec<Address>)
        ensures
            r@ == v@,
    {
        copy_vec(v)
    }

    fn contains_address(v: &Vec<Address>, a: Address) -> (r: bool)
        ensures
            r == v@.contains(a),
    {
        let mut i: usize = 0;
        while i < v.len()
            invariant
                i <= v@.len(),
                forall|j: int| 0 <= j < i ==> v@[j] != a,
            decreases v@.len() - i,
        {
            if v[i] == a {
                assert(v@[i as int] == a);
                return true;
            }
            i = i + 1;
        }
        false
    }

    /// The owner of a locked vault sets its co-signers and the number of
    /// approvals that proposals need (counting the owner).
    pub fn configure_multisig(&mut self, vault_id: u64, caller: Address, signers: Vec<Address>, threshold: u32) -> (r: Result<(), ContractError>)
        requires
            old(self).wf(),
        ensures
            final(self).wf(),
            match r {
                Ok(()) => configure_multisig_error(old(self)@, vault_id, caller, signers@, threshold) is None
                    && final(self)@ == old(self)@.with_record(vault_id, VaultRecordView {
                        multisig: Some(MultiSigConfigView { signers: signers@, threshold }),
                        ..old(self)@.rec(vault_id)
                    }),
                Err(e) => configure_multisig_error(old(self)@, vault_id, caller, signers@, threshold) == Some(e)
                    && final(self)@ == old(self)@,
            },
    {
        let i = self.check_owner_locked(vault_id, caller)?;
        proof { self.lemma_view_index(i as int); }
        let total: u128 = signers.len() as u128 + 1;
        if threshold == 0 || threshold as u128 > total {
            return Err(ContractError::InvalidThreshold);
        }
        if Self::contains_address(&signers, self.vaults[i].vault.owner) {
            return Err(ContractError::InvalidBeneficiary);
        }
        let ghost sv = signers@;
        self.vaults[i].multisig = Some(MultiSigConfig { signers, threshold });
        proof { self.lemma_view_index(i as int); }
        assert(self@.vaults[i as int] =~= VaultRecordView {
            multisig: Some(MultiSigConfigView { signers: sv, threshold }),
            ..old(self)@.rec(vault_id)
        });
        assert(self@.vaults =~= old(self)@.vaults.update(i as int, self@.vaults[i as int]));
        Ok(())
    }

    /// The owner turns multi-signature off for a vault.
    pub fn remove_multisig(&mut self, vault_id: u64, caller: Address) -> (r: Result<(), ContractError>)
        requires
            old(self).wf(),
        ensures
            final(self).wf(),
            match r {
                Ok(()) => owner_error(old(self)@, vault_id, caller) is None
                    && final(self)@ == old(self)@.with_record(vault_id, VaultRecordView { multisig: None, ..old(self)@.rec(vault_id) }),
                Err(e) => owner_error(old(self)@, vault_id, caller) == Some(e) && final(self)@ == old(self)@,
            },
    {
        let i = self.check_owner(vault_id, caller)?;
        self.vaults[i].multisig = None;
        proof { self.lemma_view_index(i as int); }
        assert(self@.vaults[i as int] =~= VaultRecordView { multisig: None, ..old(self)@.rec(vault_id) });
        assert(self@.vaults =~= old(self)@.vaults.update(i as int, self@.vaults[i as int]));
        Ok(())
    }

    /// The multi-signature configuration of a vault, if any.
    pub fn get_multisig_config(&self, vault_id: u64) -> (r: Option<MultiSigConfig>)
        ensures
            match r {
                Some(c) => self@.has_vault(vault_id) && self@.rec(vault_id).multisig == Some(c@),
                None => !self@.has_vault(vault_id) || self@.rec(vault_id).multisig is None,
            },
    {
        match self.vault_index(vault_id) {
            None => None,
            Some(i) => {
                proof { self.lemma_view_index(i as int); }
                match &self.vaults[i].multisig {
                    None => None,
                    Some(c) => Some(MultiSigConfig { signers: Self::copy_addresses(&c.signers), threshold: c.threshold }),
                }
            }
        }
    }

    /// Whether a vault has multi-signature configured.
    pub fn has_multisig(&self, vault_id: u64) -> (r: bool)
        ensures
            r == (self@.has_vault(vault_id) && self@.rec(vault_id).multisig is Some),
    {
        match self.vault_index(vault_id) {
            None => false,
            Some(i) => {
                proof { self.lemma_view_index(i as int); }
                self.vaults[i].multisig.is_some()
            }
        }
    }

    /// The owner proposes an operation on a locked vault with multi-signature;
    /// the owner's approval is recorded at once, so with a threshold of one the
    /// proposal is approved immediately. Returns the proposal's id.
    pub fn propose_multisig(
        &mut self,
        vault_id: u64,
        caller: Address,
        operation: MultiSigOperation,
        payload: Vec<u8>,
        address_payload: Option<Address>,
        now: u64,
    ) -> (r: Result<u64, ContractError>)
        requires
            old(self).wf(),
            now + MULTISIG_PROPOSAL_EXPIRY <= u64::MAX,
            old(self)@.has_vault(vault_id) ==> old(self)@.rec(vault_id).proposals.len() + 1 < u64::MAX,
        ensures
            final(self).wf(),
            match r {
                Ok(id) => propose_error(old(self)@, vault_id, caller) is None && {
                    let rec = old(self)@.rec(vault_id);
                    &&& id == rec.proposals.len() + 1
                    &&& final(self)@ == old(self)@.with_record(vault_id, VaultRecordView {
                        proposals: rec.proposals.push(MultiSigProposalView {
                            id,
                            operation,
                            approvals: seq![caller],
                            status: if rec.multisig->0.threshold <= 1 { ProposalStatus::Approved } else { ProposalStatus::Pending },
                            expires_at: (now + MULTISIG_PROPOSAL_EXPIRY) as u64,
                            vault_id,
                            payload: payload@,
                            address_payload,
                            created_at: now,
                        }),
                        ..rec
                    })
                },
                Err(e) => propose_error(old(self)@, vault_id, caller) == Some(e) && final(self)@ == old(self)@,
            },
    {
        let i = self.check_owner_locked(vault_id, caller)?;
        proof { self.lemma_view_index(i as int); }
        let threshold = match &self.vaults[i].multisig {
            None => return Err(ContractError::MultiSigRequired),
            Some(c) => c.threshold,
        };
        let id: u64 = self.vaults[i].proposals.len() as u64 + 1;
        let mut approvals: Vec<Address> = Vec::new();
        approvals.push(caller);
        let status = if threshold <= 1 { ProposalStatus::Approved } else { ProposalStatus::Pending };
        let ghost pv = payload@;
        let p = MultiSigProposal {
            id,
            operation,
            approvals,
            status,
            expires_at: now + MULTISIG_PROPOSAL_EXPIRY,
            vault_id,
            payload,
            address_payload,
            created_at: now,
        };
        let ghost before = self@.vaults[i as int];
        self.vaults[i].proposals.push(p);
        proof {
            self.lemma_view_index(i as int);
            let rec = old(self)@.rec(vault_id);
            assert(self@.vaults[i as int].proposals =~= rec.proposals.push(MultiSigProposalView {
                id,
                operation,
                approvals: seq![caller],
                status,
                expires_at: (now + MULTISIG_PROPOSAL_EXPIRY) as u64,
                vault_id,
                payload: pv,
                address_payload,
                created_at: now,
            }));
            assert(self@.vaults[i as int] =~= VaultRecordView { proposals: self@.vaults[i as int].proposals, ..rec });
            assert(self@.vaults =~= old(self)@.vaults.update(i as int, self@.vaults[i as int]));
        }
        Ok(id)
    }

    /// The owner or a co-signer approves a pending, unexpired proposal once;
    /// when the approvals reach the threshold the proposal is approved.
    pub fn approve_multisig(&mut self, vault_id: u64, proposal_id: u64, caller: Address, now: u64) -> (r: Result<(), ContractError>)
        requires
            old(self).wf(),
        ensures
            final(self).wf(),
            match r {
                Ok(()) => approve_error(old(self)@, vault_id, proposal_id, caller, now) is None && {
                    let p = proposal_of(old(self)@, vault_id, proposal_id)->0;
                    let approvals = p.approvals.push(caller);
                    final(self)@ == with_proposal(old(self)@, vault_id, proposal_id, MultiSigProposalView {
                        approvals,
                        status: if approvals.len() >= old(self)@.rec(vault_id).multisig->0.threshold { ProposalStatus::Approved } else { ProposalStatus::Pending },
                        ..p
                    })
                },
                Err(e) => approve_error(old(self)@, vault_id, proposal_id, caller, now) == Some(e) && final(self)@ == old(self)@,
            },
    {
        let i = match self.vault_index(vault_id) {
            None => return Err(ContractError::MultiSigRequired),
            Some(i) => i,
        };
        proof { self.lemma_view_index(i as int); }
        let threshold = match &self.vaults[i].multisig {
            None => return Err(ContractError::MultiSigRequired),
            Some(c) => {
                if caller != self.vaults[i].vault.owner && !Self::contains_address(&c.signers, caller) {
                    return Err(ContractError::NotASigner);
                }
                c.threshold
            }
        };
        if proposal_id < 1 || proposal_id > self.vaults[i].proposals.len() as u64 {
            return Err(ContractError::ProposalNotFound);
        }
        let k = (proposal_id - 1) as usize;
        assert(self@.vaults[i as int].proposals[k as int] == self.vaults@[i as int].proposals@[k as int]@);
        if self.vaults[i].proposals[k].status != ProposalStatus::Pending {
            return Err(ContractError::ProposalNotFound);
        }
        if now > self.vaults[i].proposals[k].expires_at {
            return Err(ContractError::ProposalExpired);
        }
        if Self::contains_address(&self.vaults[i].proposals[k].approvals, caller) {
            return Err(ContractError::AlreadyApproved);
        }
        let ghost p0 = self@.vaults[i as int].proposals[k as int];
        self.vaults[i].proposals[k].approvals.push(caller);
        let n = self.vaults[i].proposals[k].approvals.len();
        if n as u64 >= threshold as u64 {
            self.vaults[i].proposals[k].status = ProposalStatus::Approved;
        }
        proof {
            self.lemma_view_index(i as int);
            let rec = old(self)@.rec(vault_id);
            let approvals = p0.approvals.push(caller);
            let np = MultiSigProposalView {
                approvals,
                status: if approvals.len() >= threshold { ProposalStatus::Approved } else { ProposalStatus::Pending },
                ..p0
            };
            assert(self@.vaults[i as int].proposals[k as int] =~= np);
            assert(self@.vaults[i as int].proposals =~= rec.proposals.update(k as int, np));
            assert(self@.vaults[i as int] =~= VaultRecordView { proposals: rec.proposals.update(k as int, np), ..rec });
            assert(self@.vaults =~= old(self)@.vaults.update(i as int, self@.vaults[i as int]));
        }
        Ok(())
    }

    /// The owner rejects a pending proposal.
    pub fn reject_multisig(&mut self, vault_id: u64, proposal_id: u64, caller: Address) -> (r: Result<(), ContractError>)
        requires
            old(self).wf(),
        ensures
            final(self).wf(),
            match r {
                Ok(()) => reject_error(old(self)@, vault_id, proposal_id, caller) is None
                    && final(self)@ == with_proposal(old(self)@, vault_id, proposal_id, MultiSigProposalView {
                        status: ProposalStatus::Rejected,
                        ..proposal_of(old(self)@, vault_id, proposal_id)->0
                    }),
                Err(e) => reject_error(old(self)@, vault_id, proposal_id, caller) == Some(e) && final(self)@ == old(self)@,
            },
    {
        let i = self.check_owner(vault_id, caller)?;
        proof { self.lemma_view_index(i as int); }
        if proposal_id < 1 || proposal_id > self.vaults[i].proposals.len() as u64 {
            return Err(ContractError::ProposalNotFound);
        }
        let k = (proposal_id - 1) as usize;
        assert(self@.vaults[i as int].proposals[k as int] == self.vaults@[i as int].proposals@[k as int]@);
        if self.vaults[i].proposals[k].status != ProposalStatus::Pending {
            return Err(ContractError::ProposalNotFound);
        }
        let ghost p0 = self@.vaults[i as int].proposals[k as int];
        self.vaults[i].proposals[k].status = ProposalStatus::Rejected;
        proof {
            self.lemma_view_index(i as int);
            let rec = old(self)@.rec(vault_id);
            let np = MultiSigProposalView { status: ProposalStatus::Rejected, ..p0 };
            assert(self@.vaults[i as int].proposals[k as int] =~= np);
            assert(self@.vaults[i as int].proposals =~= rec.proposals.update(k as int, np));
            assert(self@.vaults[i as int] =~= VaultRecordView { proposals: rec.proposals.update(k as int, np), ..rec });
            assert(self@.vaults =~= old(self)@.vaults.update(i as int, self@.vaults[i as int]));
        }
        Ok(())
    }

    /// The owner executes an approved, unexpired proposal: it is marked executed
    /// and its operation carried out. Returns the transfers made.
    pub fn execute_multisig(&mut self, vault_id: u64, proposal_id: u64, caller: Address, now: u64) -> (r: Result<Vec<Transfer>, ContractError>)
        requires
            old(self).wf(),
        ensures
            final(self).wf(),
            match r {
                Ok(t) => execute_error(old(self)@, vault_id, proposal_id, caller, now) is None
                    && final(self)@ == execute_effect(old(self)@, vault_id, proposal_id, now)
                    && t@ == execute_transfers(old(self)@, vault_id, proposal_id),
                Err(e) => execute_error(old(self)@, vault_id, proposal_id, caller, now) == Some(e) && final(self)@ == old(self)@,
            },
    {
        let i = self.check_owner(vault_id, caller)?;
        proof { self.lemma_view_index(i as int); }
        if proposal_id < 1 || proposal_id > self.vaults[i].proposals.len() as u64 {
            return Err(ContractError::ProposalNotFound);
        }
        let k = (proposal_id - 1) as usize;
        assert(self@.vaults[i as int].proposals[k as int] == self.vaults@[i as int].proposals@[k as int]@);
        if self.vaults[i].proposals[k].status != ProposalStatus::Approved {
            return Err(ContractError::ProposalNotApproved);
        }
        if now > self.vaults[i].proposals[k].expires_at {
            return Err(ContractError::ProposalExpired);
        }
        let operation = self.vaults[i].proposals[k].operation;
        let address_payload = self.vaults[i].proposals[k].address_payload;
        let owner = self.vaults[i].vault.owner;
        let beneficiary = self.vaults[i].vault.beneficiary;
        let balance = self.vaults[i].vault.balance;
        let token = self.vaults[i].vault.token_address;
        let mut amount: i128 = 0;
        let mut interval: u64 = 0;
        let mut target: Address = 0;
        match operation {
            MultiSigOperation::Withdraw => {
                amount = decode_i128(&self.vaults[i].proposals[k].payload)?;
                if amount <= 0 {
                    return Err(ContractError::InvalidAmount);
                }
                if balance < amount {
                    return Err(ContractError::InsufficientBalance);
                }
            }
            MultiSigOperation::UpdateBeneficiary => {
                target = match address_payload {
                    None => return Err(ContractError::InvalidAmount),
                    Some(b) => b,
                };
                if target == owner {
                    return Err(ContractError::InvalidBeneficiary);
                }
            }
            MultiSigOperation::CancelVault => {}
            MultiSigOperation::TransferOwnership => {
                target = match address_payload {
                    None => return Err(ContractError::InvalidAmount),
                    Some(o) => o,
                };
                if target == beneficiary {
                    return Err(ContractError::InvalidBeneficiary);
                }
            }
            MultiSigOperation::UpdateCheckInInterval => {
                interval = decode_u64(&self.vaults[i].proposals[k].payload)?;
                if interval == 0 {
                    return Err(ContractError::InvalidInterval);
                }
                self.check_interval_bounds(interval)?;
            }
        }
        let ghost s0 = self@;
        let ghost p0 = self@.vaults[i as int].proposals[k as int];
        self.vaults[i].proposals[k].status = ProposalStatus::Executed;
        proof {
            self.lemma_view_index(i as int);
            let rec = s0.rec(vault_id);
            let np = MultiSigProposalView { status: ProposalStatus::Executed, ..p0 };
            assert(self@.vaults[i as int].proposals[k as int] =~= np);
            assert(self@.vaults[i as int].proposals =~= rec.proposals.update(k as int, np));
            assert(self@.vaults[i as int] =~= VaultRecordView { proposals: rec.proposals.update(k as int, np), ..rec });
            assert(self@.vaults =~= s0.vaults.update(i as int, self@.vaults[i as int]));
            assert(self@ == with_proposal(s0, vault_id, proposal_id, np));
        }
        let ghost s1 = self@;
        let mut t: Vec<Transfer> = Vec::new();
        match operation {
            MultiSigOperation::Withdraw => {
                self.vaults[i].vault.balance = balance - amount;
                t.push(Transfer { token, from: self.contract_address, to: owner, amount });
            }
            MultiSigOperation::UpdateBeneficiary => {
                self.vaults[i].vault.beneficiary = target;
            }
            MultiSigOperation::CancelVault => {
                if balance > 0 {
                    t.push(Transfer { token, from: self.contract_address, to: owner, amount: balance });
                }
                self.vaults[i].vault.balance = 0;
                self.vaults[i].vault.status = ReleaseStatus::Cancelled;
            }
            MultiSigOperation::TransferOwnership => {
                self.vaults[i].vault.owner = target;
            }
            MultiSigOperation::UpdateCheckInInterval => {
                self.vaults[i].vault.check_in_interval = interval;
                self.vaults[i].vault.last_check_in = now;
            }
        }
        proof {
            self.lemma_view_index(i as int);
            assert(self@.vaults =~= s1.vaults.update(i as int, self@.vaults[i as int]));
            let r1 = s1.rec(vault_id);
            let v = s0.vault(vault_id);
            assert(self@.vaults[i as int] =~= VaultRecordView { vault: self@.vaults[i as int].vault, ..r1 });
            match operation {
                MultiSigOperation::Withdraw => {
                    assert(self@.vaults[i as int].vault =~= VaultView { balance: (v.balance - amount) as i128, ..v });
                }
                MultiSigOperation::UpdateBeneficiary => {
                    assert(self@.vaults[i as int].vault =~= VaultView { beneficiary: target, ..v });
                }
                MultiSigOperation::CancelVault => {
                    assert(self@.vaults[i as int].vault =~= VaultView { balance: 0, status: ReleaseStatus::Cancelled, ..v });
                }
                MultiSigOperation::TransferOwnership => {
                    assert(self@.vaults[i as int].vault =~= VaultView { owner: target, ..v });
                }
                MultiSigOperation::UpdateCheckInInterval => {
                    assert(self@.vaults[i as int].vault =~= VaultView { check_in_interval: interval, last_check_in: now, ..v });
                }
            }
            assert forall|j: int| 0 <= j < self@.vaults.len() implies crate::contract::state::record_wf(#[trigger] self@.vaults[j]) by {
                assert(crate::contract::state::record_wf(s0.vaults[j]));
            }
        }
        match operation {
            MultiSigOperation::UpdateBeneficiary => {
                if beneficiary != target {
                    self.move_beneficiary_index(vault_id, beneficiary, target);
                }
            }
            MultiSigOperation::CancelVault => {
                self.unindex(vault_id, owner, beneficiary);
            }
            MultiSigOperation::TransferOwnership => {
                if owner != target {
                    self.move_owner_index(vault_id, owner, target);
                }
            }
            _ => {}
        }
        proof {
            let target_state = execute_effect(s0, vault_id, proposal_id, now);
            assert(self@.vaults =~= target_state.vaults);
            assert(self@ =~= target_state);
            assert(t@ =~= execute_transfers(s0, vault_id, proposal_id));
        }
        Ok(t)
    }

    /// The number of proposals ever made for a vault.
    pub fn get_multisig_proposal_count(&self, vault_id: u64) -> (r: u64)
        ensures
            r == (if self@.has_vault(vault_id) { self@.rec(vault_id).proposals.len() } else { 0 }),
    {
        match self.vault_index(vault_id) {
            None => 0,
            Some(i) => {
                proof { self.lemma_view_index(i as int); }
                self.vaults[i].proposals.len() as u64
            }
        }
    }

    /// A copy of a proposal of a vault, if it exists.
    pub fn get_multisig_proposal(&self, vault_id: u64, proposal_id: u64) -> (r: Option<MultiSigProposal>)
        ensures
            match r {
                Some(p) => proposal_of(self@, vault_id, proposal_id) == Some(p@),
                None => proposal_of(self@, vault_id, proposal_id) is None,
            },
    {
        let i = match self.vault_index(vault_id) {
            None => return None,
            Some(i) => i,
        };
        proof { self.lemma_view_index(i as int); }
        if proposal_id < 1 || proposal_id > self.vaults[i].proposals.len() as u64 {
            return None;
        }
        let k = (proposal_id - 1) as usize;
        assert(self@.vaults[i as int].proposals[k as int] == self.vaults@[i as int].proposals@[k as int]@);
        let p = &self.vaults[i].proposals[k];
        let r = MultiSigProposal {
            id: p.id,
            operation: p.operation,
            approvals: Self::copy_addresses(&p.approvals),
            status: p.status,
            expires_at: p.expires_at,
            vault_id: p.vault_id,
            payload: copy_vec(&p.payload),
            address_payload: p.address_payload,
            created_at: p.created_at,
        };
        assert(r@ =~= p@);
        Some(r)
    }
}

} // verus!
