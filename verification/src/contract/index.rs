use vstd::prelude::*;
use crate::contract::state::{ids_for, without_pair};
use crate::contract::types::Address;

verus! {

/// The vault ids indexed under `addr`, in index order.
pub fn ids_for_exec(pairs: &Vec<(Address, u64)>, addr: Address) -> (r: Vec<u64>)
    ensures
        r@ == ids_for(pairs@, addr),
{
    let mut r: Vec<u64> = Vec::new();
    let mut i: usize = 0;
    while i < pairs.len()
        invariant
            i <= pairs@.len(),
            r@ == ids_for(pairs@.subrange(0, i as int), addr),
        decreases pairs@.len() - i,
    {
        let (a, id) = pairs[i];
        assert(pairs@.subrange(0, i + 1).drop_last() =~= pairs@.subrange(0, i as int));
        if a == addr {
            r.push(id);
        }
        i = i + 1;
    }
    assert(pairs@.subrange(0, pairs@.len() as int) =~= pairs@);
    r
}

/// Removes every (addr, id) pair from an index, keeping the order of the rest.
pub fn remove_pair(pairs: &mut Vec<(Address, u64)>, addr: Address, id: u64)
    ensures
        final(pairs)@ == without_pair(old(pairs)@, addr, id),
{
    let mut r: Vec<(Address, u64)> = Vec::new();
    let mut i: usize = 0;
    while i < pairs.len()
        invariant
            i <= pairs@.len(),
            pairs@ == old(pairs)@,
            r@ == without_pair(pairs@.subrange(0, i as int), addr, id),
        decreases pairs@.len() - i,
    {
        let p = pairs[i];
        assert(pairs@.subrange(0, i + 1).drop_last() =~= pairs@.subrange(0, i as int));
        if !(p.0 == addr && p.1 == id) {
            r.push(p);
        }
        i = i + 1;
    }
    assert(pairs@.subrange(0, pairs@.len() as int) =~= pairs@);
    *pairs = r;
}

} // verus!

verus! {

impl crate::contract::state::TtlVaultContract {
    /// Re-indexes vault `id` from beneficiary `from` to beneficiary `to`.
    pub(crate) fn move_beneficiary_index(&mut self, id: u64, from: Address, to: Address)
        ensures
            final(self)@ == (crate::contract::state::ContractView {
                beneficiary_index: without_pair(old(self)@.beneficiary_index, from, id).push((to, id)),
                ..old(self)@
            }),
    {
        remove_pair(&mut self.beneficiary_index, from, id);
        self.beneficiary_index.push((to, id));
    }

    /// Re-indexes vault `id` from owner `from` to owner `to`.
    pub(crate) fn move_owner_index(&mut self, id: u64, from: Address, to: Address)
        ensures
            final(self)@ == (crate::contract::state::ContractView {
                owner_index: without_pair(old(self)@.owner_index, from, id).push((to, id)),
                ..old(self)@
            }),
    {
        remove_pair(&mut self.owner_index, from, id);
        self.owner_index.push((to, id));
    }

    /// Removes vault `id` from the indexes of its owner and beneficiary.
    pub(crate) fn unindex(&mut self, id: u64, owner: Address, beneficiary: Address)
        ensures
            final(self)@ == (crate::contract::state::ContractView {
                owner_index: without_pair(old(self)@.owner_index, owner, id),
                beneficiary_index: without_pair(old(self)@.beneficiary_index, beneficiary, id),
                ..old(self)@
            }),
    {
        remove_pair(&mut self.owner_index, owner, id);
        remove_pair(&mut self.beneficiary_index, beneficiary, id);
    }
}

} // verus!
