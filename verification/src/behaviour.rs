//! Addresses, and the record of a behaviour waiting for its cowns.

use std::collections::HashSet;
use vstd::prelude::*;

verus! {

broadcast use vstd::std_specs::hash::group_hash_axioms;

/// The identity of a cown. Every handle to one resource carries the same
/// address, and no two resources share one.
pub type CownAddress = u64;

/// A behaviour as a mathematical value: the set of cowns it requires and its
/// body.
pub struct Submission<B> {
    pub required: Set<CownAddress>,
    pub body: B,
}

/// A behaviour: the cowns it requires, and the body to run once it holds
/// them all.
pub struct Behaviour<B> {
    pub required: HashSet<CownAddress>,
    pub body: B,
}

impl<B> View for Behaviour<B> {
    type V = Submission<B>;

    open spec fn view(&self) -> Submission<B> {
        Submission { required: self.required@, body: self.body }
    }
}

/// Whether `required` names one cown twice.
///
/// A behaviour that did would need two exclusive borrows of one resource at
/// once, so no such list may be submitted: whoever takes a list from outside
/// asks here first.
pub fn aliasing(required: &[CownAddress]) -> (found: bool)
    ensures
        found == !required@.no_duplicates(),
{
    let mut addresses: HashSet<CownAddress> = HashSet::new();
    let mut i: usize = 0;
    while i < required.len()
        invariant
            i <= required.len(),
            required@.take(i as int).no_duplicates(),
            addresses@ == required@.take(i as int).to_set(),
        decreases required.len() - i,
    {
        let address: CownAddress = required[i];
        let ghost seen = required@.take(i as int);
        assert(required@.take(i + 1) == seen.push(address));
        if addresses.contains(&address) {
            proof {
                let j = choose|j: int| 0 <= j < seen.len() && seen[j] == address;
                assert(required@[j] == required@[i as int]);
            }
            return true;
        }
        addresses.insert(address);
        proof {
            seen.lemma_push_to_set_commute(address);
        }
        i += 1;
    }
    assert(required@.take(i as int) == required@);
    false
}

impl<B> Behaviour<B> {
    /// Builds the record of a behaviour that requires the cowns at `required`
    /// and carries `body`.
    ///
    /// The list names no cown twice; [`aliasing`] tells whether one does.
    pub fn new(required: &[CownAddress], body: B) -> (made: Behaviour<B>)
        requires
            required@.no_duplicates(),
        ensures
            made@ == (Submission { required: required@.to_set(), body }),
    {
        let mut addresses: HashSet<CownAddress> = HashSet::new();
        let mut i: usize = 0;
        while i < required.len()
            invariant
                i <= required.len(),
                addresses@ == required@.take(i as int).to_set(),
            decreases required.len() - i,
        {
            let address: CownAddress = required[i];
            let ghost seen = required@.take(i as int);
            assert(required@.take(i + 1) == seen.push(address));
            addresses.insert(address);
            proof {
                seen.lemma_push_to_set_commute(address);
            }
            i += 1;
        }
        assert(required@.take(i as int) == required@);
        Behaviour { required: addresses, body }
    }
}

} // verus!
