//! The handle to a registered resource.

use crate::behaviour::CownAddress;
use crate::scheduler::{register, Scheduler};
use std::sync::Arc;
use vstd::prelude::*;

verus! {

/// A handle to a resource that the scheduler knows under an address.
///
/// Handles are cheap to duplicate. Every duplicate points to the same
/// resource and carries the same address, so the scheduler takes two
/// duplicates for the one cown that they are.
///
/// `T` is the cell that holds the resource. The library never looks into it:
/// whoever runs a behaviour's body reaches the resource through the cell, and
/// may do so because the scheduler admitted the behaviour.
pub struct Cown<T> {
    address: CownAddress,
    resource: Arc<T>,
}

/// `Arc::clone`: the result points to the allocation that `resource` points
/// to, so both hold the same value.
#[verifier::external_body]
fn share<T>(resource: &Arc<T>) -> (shared: Arc<T>)
    ensures
        shared == *resource,
{
    Arc::clone(resource)
}

impl<T> Cown<T> {
    /// The address under which the scheduler knows this cown.
    pub closed spec fn spec_address(self) -> CownAddress {
        self.address
    }

    /// The cell that this handle points to.
    pub closed spec fn spec_resource(self) -> T {
        *self.resource
    }

    /// Creates a cown that owns `resource`, and registers it with
    /// `scheduler` as idle.
    ///
    /// The cown gets an address that no cown of this scheduler has had. The
    /// scheduler must have an address left, which [`Scheduler::has_room`]
    /// tells.
    pub fn create<B, H>(scheduler: &mut Scheduler<B, H>, resource: T) -> (cown: Cown<T>)
        requires
            old(scheduler)@.issued < CownAddress::MAX,
        ensures
            cown.spec_address() == old(scheduler)@.fresh(),
            cown.spec_resource() == resource,
            final(scheduler)@ == old(scheduler)@.created(),
    {
        let address = scheduler.issue();
        let cown = Cown { address, resource: Arc::new(resource) };
        register(scheduler, Cown::address(&cown));
        cown
    }

    /// The address of `cown`.
    pub fn address(cown: &Cown<T>) -> (address: CownAddress)
        ensures
            address == cown.spec_address(),
    {
        cown.address
    }

    /// Another pointer to the cell of this cown, for a behaviour's body to keep.
    pub fn resource(&self) -> (resource: Arc<T>)
        ensures
            *resource == self.spec_resource(),
    {
        share(&self.resource)
    }
}

impl<T> Clone for Cown<T> {
    /// Another handle to the same cown.
    fn clone(&self) -> (duplicate: Cown<T>)
        ensures
            duplicate == *self,
    {
        Cown { address: self.address, resource: share(&self.resource) }
    }
}

} // verus!
