//! Submission by a group of cowns held by reference.
//!
//! A group is a reference to one cown, or a tuple of references to two or to
//! five cowns. The cowns are required in the order in which the group lists
//! them.

use crate::behaviour::{aliasing, Behaviour, CownAddress, Submission};
use crate::cown::Cown;
use crate::scheduler::{dispatched, schedule, Scheduler};
use vstd::prelude::*;

verus! {

/// A group of borrowed cowns that one behaviour requires together.
pub trait When {
    /// The addresses of the cowns of the group, in their order.
    spec fn required(&self) -> Seq<CownAddress>;

    /// Whether two cowns of the group are the same cown. A group of which
    /// this holds may not be submitted.
    fn aliasing(&self) -> (found: bool)
        ensures
            found == !self.required().no_duplicates(),
    ;

    /// Submits a behaviour that requires the cowns of this group and has
    /// `f` as its body, then admits one behaviour.
    ///
    /// No two cowns of the group are the same cown. The behaviour joins the
    /// end of the queue; the first pending behaviour whose cowns are all idle
    /// is then admitted and returned.
    fn when<Body, Handle>(&self, scheduler: &mut Scheduler<Body, Handle>, f: Body) -> (dispatch:
        Option<Behaviour<Body>>)
        requires
            self.required().no_duplicates(),
        ensures
            final(scheduler)@ == old(scheduler)@.submitted(
                Submission { required: self.required().to_set(), body: f },
            ).signalled(),
            dispatched(dispatch) == old(scheduler)@.submitted(
                Submission { required: self.required().to_set(), body: f },
            ).admitted(),
    ;
}

impl<T> When for &Cown<T> {
    open spec fn required(&self) -> Seq<CownAddress> {
        seq![self.spec_address()]
    }

    fn aliasing(&self) -> (found: bool) {
        let addresses: [CownAddress; 1] = [Cown::address(self)];
        assert(addresses@ =~= self.required());
        aliasing(&addresses)
    }

    fn when<Body, Handle>(&self, scheduler: &mut Scheduler<Body, Handle>, f: Body) -> (dispatch:
        Option<Behaviour<Body>>) {
        let addresses: [CownAddress; 1] = [Cown::address(self)];
        assert(addresses@ =~= self.required());
        schedule(scheduler, &addresses, f)
    }
}

impl<T, U> When for (&Cown<T>, &Cown<U>) {
    open spec fn required(&self) -> Seq<CownAddress> {
        seq![self.0.spec_address(), self.1.spec_address()]
    }

    fn aliasing(&self) -> (found: bool) {
        let addresses: [CownAddress; 2] = [Cown::address(self.0), Cown::address(self.1)];
        assert(addresses@ =~= self.required());
        aliasing(&addresses)
    }

    fn when<Body, Handle>(&self, scheduler: &mut Scheduler<Body, Handle>, f: Body) -> (dispatch:
        Option<Behaviour<Body>>) {
        let addresses: [CownAddress; 2] = [Cown::address(self.0), Cown::address(self.1)];
        assert(addresses@ =~= self.required());
        schedule(scheduler, &addresses, f)
    }
}

impl<T, U, V, W, X> When for (&Cown<T>, &Cown<U>, &Cown<V>, &Cown<W>, &Cown<X>) {
    open spec fn required(&self) -> Seq<CownAddress> {
        seq![
            self.0.spec_address(),
            self.1.spec_address(),
            self.2.spec_address(),
            self.3.spec_address(),
            self.4.spec_address(),
        ]
    }

    fn aliasing(&self) -> (found: bool) {
        let addresses: [CownAddress; 5] = [
            Cown::address(self.0),
            Cown::address(self.1),
            Cown::address(self.2),
            Cown::address(self.3),
            Cown::address(self.4),
        ];
        assert(addresses@ =~= self.required());
        aliasing(&addresses)
    }

    fn when<Body, Handle>(&self, scheduler: &mut Scheduler<Body, Handle>, f: Body) -> (dispatch:
        Option<Behaviour<Body>>) {
        let addresses: [CownAddress; 5] = [
            Cown::address(self.0),
            Cown::address(self.1),
            Cown::address(self.2),
            Cown::address(self.3),
            Cown::address(self.4),
        ];
        assert(addresses@ =~= self.required());
        schedule(scheduler, &addresses, f)
    }
}

} // verus!
