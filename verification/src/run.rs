//! Submission by a group of cowns held by value.
//!
//! A group is no cown at all, one cown, or a tuple of two to twelve cowns,
//! each with a resource type of its own. The cowns are required in the order
//! in which the group lists them.

use crate::behaviour::{aliasing, Behaviour, CownAddress, Submission};
use crate::cown::Cown;
use crate::scheduler::{dispatched, schedule, Scheduler};
use vstd::prelude::*;

verus! {

/// A group of cowns that one behaviour requires together.
pub trait Run {
    /// The addresses of the cowns of the group, in their order.
    spec fn required(&self) -> Seq<CownAddress>;

    /// Whether two cowns of the group are the same cown. A group of which
    /// this holds may not be submitted.
    fn aliasing(&self) -> (found: bool)
        ensures
            found == !self.required().no_duplicates(),
    ;

    /// Submits a behaviour that requires the cowns of this group and has
    /// `function` as its body, then admits one behaviour.
    ///
    /// No two cowns of the group are the same cown. The behaviour joins the
    /// end of the queue; the first pending behaviour whose cowns are all idle
    /// is then admitted and returned.
    fn run<Body, Handle>(&self, scheduler: &mut Scheduler<Body, Handle>, function: Body) -> (dispatch:
        Option<Behaviour<Body>>)
        requires
            self.required().no_duplicates(),
        ensures
            final(scheduler)@ == old(scheduler)@.submitted(
                Submission { required: self.required().to_set(), body: function },
            ).signalled(),
            dispatched(dispatch) == old(scheduler)@.submitted(
                Submission { required: self.required().to_set(), body: function },
            ).admitted(),
    ;
}

impl Run for () {
    open spec fn required(&self) -> Seq<CownAddress> {
        seq![]
    }

    fn aliasing(&self) -> (found: bool) {
        let addresses: [CownAddress; 0] = [];
        assert(addresses@ =~= self.required());
        aliasing(&addresses)
    }

    fn run<Body, Handle>(&self, scheduler: &mut Scheduler<Body, Handle>, function: Body) -> (dispatch:
        Option<Behaviour<Body>>) {
        let addresses: [CownAddress; 0] = [];
        assert(addresses@ =~= self.required());
        schedule(scheduler, &addresses, function)
    }
}

impl<A> Run for Cown<A> {
    open spec fn required(&self) -> Seq<CownAddress> {
        seq![self.spec_address()]
    }

    fn aliasing(&self) -> (found: bool) {
        let addresses: [CownAddress; 1] = [Cown::address(self)];
        assert(addresses@ =~= self.required());
        aliasing(&addresses)
    }

    fn run<Body, Handle>(&self, scheduler: &mut Scheduler<Body, Handle>, function: Body) -> (dispatch:
        Option<Behaviour<Body>>) {
        let addresses: [CownAddress; 1] = [Cown::address(self)];
        assert(addresses@ =~= self.required());
        schedule(scheduler, &addresses, function)
    }
}

impl<A, B> Run for (Cown<A>, Cown<B>) {
    open spec fn required(&self) -> Seq<CownAddress> {
        seq![self.0.spec_address(), self.1.spec_address()]
    }

    fn aliasing(&self) -> (found: bool) {
        let addresses: [CownAddress; 2] = [Cown::address(&self.0), Cown::address(&self.1)];
        assert(addresses@ =~= self.required());
        aliasing(&addresses)
    }

    fn run<Body, Handle>(&self, scheduler: &mut Scheduler<Body, Handle>, function: Body) -> (dispatch:
        Option<Behaviour<Body>>) {
        let addresses: [CownAddress; 2] = [Cown::address(&self.0), Cown::address(&self.1)];
        assert(addresses@ =~= self.required());
        schedule(scheduler, &addresses, function)
    }
}

impl<A, B, C> Run for (Cown<A>, Cown<B>, Cown<C>) {
    open spec fn required(&self) -> Seq<CownAddress> {
        seq![self.0.spec_address(), self.1.spec_address(), self.2.spec_address()]
    }

    fn aliasing(&self) -> (found: bool) {
        let addresses: [CownAddress; 3] = [
            Cown::address(&self.0),
            Cown::address(&self.1),
            Cown::address(&self.2),
        ];
        assert(addresses@ =~= self.required());
        aliasing(&addresses)
    }

    fn run<Body, Handle>(&self, scheduler: &mut Scheduler<Body, Handle>, function: Body) -> (dispatch:
        Option<Behaviour<Body>>) {
        let addresses: [CownAddress; 3] = [
            Cown::address(&self.0),
            Cown::address(&self.1),
            Cown::address(&self.2),
        ];
        assert(addresses@ =~= self.required());
        schedule(scheduler, &addresses, function)
    }
}

impl<A, B, C, D> Run for (Cown<A>, Cown<B>, Cown<C>, Cown<D>) {
    open spec fn required(&self) -> Seq<CownAddress> {
        seq![
            self.0.spec_address(),
            self.1.spec_address(),
            self.2.spec_address(),
            self.3.spec_address(),
        ]
    }

    fn aliasing(&self) -> (found: bool) {
        let addresses: [CownAddress; 4] = [
            Cown::address(&self.0),
            Cown::address(&self.1),
            Cown::address(&self.2),
            Cown::address(&self.3),
        ];
        assert(addresses@ =~= self.required());
        aliasing(&addresses)
    }

    fn run<Body, Handle>(&self, scheduler: &mut Scheduler<Body, Handle>, function: Body) -> (dispatch:
        Option<Behaviour<Body>>) {
        let addresses: [CownAddress; 4] = [
            Cown::address(&self.0),
            Cown::address(&self.1),
            Cown::address(&self.2),
            Cown::address(&self.3),
        ];
        assert(addresses@ =~= self.required());
        schedule(scheduler, &addresses, function)
    }
}

impl<A, B, C, D, E> Run for (Cown<A>, Cown<B>, Cown<C>, Cown<D>, Cown<E>) {
    open spec fn required(&self) -> Seq<CownAddress> {
        seq![
            self.0.spec_address(),
            self.1.spec_address(),
            self.2.spec_address(),
            self.3.spec_address(),
            self.4.spec_address(),
        ]
    }

    fn aliasing(&self) -> (found: bool) {
        let addresses: [CownAddress; 5] = [
            Cown::address(&self.0),
            Cown::address(&self.1),
            Cown::address(&self.2),
            Cown::address(&self.3),
            Cown::address(&self.4),
        ];
        assert(addresses@ =~= self.required());
        aliasing(&addresses)
    }

    fn run<Body, Handle>(&self, scheduler: &mut Scheduler<Body, Handle>, function: Body) -> (dispatch:
        Option<Behaviour<Body>>) {
        let addresses: [CownAddress; 5] = [
            Cown::address(&self.0),
            Cown::address(&self.1),
            Cown::address(&self.2),
            Cown::address(&self.3),
            Cown::address(&self.4),
        ];
        assert(addresses@ =~= self.required());
        schedule(scheduler, &addresses, function)
    }
}

impl<A, B, C, D, E, F> Run for (Cown<A>, Cown<B>, Cown<C>, Cown<D>, Cown<E>, Cown<F>) {
    open spec fn required(&self) -> Seq<CownAddress> {
        seq![
            self.0.spec_address(),
            self.1.spec_address(),
            self.2.spec_address(),
            self.3.spec_address(),
            self.4.spec_address(),
            self.5.spec_address(),
        ]
    }

    fn aliasing(&self) -> (found: bool) {
        let addresses: [CownAddress; 6] = [
            Cown::address(&self.0),
            Cown::address(&self.1),
            Cown::address(&self.2),
            Cown::address(&self.3),
            Cown::address(&self.4),
            Cown::address(&self.5),
        ];
        assert(addresses@ =~= self.required());
        aliasing(&addresses)
    }

    fn run<Body, Handle>(&self, scheduler: &mut Scheduler<Body, Handle>, function: Body) -> (dispatch:
        Option<Behaviour<Body>>) {
        let addresses: [CownAddress; 6] = [
            Cown::address(&self.0),
            Cown::address(&self.1),
            Cown::address(&self.2),
            Cown::address(&self.3),
            Cown::address(&self.4),
            Cown::address(&self.5),
        ];
        assert(addresses@ =~= self.required());
        schedule(scheduler, &addresses, function)
    }
}

impl<A, B, C, D, E, F, G> Run for (Cown<A>, Cown<B>, Cown<C>, Cown<D>, Cown<E>, Cown<F>, Cown<G>) {
    open spec fn required(&self) -> Seq<CownAddress> {
        seq![
            self.0.spec_address(),
            self.1.spec_address(),
            self.2.spec_address(),
            self.3.spec_address(),
            self.4.spec_address(),
            self.5.spec_address(),
            self.6.spec_address(),
        ]
    }

    fn aliasing(&self) -> (found: bool) {
        let addresses: [CownAddress; 7] = [
            Cown::address(&self.0),
            Cown::address(&self.1),
            Cown::address(&self.2),
            Cown::address(&self.3),
            Cown::address(&self.4),
            Cown::address(&self.5),
            Cown::address(&self.6),
        ];
        assert(addresses@ =~= self.required());
        aliasing(&addresses)
    }

    fn run<Body, Handle>(&self, scheduler: &mut Scheduler<Body, Handle>, function: Body) -> (dispatch:
        Option<Behaviour<Body>>) {
        let addresses: [CownAddress; 7] = [
            Cown::address(&self.0),
            Cown::address(&self.1),
            Cown::address(&self.2),
            Cown::address(&self.3),
            Cown::address(&self.4),
            Cown::address(&self.5),
            Cown::address(&self.6),
        ];
        assert(addresses@ =~= self.required());
        schedule(scheduler, &addresses, function)
    }
}

impl<A, B, C, D, E, F, G, H> Run for (
    Cown<A>,
    Cown<B>,
    Cown<C>,
    Cown<D>,
    Cown<E>,
    Cown<F>,
    Cown<G>,
    Cown<H>,
) {
    open spec fn required(&self) -> Seq<CownAddress> {
        seq![
            self.0.spec_address(),
            self.1.spec_address(),
            self.2.spec_address(),
            self.3.spec_address(),
            self.4.spec_address(),
            self.5.spec_address(),
            self.6.spec_address(),
            self.7.spec_address(),
        ]
    }

    fn aliasing(&self) -> (found: bool) {
        let addresses: [CownAddress; 8] = [
            Cown::address(&self.0),
            Cown::address(&self.1),
            Cown::address(&self.2),
            Cown::address(&self.3),
            Cown::address(&self.4),
            Cown::address(&self.5),
            Cown::address(&self.6),
            Cown::address(&self.7),
        ];
        assert(addresses@ =~= self.required());
        aliasing(&addresses)
    }

    fn run<Body, Handle>(&self, scheduler: &mut Scheduler<Body, Handle>, function: Body) -> (dispatch:
        Option<Behaviour<Body>>) {
        let addresses: [CownAddress; 8] = [
            Cown::address(&self.0),
            Cown::address(&self.1),
            Cown::address(&self.2),
            Cown::address(&self.3),
            Cown::address(&self.4),
            Cown::address(&self.5),
            Cown::address(&self.6),
            Cown::address(&self.7),
        ];
        assert(addresses@ =~= self.required());
        schedule(scheduler, &addresses, function)
    }
}

impl<A, B, C, D, E, F, G, H, I> Run for (
    Cown<A>,
    Cown<B>,
    Cown<C>,
    Cown<D>,
    Cown<E>,
    Cown<F>,
    Cown<G>,
    Cown<H>,
    Cown<I>,
) {
    open spec fn required(&self) -> Seq<CownAddress> {
        seq![
            self.0.spec_address(),
            self.1.spec_address(),
            self.2.spec_address(),
            self.3.spec_address(),
            self.4.spec_address(),
            self.5.spec_address(),
            self.6.spec_address(),
            self.7.spec_address(),
            self.8.spec_address(),
        ]
    }

    fn aliasing(&self) -> (found: bool) {
        let addresses: [CownAddress; 9] = [
            Cown::address(&self.0),
            Cown::address(&self.1),
            Cown::address(&self.2),
            Cown::address(&self.3),
            Cown::address(&self.4),
            Cown::address(&self.5),
            Cown::address(&self.6),
            Cown::address(&self.7),
            Cown::address(&self.8),
        ];
        assert(addresses@ =~= self.required());
        aliasing(&addresses)
    }

    fn run<Body, Handle>(&self, scheduler: &mut Scheduler<Body, Handle>, function: Body) -> (dispatch:
        Option<Behaviour<Body>>) {
        let addresses: [CownAddress; 9] = [
            Cown::address(&self.0),
            Cown::address(&self.1),
            Cown::address(&self.2),
            Cown::address(&self.3),
            Cown::address(&self.4),
            Cown::address(&self.5),
            Cown::address(&self.6),
            Cown::address(&self.7),
            Cown::address(&self.8),
        ];
        assert(addresses@ =~= self.required());
        schedule(scheduler, &addresses, function)
    }
}

impl<A, B, C, D, E, F, G, H, I, J> Run for (
    Cown<A>,
    Cown<B>,
    Cown<C>,
    Cown<D>,
    Cown<E>,
    Cown<F>,
    Cown<G>,
    Cown<H>,
    Cown<I>,
    Cown<J>,
) {
    open spec fn required(&self) -> Seq<CownAddress> {
        seq![
            self.0.spec_address(),
            self.1.spec_address(),
            self.2.spec_address(),
            self.3.spec_address(),
            self.4.spec_address(),
            self.5.spec_address(),
            self.6.spec_address(),
            self.7.spec_address(),
            self.8.spec_address(),
            self.9.spec_address(),
        ]
    }

    fn aliasing(&self) -> (found: bool) {
        let addresses: [CownAddress; 10] = [
            Cown::address(&self.0),
            Cown::address(&self.1),
            Cown::address(&self.2),
            Cown::address(&self.3),
            Cown::address(&self.4),
            Cown::address(&self.5),
            Cown::address(&self.6),
            Cown::address(&self.7),
            Cown::address(&self.8),
            Cown::address(&self.9),
        ];
        assert(addresses@ =~= self.required());
        aliasing(&addresses)
    }

    fn run<Body, Handle>(&self, scheduler: &mut Scheduler<Body, Handle>, function: Body) -> (dispatch:
        Option<Behaviour<Body>>) {
        let addresses: [CownAddress; 10] = [
            Cown::address(&self.0),
            Cown::address(&self.1),
            Cown::address(&self.2),
            Cown::address(&self.3),
            Cown::address(&self.4),
            Cown::address(&self.5),
            Cown::address(&self.6),
            Cown::address(&self.7),
            Cown::address(&self.8),
            Cown::address(&self.9),
        ];
        assert(addresses@ =~= self.required());
        schedule(scheduler, &addresses, function)
    }
}

impl<A, B, C, D, E, F, G, H, I, J, K> Run for (
    Cown<A>,
    Cown<B>,
    Cown<C>,
    Cown<D>,
    Cown<E>,
    Cown<F>,
    Cown<G>,
    Cown<H>,
    Cown<I>,
    Cown<J>,
    Cown<K>,
) {
    open spec fn required(&self) -> Seq<CownAddress> {
        seq![
            self.0.spec_address(),
            self.1.spec_address(),
            self.2.spec_address(),
            self.3.spec_address(),
            self.4.spec_address(),
            self.5.spec_address(),
            self.6.spec_address(),
            self.7.spec_address(),
            self.8.spec_address(),
            self.9.spec_address(),
            self.10.spec_address(),
        ]
    }

    fn aliasing(&self) -> (found: bool) {
        let addresses: [CownAddress; 11] = [
            Cown::address(&self.0),
            Cown::address(&self.1),
            Cown::address(&self.2),
            Cown::address(&self.3),
            Cown::address(&self.4),
            Cown::address(&self.5),
            Cown::address(&self.6),
            Cown::address(&self.7),
            Cown::address(&self.8),
            Cown::address(&self.9),
            Cown::address(&self.10),
        ];
        assert(addresses@ =~= self.required());
        aliasing(&addresses)
    }

    fn run<Body, Handle>(&self, scheduler: &mut Scheduler<Body, Handle>, function: Body) -> (dispatch:
        Option<Behaviour<Body>>) {
        let addresses: [CownAddress; 11] = [
            Cown::address(&self.0),
            Cown::address(&self.1),
            Cown::address(&self.2),
            Cown::address(&self.3),
            Cown::address(&self.4),
            Cown::address(&self.5),
            Cown::address(&self.6),
            Cown::address(&self.7),
            Cown::address(&self.8),
            Cown::address(&self.9),
            Cown::address(&self.10),
        ];
        assert(addresses@ =~= self.required());
        schedule(scheduler, &addresses, function)
    }
}

impl<A, B, C, D, E, F, G, H, I, J, K, L> Run for (
    Cown<A>,
    Cown<B>,
    Cown<C>,
    Cown<D>,
    Cown<E>,
    Cown<F>,
    Cown<G>,
    Cown<H>,
    Cown<I>,
    Cown<J>,
    Cown<K>,
    Cown<L>,
) {
    open spec fn required(&self) -> Seq<CownAddress> {
        seq![
            self.0.spec_address(),
            self.1.spec_address(),
            self.2.spec_address(),
            self.3.spec_address(),
            self.4.spec_address(),
            self.5.spec_address(),
            self.6.spec_address(),
            self.7.spec_address(),
            self.8.spec_address(),
            self.9.spec_address(),
            self.10.spec_address(),
            self.11.spec_address(),
        ]
    }

    fn aliasing(&self) -> (found: bool) {
        let addresses: [CownAddress; 12] = [
            Cown::address(&self.0),
            Cown::address(&self.1),
            Cown::address(&self.2),
            Cown::address(&self.3),
            Cown::address(&self.4),
            Cown::address(&self.5),
            Cown::address(&self.6),
            Cown::address(&self.7),
            Cown::address(&self.8),
            Cown::address(&self.9),
            Cown::address(&self.10),
            Cown::address(&self.11),
        ];
        assert(addresses@ =~= self.required());
        aliasing(&addresses)
    }

    fn run<Body, Handle>(&self, scheduler: &mut Scheduler<Body, Handle>, function: Body) -> (dispatch:
        Option<Behaviour<Body>>) {
        let addresses: [CownAddress; 12] = [
            Cown::address(&self.0),
            Cown::address(&self.1),
            Cown::address(&self.2),
            Cown::address(&self.3),
            Cown::address(&self.4),
            Cown::address(&self.5),
            Cown::address(&self.6),
            Cown::address(&self.7),
            Cown::address(&self.8),
            Cown::address(&self.9),
            Cown::address(&self.10),
            Cown::address(&self.11),
        ];
        assert(addresses@ =~= self.required());
        schedule(scheduler, &addresses, function)
    }
}

} // verus!
