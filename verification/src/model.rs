//! The scheduler as a mathematical value, and what each operation makes of it.
//!
//! The contracts of the executable scheduler are stated over [`State`]: each
//! operation's result is one of the functions below applied to the state
//! before the call.

use crate::behaviour::{CownAddress, Submission};
use vstd::prelude::*;

verus! {

/// What the scheduler knows at one moment.
pub struct State<B, H> {
    /// How many addresses have been issued so far. The cowns created are those
    /// at the addresses `0 .. issued`.
    pub issued: nat,
    /// The idle cowns: those that no admitted behaviour holds.
    pub available: Set<CownAddress>,
    /// The behaviours that wait for their cowns, oldest first.
    pub pending: Seq<Submission<B>>,
    /// The workers that nobody has joined yet, oldest first.
    pub handles: Seq<H>,
}

impl<B, H> State<B, H> {
    /// The state of a scheduler that has seen nothing yet.
    pub open spec fn initial() -> Self {
        State { issued: 0, available: Set::empty(), pending: Seq::empty(), handles: Seq::empty() }
    }

    /// Whether the cown at `address` has been created.
    pub open spec fn is_registered(self, address: CownAddress) -> bool {
        address < self.issued
    }

    /// The cowns created so far.
    pub open spec fn registered(self) -> Set<CownAddress> {
        Set::new(|address: CownAddress| self.is_registered(address))
    }

    /// The address that the next cown gets.
    pub open spec fn fresh(self) -> CownAddress
        recommends
            self.issued <= CownAddress::MAX,
    {
        self.issued as CownAddress
    }

    /// After `cown` has become idle.
    pub open spec fn registered_at(self, cown: CownAddress) -> Self {
        State { available: self.available.insert(cown), ..self }
    }

    /// After a cown has been created: it has the fresh address and is idle.
    pub open spec fn created(self) -> Self
        recommends
            self.issued <= CownAddress::MAX,
    {
        State { issued: self.issued + 1, ..self.registered_at(self.fresh()) }
    }

    /// After `behaviour` has joined the end of the queue.
    pub open spec fn submitted(self, behaviour: Submission<B>) -> Self {
        State { pending: self.pending.push(behaviour), ..self }
    }

    /// After the cowns in `cowns` have been handed back.
    pub open spec fn released(self, cowns: Set<CownAddress>) -> Self {
        State { available: self.available.union(cowns), ..self }
    }

    /// Whether the pending behaviour at `index` could run now: every cown it
    /// requires is idle.
    pub open spec fn eligible(self, index: int) -> bool {
        self.pending[index].required.subset_of(self.available)
    }

    /// Whether `index` is the place of the first pending behaviour that could
    /// run now.
    pub open spec fn admits(self, index: int) -> bool {
        &&& 0 <= index < self.pending.len()
        &&& self.eligible(index)
        &&& forall|earlier: int| 0 <= earlier < index ==> !self.eligible(earlier)
    }

    /// The place in the queue of the behaviour that is admitted next, if any
    /// can run.
    pub open spec fn first_eligible(self) -> Option<int> {
        if exists|index: int| self.admits(index) {
            Some(choose|index: int| self.admits(index))
        } else {
            None
        }
    }

    /// The behaviour that one admission hands to a worker.
    pub open spec fn admitted(self) -> Option<Submission<B>> {
        match self.first_eligible() {
            Some(index) => Some(self.pending[index]),
            None => None,
        }
    }

    /// After one admission: the first behaviour that could run has left the
    /// queue and taken its cowns with it. Where none can run, nothing changes.
    pub open spec fn signalled(self) -> Self {
        match self.first_eligible() {
            Some(index) => State {
                available: self.available.difference(self.pending[index].required),
                pending: self.pending.remove(index),
                ..self
            },
            None => self,
        }
    }

    /// After a worker has been spawned and is to be joined later.
    pub open spec fn adopted(self, handle: H) -> Self {
        State { handles: self.handles.push(handle), ..self }
    }

    /// The worker to join next, if any is left.
    pub open spec fn oldest(self) -> Option<H> {
        if self.handles.len() > 0 {
            Some(self.handles[0])
        } else {
            None
        }
    }

    /// After the oldest worker has been taken out to be joined.
    pub open spec fn ended(self) -> Self {
        if self.handles.len() > 0 {
            State { handles: self.handles.drop_first(), ..self }
        } else {
            self
        }
    }

    /// At most one place in the queue is the first that could run.
    pub proof fn lemma_admits_unique(self, index: int, other: int)
        requires
            self.admits(index),
            self.admits(other),
        ensures
            index == other,
    {
    }

    /// The behaviour admitted is the one at the first place that could run.
    pub proof fn lemma_first_eligible(self, index: int)
        requires
            self.admits(index),
        ensures
            self.first_eligible() == Some(index),
    {
        let chosen = choose|index: int| self.admits(index);
        self.lemma_admits_unique(index, chosen);
    }

    /// Nothing is admitted exactly when no pending behaviour could run.
    pub proof fn lemma_none_eligible(self)
        ensures
            self.first_eligible() is None <==> forall|index: int|
                0 <= index < self.pending.len() ==> !self.eligible(index),
            self.first_eligible() matches Some(index) ==> self.admits(index),
    {
        if exists|index: int| 0 <= index < self.pending.len() && self.eligible(index) {
            let some = choose|index: int| 0 <= index < self.pending.len() && self.eligible(index);
            let first = self.lemma_least_eligible(some);
            self.lemma_first_eligible(first);
        }
    }

    /// Below any place that could run lies the first that could.
    pub proof fn lemma_least_eligible(self, index: int) -> (first: int)
        requires
            0 <= index < self.pending.len(),
            self.eligible(index),
        ensures
            self.admits(first),
            first <= index,
        decreases index,
    {
        if exists|earlier: int| 0 <= earlier < index && self.eligible(earlier) {
            let earlier = choose|earlier: int| 0 <= earlier < index && self.eligible(earlier);
            self.lemma_least_eligible(earlier)
        } else {
            index
        }
    }
}

} // verus!
