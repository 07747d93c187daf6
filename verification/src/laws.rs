//! What holds of every run of the scheduler.
//!
//! The scheduler does not know which behaviours are running: once admitted, a
//! behaviour is in the hands of its worker. A [`System`] adds that knowledge
//! to the scheduler's state, and a [`Step`] is one thing that can happen to
//! it. The laws say what every sequence of steps preserves, and how
//! admission treats behaviours that wait together.
//!
//! The executable operations are made of these steps. Creating a cown is
//! `Create`. A submission is `Submit` and then `Signal`. A
//! worker that hands back the cowns of the behaviour it ran is `Release` of
//! that behaviour and then `Signal`. An admission alone is `Signal`; taking a
//! worker's handle in and out are `Adopt` and `End`.

use crate::behaviour::{CownAddress, Submission};
use crate::model::State;
use vstd::prelude::*;

verus! {

impl<B, H> State<B, H> {
    /// Where the pending behaviour at `place` is in the queue after one
    /// admission; `None` where it is the one admitted.
    pub open spec fn shifted(self, place: int) -> Option<int> {
        match self.first_eligible() {
            Some(index) => if index == place {
                None
            } else if index < place {
                Some(place - 1)
            } else {
                Some(place)
            },
            None => Some(place),
        }
    }

    /// A behaviour that is submitted joins the queue behind all that wait;
    /// nothing that waits changes its place.
    pub proof fn lemma_submission_joins_behind(self, behaviour: Submission<B>, place: int)
        requires
            0 <= place < self.pending.len(),
        ensures
            ({
                let queue = self.submitted(behaviour).pending;
                &&& queue.len() == self.pending.len() + 1
                &&& queue[place] == self.pending[place]
                &&& queue.last() == behaviour
            }),
    {
    }

    /// An admission takes one behaviour out of the queue and leaves the
    /// others in their order.
    pub proof fn lemma_admission_keeps_order(self, ahead: int, behind: int)
        requires
            0 <= ahead < behind < self.pending.len(),
            self.shifted(ahead) is Some,
            self.shifted(behind) is Some,
        ensures
            ({
                let queue = self.signalled().pending;
                let (front, back) = (self.shifted(ahead)->0, self.shifted(behind)->0);
                &&& 0 <= front < back < queue.len()
                &&& queue[front] == self.pending[ahead]
                &&& queue[back] == self.pending[behind]
            }),
    {
        self.lemma_none_eligible();
    }

    /// Of two pending behaviours that require the same cowns, an admission
    /// never takes the one that came later.
    pub proof fn lemma_older_goes_first(self, older: int, younger: int)
        requires
            0 <= older < younger < self.pending.len(),
            self.pending[older].required == self.pending[younger].required,
        ensures
            self.first_eligible() != Some(younger),
    {
        self.lemma_none_eligible();
        if self.first_eligible() == Some(younger) {
            assert(self.eligible(older));
        }
    }

    /// Independent behaviours do not wait for each other: admitting a
    /// behaviour leaves every pending behaviour that could run, and that has
    /// no cown in common with the admitted one, able to run.
    pub proof fn lemma_independent_stays_eligible(self, place: int)
        requires
            0 <= place < self.pending.len(),
            self.eligible(place),
            self.first_eligible() matches Some(index) && index != place
                && self.pending[index].required.disjoint(self.pending[place].required),
        ensures
            self.shifted(place) matches Some(next) && self.signalled().eligible(next),
    {
        self.lemma_none_eligible();
    }

    /// An admitted behaviour gets cowns that were idle, leaves none of them
    /// idle, and makes no other cown idle or busy.
    pub proof fn lemma_admission_takes_idle_cowns(self)
        requires
            self.admitted() is Some,
        ensures
            ({
                let taken = self.admitted()->0.required;
                &&& taken.subset_of(self.available)
                &&& taken.disjoint(self.signalled().available)
                &&& self.signalled().available.union(taken) == self.available
            }),
    {
        self.lemma_none_eligible();
        let taken = self.admitted()->0.required;
        assert(self.available.difference(taken).union(taken) =~= self.available);
    }

    /// Handing back what an admitted behaviour took makes the idle cowns
    /// what they were before the admission.
    pub proof fn lemma_release_undoes_admission(self)
        requires
            self.admitted() is Some,
        ensures
            self.signalled().released(self.admitted()->0.required).available == self.available,
    {
        self.lemma_admission_takes_idle_cowns();
    }

    /// A new cown lets no behaviour start that has not named it: where no
    /// pending behaviour requires the address that comes next, the creation
    /// of a cown leaves the admission as it was.
    pub proof fn lemma_creation_admits_nothing(self)
        requires
            self.issued < CownAddress::MAX,
            forall|place: int|
                0 <= place < self.pending.len() ==> !self.pending[place].required.contains(
                    self.fresh(),
                ),
        ensures
            self.created().first_eligible() == self.first_eligible(),
    {
        let after = self.created();
        assert forall|place: int| 0 <= place < self.pending.len() implies after.eligible(place)
            == self.eligible(place) by {
            let required = self.pending[place].required;
            if after.eligible(place) {
                assert forall|address: CownAddress| required.contains(
                    address,
                ) implies self.available.contains(address) by {
                    assert(after.available.contains(address));
                }
            }
        }
        self.lemma_none_eligible();
        after.lemma_none_eligible();
        match self.first_eligible() {
            Some(index) => {
                assert(after.admits(index));
                after.lemma_first_eligible(index);
            },
            None => {},
        }
    }

    /// No needless wait: where no pending behaviour can run, a behaviour
    /// whose cowns are all idle is admitted by its own submission, and the
    /// queue is as it was. A behaviour that requires no cown is such a one.
    pub proof fn lemma_idle_cowns_no_wait(self, behaviour: Submission<B>)
        requires
            self.first_eligible() is None,
            behaviour.required.subset_of(self.available),
        ensures
            ({
                let queued = self.submitted(behaviour);
                &&& queued.admitted() == Some(behaviour)
                &&& queued.signalled().pending == self.pending
                &&& queued.signalled().available == self.available.difference(behaviour.required)
            }),
    {
        let queued = self.submitted(behaviour);
        let last = self.pending.len() as int;
        self.lemma_none_eligible();
        assert forall|earlier: int| 0 <= earlier < last implies !queued.eligible(earlier) by {
            assert(!self.eligible(earlier));
        }
        assert(queued.admits(last));
        queued.lemma_first_eligible(last);
        assert(queued.pending.remove(last) =~= self.pending);
    }
}

/// The scheduler together with the behaviours that run.
pub struct System<B, H> {
    /// The scheduler's own state.
    pub scheduler: State<B, H>,
    /// The behaviours that were admitted and have not handed their cowns back
    /// yet, in the order of their admission.
    pub running: Seq<Submission<B>>,
}

/// One thing that happens to a system.
pub enum Step<B, H> {
    /// A cown is created.
    Create,
    /// A behaviour joins the queue.
    Submit(Submission<B>),
    /// One admission: the first pending behaviour that can run starts to.
    Signal,
    /// The running behaviour at this place returns and hands its cowns back.
    Release(int),
    /// A worker's handle is taken in.
    Adopt(H),
    /// The oldest worker's handle is taken out.
    End,
}

impl<B, H> System<B, H> {
    /// A system in which nothing has happened yet.
    pub open spec fn initial() -> Self {
        System { scheduler: State::initial(), running: Seq::empty() }
    }

    /// Whether the running behaviour at `place` holds the cown at `address`.
    pub open spec fn holds(self, place: int, address: CownAddress) -> bool {
        0 <= place < self.running.len() && self.running[place].required.contains(address)
    }

    /// Whether some running behaviour holds the cown at `address`.
    pub open spec fn held(self, address: CownAddress) -> bool {
        exists|place: int| self.holds(place, address)
    }

    /// No cown is held by two running behaviours.
    pub open spec fn exclusive(self) -> bool {
        forall|place: int, other: int, address: CownAddress|
            self.holds(place, address) && self.holds(other, address) ==> place == other
    }

    /// The idle cowns are exactly the created cowns that no running behaviour
    /// holds, and only created cowns are held.
    pub open spec fn ledger(self) -> bool {
        &&& forall|address: CownAddress|
            self.scheduler.available.contains(address) <==> self.scheduler.is_registered(address)
                && !self.held(address)
        &&& forall|place: int, address: CownAddress| #[trigger]
            self.holds(place, address) ==> self.scheduler.is_registered(address)
    }

    /// What holds of a system at every moment.
    pub open spec fn consistent(self) -> bool {
        self.exclusive() && self.ledger()
    }

    /// Whether nothing runs.
    pub open spec fn quiescent(self) -> bool {
        self.running.len() == 0
    }

    /// Whether `step` can happen now.
    pub open spec fn enabled(self, step: Step<B, H>) -> bool {
        match step {
            Step::Create => self.scheduler.issued < CownAddress::MAX,
            Step::Release(place) => 0 <= place < self.running.len(),
            _ => true,
        }
    }

    /// The system after `step`.
    pub open spec fn after(self, step: Step<B, H>) -> Self {
        match step {
            Step::Create => System { scheduler: self.scheduler.created(), ..self },
            Step::Submit(behaviour) => System {
                scheduler: self.scheduler.submitted(behaviour),
                ..self
            },
            Step::Signal => System {
                scheduler: self.scheduler.signalled(),
                running: match self.scheduler.admitted() {
                    Some(behaviour) => self.running.push(behaviour),
                    None => self.running,
                },
            },
            Step::Release(place) => System {
                scheduler: self.scheduler.released(self.running[place].required),
                running: self.running.remove(place),
            },
            Step::Adopt(handle) => System { scheduler: self.scheduler.adopted(handle), ..self },
            Step::End => System { scheduler: self.scheduler.ended(), ..self },
        }
    }

    /// Whether the steps in `steps` can happen one after another, from here.
    pub open spec fn feasible(self, steps: Seq<Step<B, H>>) -> bool
        decreases steps.len(),
    {
        steps.len() > 0 ==> self.enabled(steps[0]) && self.after(steps[0]).feasible(
            steps.drop_first(),
        )
    }

    /// The system after the steps in `steps`, one after another.
    pub open spec fn after_all(self, steps: Seq<Step<B, H>>) -> Self
        decreases steps.len(),
    {
        if steps.len() > 0 {
            self.after(steps[0]).after_all(steps.drop_first())
        } else {
            self
        }
    }

    /// What is held depends on the running behaviours alone.
    proof fn lemma_held_alike(self, other: Self)
        requires
            self.running == other.running,
        ensures
            forall|place: int, address: CownAddress|
                self.holds(place, address) == other.holds(place, address),
            forall|address: CownAddress| self.held(address) == other.held(address),
    {
        assert forall|address: CownAddress| self.held(address) == other.held(address) by {
            if self.held(address) {
                let place = choose|place: int| self.holds(place, address);
                assert(other.holds(place, address));
            }
            if other.held(address) {
                let place = choose|place: int| other.holds(place, address);
                assert(self.holds(place, address));
            }
        }
    }

    /// A new cown is idle and held by nobody.
    proof fn lemma_create_keeps_consistent(self)
        requires
            self.consistent(),
            self.enabled(Step::Create),
        ensures
            self.after(Step::Create).consistent(),
    {
        let next = self.after(Step::Create);
        let fresh = self.scheduler.fresh();
        self.lemma_held_alike(next);
        assert(!self.held(fresh)) by {
            if self.held(fresh) {
                let place = choose|place: int| self.holds(place, fresh);
                assert(self.holds(place, fresh));
            }
        }
    }

    /// The behaviour admitted takes idle cowns only, which nobody held.
    proof fn lemma_signal_keeps_consistent(self)
        requires
            self.consistent(),
        ensures
            self.after(Step::Signal).consistent(),
    {
        let next = self.after(Step::Signal);
        self.scheduler.lemma_none_eligible();
        if let Some(index) = self.scheduler.first_eligible() {
            let taken = self.scheduler.pending[index].required;
            let last = self.running.len() as int;
            assert forall|place: int, address: CownAddress|
                next.holds(place, address) <==> self.holds(place, address) || (place == last
                    && taken.contains(address)) by {}
            assert forall|address: CownAddress|
                next.held(address) <==> self.held(address) || taken.contains(address) by {
                if self.held(address) {
                    let place = choose|place: int| self.holds(place, address);
                    assert(next.holds(place, address));
                }
                if taken.contains(address) {
                    assert(next.holds(last, address));
                }
                if next.held(address) {
                    let place = choose|place: int| next.holds(place, address);
                    assert(self.holds(place, address) || taken.contains(address));
                }
            }
            assert forall|place: int, other: int, address: CownAddress|
                next.holds(place, address) && next.holds(other, address) implies place
                == other by {
                if taken.contains(address) {
                    assert(self.scheduler.available.contains(address));
                    assert(!self.held(address));
                    assert(!self.holds(place, address) && !self.holds(other, address));
                }
            }
        } else {
            self.lemma_held_alike(next);
        }
    }

    /// The place before a release of the running behaviour that is at `place`
    /// after it.
    spec fn before_release(gone: int, place: int) -> int {
        if place < gone {
            place
        } else {
            place + 1
        }
    }

    /// The cowns handed back were held by the behaviour that returns, and by
    /// no other.
    proof fn lemma_release_keeps_consistent(self, gone: int)
        requires
            self.consistent(),
            self.enabled(Step::Release(gone)),
        ensures
            self.after(Step::Release(gone)).consistent(),
    {
        let next = self.after(Step::Release(gone));
        let returned = self.running[gone].required;
        assert forall|place: int, address: CownAddress| next.holds(place, address) implies self.holds(
            Self::before_release(gone, place),
            address,
        ) by {}
        assert forall|address: CownAddress| self.held(address) <==> next.held(address)
            || returned.contains(address) by {
            if self.held(address) && !returned.contains(address) {
                let place = choose|place: int| self.holds(place, address);
                let after = if place < gone {
                    place
                } else {
                    place - 1
                };
                assert(next.holds(after, address));
            }
            if returned.contains(address) {
                assert(self.holds(gone, address));
            }
            if next.held(address) {
                let place = choose|place: int| next.holds(place, address);
                assert(self.holds(Self::before_release(gone, place), address));
            }
        }
        assert forall|address: CownAddress| returned.contains(address) implies !next.held(address)
            && self.scheduler.is_registered(address) by {
            assert(self.holds(gone, address));
            if next.held(address) {
                let place = choose|place: int| next.holds(place, address);
                assert(self.holds(Self::before_release(gone, place), address));
            }
        }
        assert forall|place: int, other: int, address: CownAddress|
            next.holds(place, address) && next.holds(other, address) implies place == other by {
            assert(self.holds(Self::before_release(gone, place), address));
            assert(self.holds(Self::before_release(gone, other), address));
        }
    }

    /// A step that can happen keeps a consistent system consistent.
    pub proof fn lemma_step_keeps_consistent(self, step: Step<B, H>)
        requires
            self.consistent(),
            self.enabled(step),
        ensures
            self.after(step).consistent(),
    {
        match step {
            Step::Create => {
                self.lemma_create_keeps_consistent();
            },
            Step::Signal => {
                self.lemma_signal_keeps_consistent();
            },
            Step::Release(gone) => {
                self.lemma_release_keeps_consistent(gone);
            },
            _ => {
                self.lemma_held_alike(self.after(step));
            },
        }
    }

    /// Nothing is amiss before anything has happened.
    pub proof fn lemma_initially_consistent()
        ensures
            Self::initial().consistent(),
    {
        let start = Self::initial();
        assert forall|address: CownAddress| !start.held(address) by {
            if start.held(address) {
                let place = choose|place: int| start.holds(place, address);
                assert(start.holds(place, address));
            }
        }
    }

    /// Whatever happens to a consistent system, in whatever order, it stays
    /// consistent.
    pub proof fn lemma_always_consistent(self, steps: Seq<Step<B, H>>)
        requires
            self.consistent(),
            self.feasible(steps),
        ensures
            self.after_all(steps).consistent(),
        decreases steps.len(),
    {
        if steps.len() > 0 {
            self.lemma_step_keeps_consistent(steps[0]);
            self.after(steps[0]).lemma_always_consistent(steps.drop_first());
        }
    }

    /// Every run is consistent: whatever has happened since the scheduler was
    /// made, what the laws below require holds.
    pub proof fn lemma_every_run_is_consistent(steps: Seq<Step<B, H>>)
        requires
            Self::initial().feasible(steps),
        ensures
            Self::initial().after_all(steps).consistent(),
    {
        Self::lemma_initially_consistent();
        Self::initial().lemma_always_consistent(steps);
    }

    /// Exclusive access: two behaviours that run at the same time have no
    /// cown in common, and a cown that a running behaviour holds is not idle.
    pub proof fn lemma_exclusive_access(self, place: int, other: int)
        requires
            self.consistent(),
            0 <= place < self.running.len(),
            0 <= other < self.running.len(),
            place != other,
        ensures
            self.running[place].required.disjoint(self.running[other].required),
            self.running[place].required.disjoint(self.scheduler.available),
    {
        let required = self.running[place].required;
        assert forall|address: CownAddress|
            !(required.contains(address) && self.running[other].required.contains(address)) by {
            if required.contains(address) && self.running[other].required.contains(address) {
                assert(self.holds(place, address) && self.holds(other, address));
            }
        }
        assert forall|address: CownAddress|
            !(required.contains(address) && self.scheduler.available.contains(address)) by {
            if required.contains(address) {
                assert(self.holds(place, address));
            }
        }
    }

    /// No cown is lost: a cown that was created is idle or held by a running
    /// behaviour, never both and never neither. When nothing runs, the idle
    /// cowns are all the cowns that were ever created.
    pub proof fn lemma_no_cown_lost(self)
        requires
            self.consistent(),
        ensures
            forall|address: CownAddress|
                self.scheduler.is_registered(address) ==> (self.scheduler.available.contains(
                    address,
                ) <==> !self.held(address)),
            self.scheduler.available.subset_of(self.scheduler.registered()),
            self.quiescent() ==> self.scheduler.available == self.scheduler.registered(),
    {
        if self.quiescent() {
            assert forall|address: CownAddress| !self.held(address) by {
                if self.held(address) {
                    let place = choose|place: int| self.holds(place, address);
                    assert(self.holds(place, address));
                }
            }
            assert(self.scheduler.available =~= self.scheduler.registered());
        }
    }

    /// Nothing is left behind: when nothing runs and an admission finds no
    /// behaviour that can start, every behaviour that still waits requires a
    /// cown that was never created.
    pub proof fn lemma_quiescent_leaves_none(self, place: int)
        requires
            self.consistent(),
            self.quiescent(),
            self.scheduler.first_eligible() is None,
            0 <= place < self.scheduler.pending.len(),
        ensures
            !self.scheduler.pending[place].required.subset_of(self.scheduler.registered()),
    {
        self.lemma_no_cown_lost();
        self.scheduler.lemma_none_eligible();
        assert(!self.scheduler.eligible(place));
    }

    /// Where the pending behaviour at `place` is in the queue after `step`;
    /// `None` where the step admitted it.
    pub open spec fn moved(self, step: Step<B, H>, place: int) -> Option<int> {
        match step {
            Step::Signal => self.scheduler.shifted(place),
            _ => Some(place),
        }
    }

    /// Where the pending behaviour at `place` is in the queue after the steps
    /// in `steps`; `None` where one of them admitted it.
    pub open spec fn followed(self, steps: Seq<Step<B, H>>, place: int) -> Option<int>
        decreases steps.len(),
    {
        if steps.len() > 0 {
            match self.moved(steps[0], place) {
                Some(next) => self.after(steps[0]).followed(steps.drop_first(), next),
                None => None,
            }
        } else {
            Some(place)
        }
    }

    /// Whatever happens in one step, the later of two pending behaviours that
    /// require the same cowns stays in the queue, behind the earlier one if
    /// that one stays too.
    pub proof fn lemma_younger_waits(self, step: Step<B, H>, older: int, younger: int)
        requires
            0 <= older < younger < self.scheduler.pending.len(),
            self.scheduler.pending[older].required == self.scheduler.pending[younger].required,
        ensures
            self.moved(step, younger) matches Some(behind) && {
                let queue = self.after(step).scheduler.pending;
                &&& behind < queue.len()
                &&& queue[behind] == self.scheduler.pending[younger]
                &&& self.moved(step, older) matches Some(ahead) ==> 0 <= ahead < behind
                    && queue[ahead] == self.scheduler.pending[older]
            },
    {
        self.scheduler.lemma_none_eligible();
        self.scheduler.lemma_older_goes_first(older, younger);
    }

    /// As long as the earlier of two pending behaviours that require the same
    /// cowns is in the queue, whatever happens, the later one is in the queue
    /// behind it.
    pub proof fn lemma_younger_stays_behind(
        self,
        steps: Seq<Step<B, H>>,
        older: int,
        younger: int,
    )
        requires
            0 <= older < younger < self.scheduler.pending.len(),
            self.scheduler.pending[older].required == self.scheduler.pending[younger].required,
        ensures
            self.followed(steps, older) matches Some(ahead) ==> self.followed(
                steps,
                younger,
            ) matches Some(behind) && {
                let queue = self.after_all(steps).scheduler.pending;
                &&& 0 <= ahead < behind < queue.len()
                &&& queue[ahead] == self.scheduler.pending[older]
                &&& queue[behind] == self.scheduler.pending[younger]
            },
        decreases steps.len(),
    {
        if steps.len() > 0 {
            self.lemma_younger_waits(steps[0], older, younger);
            if let Some(ahead) = self.moved(steps[0], older) {
                let behind = self.moved(steps[0], younger)->0;
                self.after(steps[0]).lemma_younger_stays_behind(steps.drop_first(), ahead, behind);
            }
        }
    }

    /// Which of the steps in `steps` admits the pending behaviour at `place`,
    /// counted from zero; `None` where none of them does.
    pub open spec fn admitted_at(self, steps: Seq<Step<B, H>>, place: int) -> Option<nat>
        decreases steps.len(),
    {
        if steps.len() > 0 {
            match self.moved(steps[0], place) {
                Some(next) => match self.after(steps[0]).admitted_at(steps.drop_first(), next) {
                    Some(later) => Some(later + 1),
                    None => None,
                },
                None => Some(0),
            }
        } else {
            None
        }
    }

    /// First come, first served among behaviours with the same requirements:
    /// of two pending behaviours that require the same cowns, whatever
    /// happens, the one submitted later is admitted only after the one
    /// submitted earlier has been.
    pub proof fn lemma_first_come_first_served(
        self,
        steps: Seq<Step<B, H>>,
        older: int,
        younger: int,
    )
        requires
            0 <= older < younger < self.scheduler.pending.len(),
            self.scheduler.pending[older].required == self.scheduler.pending[younger].required,
        ensures
            self.admitted_at(steps, younger) matches Some(late) ==> self.admitted_at(
                steps,
                older,
            ) matches Some(early) && early < late,
        decreases steps.len(),
    {
        if steps.len() > 0 {
            self.lemma_younger_waits(steps[0], older, younger);
            if let Some(ahead) = self.moved(steps[0], older) {
                let behind = self.moved(steps[0], younger)->0;
                self.after(steps[0]).lemma_first_come_first_served(
                    steps.drop_first(),
                    ahead,
                    behind,
                );
            }
        }
    }

    /// Independent behaviours run at the same time: where the two pending
    /// behaviours that can run have no cown in common, two admissions in a
    /// row start both, the second while the first still runs.
    pub proof fn lemma_independent_run_together(self, first: int, second: int)
        requires
            self.consistent(),
            0 <= first < second < self.scheduler.pending.len(),
            self.scheduler.pending[first].required.disjoint(
                self.scheduler.pending[second].required,
            ),
            forall|place: int|
                0 <= place < self.scheduler.pending.len() ==> (self.scheduler.eligible(place)
                    <==> place == first || place == second),
        ensures
            ({
                let both = self.after(Step::Signal).after(Step::Signal);
                &&& both.running == self.running.push(self.scheduler.pending[first]).push(
                    self.scheduler.pending[second],
                )
                &&& both.consistent()
            }),
    {
        assert(self.scheduler.admits(first));
        self.scheduler.lemma_first_eligible(first);
        self.scheduler.lemma_independent_stays_eligible(second);
        let one = self.after(Step::Signal);
        self.lemma_step_keeps_consistent(Step::Signal);
        assert forall|earlier: int| 0 <= earlier < second - 1 implies !one.scheduler.eligible(
            earlier,
        ) by {
            let before = if earlier < first {
                earlier
            } else {
                earlier + 1
            };
            assert(!self.scheduler.eligible(before));
            let missing = choose|address: CownAddress|
                self.scheduler.pending[before].required.contains(address)
                    && !self.scheduler.available.contains(address);
            assert(one.scheduler.pending[earlier].required.contains(missing));
        }
        assert(one.scheduler.admits(second - 1));
        one.scheduler.lemma_first_eligible(second - 1);
        one.lemma_step_keeps_consistent(Step::Signal);
    }
}

} // verus!
