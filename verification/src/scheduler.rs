//! The executable scheduler.
//!
//! A [`Scheduler`] holds the idle cowns, the queue of pending behaviours and
//! the handles of the workers still to be joined. It is a value of its own:
//! whoever shares one between threads puts it behind a lock and calls these
//! functions while holding it.
//!
//! The functions decide and never block. [`schedule`], [`free`] and
//! [`signal`] return the behaviour that has just been admitted, if any: the
//! caller runs its body on a worker, hands the worker's handle to [`adopt`],
//! and has the worker call [`free`] with the behaviour's cowns when the body
//! has returned. [`end`] returns the next worker to join.

use crate::behaviour::{Behaviour, CownAddress, Submission};
use crate::model::State;
use std::collections::{HashSet, VecDeque};
use vstd::prelude::*;

verus! {

broadcast use {
    vstd::std_specs::hash::group_hash_axioms,
    vstd::std_specs::vecdeque::group_vec_dequeue_axioms,
};

/// The idle cowns, the pending behaviours and the live workers.
///
/// `B` is the type of a behaviour's body and `H` that of a worker's handle;
/// the scheduler stores both and looks into neither.
pub struct Scheduler<B, H> {
    next: CownAddress,
    available: HashSet<CownAddress>,
    pending: VecDeque<Behaviour<B>>,
    handles: VecDeque<H>,
}

impl<B, H> View for Scheduler<B, H> {
    type V = State<B, H>;

    closed spec fn view(&self) -> State<B, H> {
        State {
            issued: self.next as nat,
            available: self.available@,
            pending: self.pending@.map_values(|behaviour: Behaviour<B>| behaviour@),
            handles: self.handles@,
        }
    }
}

/// What an admission hands out, as a mathematical value.
pub open spec fn dispatched<B>(dispatch: Option<Behaviour<B>>) -> Option<Submission<B>> {
    match dispatch {
        Some(behaviour) => Some(behaviour@),
        None => None,
    }
}

impl<B, H> Scheduler<B, H> {
    /// A scheduler with no cown, no behaviour and no worker.
    pub fn new() -> (scheduler: Scheduler<B, H>)
        ensures
            scheduler@ == State::<B, H>::initial(),
    {
        let scheduler = Scheduler {
            next: 0,
            available: HashSet::new(),
            pending: VecDeque::new(),
            handles: VecDeque::new(),
        };
        assert(scheduler@.pending =~= Seq::empty());
        scheduler
    }

    /// Whether the cown at `cown` is idle.
    pub fn is_available(&self, cown: CownAddress) -> (idle: bool)
        ensures
            idle == self@.available.contains(cown),
    {
        self.available.contains(&cown)
    }

    /// How many cowns are idle.
    pub fn available_len(&self) -> (count: usize)
        ensures
            count == self@.available.len(),
    {
        self.available.len()
    }

    /// How many behaviours wait for their cowns.
    pub fn pending_len(&self) -> (count: usize)
        ensures
            count == self@.pending.len(),
    {
        self.pending.len()
    }

    /// How many workers are still to be joined.
    pub fn handles_len(&self) -> (count: usize)
        ensures
            count == self@.handles.len(),
    {
        self.handles.len()
    }

    /// How many cowns have been created.
    pub fn issued(&self) -> (count: CownAddress)
        ensures
            count == self@.issued,
    {
        self.next
    }

    /// Whether an address is left for one more cown.
    pub fn has_room(&self) -> (room: bool)
        ensures
            room == (self@.issued < CownAddress::MAX),
    {
        self.next < CownAddress::MAX
    }

    /// Issues the address of the next cown. No address is issued twice.
    pub(crate) fn issue(&mut self) -> (address: CownAddress)
        requires
            old(self)@.issued < CownAddress::MAX,
        ensures
            address == old(self)@.fresh(),
            final(self)@ == (State { issued: old(self)@.issued + 1, ..old(self)@ }),
    {
        let address: CownAddress = self.next;
        self.next = address + 1;
        address
    }
}

/// Enters `cown` into the idle set. A cown that is idle already stays so.
pub(crate) fn register<B, H>(scheduler: &mut Scheduler<B, H>, cown: CownAddress)
    ensures
        final(scheduler)@ == old(scheduler)@.registered_at(cown),
{
    scheduler.available.insert(cown);
}

/// Whether every cown in `required` is in `available`.
fn is_subset(required: &HashSet<CownAddress>, available: &HashSet<CownAddress>) -> (whole: bool)
    ensures
        whole == required@.subset_of(available@),
{
    for address in walk: required.iter()
        invariant
            forall|i: int| 0 <= i < walk.index() ==> available@.contains(*#[trigger] walk.seq()[i]),
    {
        if !available.contains(address) {
            return false;
        }
    }
    true
}

/// Takes every cown in `required` out of `available`.
fn withdraw(available: &mut HashSet<CownAddress>, required: &HashSet<CownAddress>)
    ensures
        final(available)@ == old(available)@.difference(required@),
{
    for address in walk: required.iter()
        invariant
            walk.seq().unref().to_set() == required@,
            forall|a: CownAddress|
                available@.contains(a) <==> old(available)@.contains(a) && !exists|i: int|
                    0 <= i < walk.index() && #[trigger] walk.seq().unref()[i] == a,
    {
        available.remove(address);
    }
    assert(available@ =~= old(available)@.difference(required@));
}

/// Puts every cown in `cowns` into `available`.
fn deposit(available: &mut HashSet<CownAddress>, cowns: &HashSet<CownAddress>)
    ensures
        final(available)@ == old(available)@.union(cowns@),
{
    for address in walk: cowns.iter()
        invariant
            walk.seq().unref().to_set() == cowns@,
            forall|a: CownAddress|
                available@.contains(a) <==> old(available)@.contains(a) || exists|i: int|
                    0 <= i < walk.index() && #[trigger] walk.seq().unref()[i] == a,
    {
        available.insert(*address);
    }
    assert(available@ =~= old(available)@.union(cowns@));
}

/// The place of the first behaviour in `pending` that requires idle cowns
/// only.
fn position<B>(pending: &VecDeque<Behaviour<B>>, available: &HashSet<CownAddress>) -> (found:
    Option<usize>)
    ensures
        match found {
            Some(index) => {
                &&& index < pending@.len()
                &&& pending@[index as int].required@.subset_of(available@)
                &&& forall|earlier: int|
                    0 <= earlier < index ==> !(#[trigger] pending@[earlier]).required@.subset_of(
                        available@,
                    )
            },
            None => forall|index: int|
                0 <= index < pending@.len() ==> !(#[trigger] pending@[index]).required@.subset_of(
                    available@,
                ),
        },
{
    let mut index: usize = 0;
    while index < pending.len()
        invariant
            index <= pending@.len(),
            forall|earlier: int|
                0 <= earlier < index ==> !(#[trigger] pending@[earlier]).required@.subset_of(
                    available@,
                ),
        decreases pending@.len() - index,
    {
        if is_subset(&pending[index].required, available) {
            return Some(index);
        }
        index += 1;
    }
    None
}

/// Admits the first pending behaviour whose cowns are all idle.
///
/// The behaviour leaves the queue, its cowns leave the idle set, and it is
/// returned for the caller to run. Behaviours behind it keep their order.
/// Where no pending behaviour can run, nothing changes and nothing is
/// returned. One call admits at most one behaviour.
pub fn signal<B, H>(scheduler: &mut Scheduler<B, H>) -> (dispatch: Option<Behaviour<B>>)
    ensures
        final(scheduler)@ == old(scheduler)@.signalled(),
        dispatched(dispatch) == old(scheduler)@.admitted(),
{
    let ghost before = scheduler@;
    match position(&scheduler.pending, &scheduler.available) {
        Some(index) => {
            proof {
                assert forall|earlier: int| 0 <= earlier < index implies !before.eligible(
                    earlier,
                ) by {
                    let _ = scheduler.pending@[earlier];
                }
                before.lemma_first_eligible(index as int);
            }
            match scheduler.pending.remove(index) {
                Some(pending) => {
                    withdraw(&mut scheduler.available, &pending.required);
                    assert(scheduler@.pending =~= before.pending.remove(index as int));
                    Some(pending)
                },
                None => None,
            }
        },
        None => {
            proof {
                assert forall|index: int| 0 <= index < before.pending.len() implies !before.eligible(
                    index,
                ) by {
                    let _ = scheduler.pending@[index];
                }
                before.lemma_none_eligible();
            }
            None
        },
    }
}

/// Hands back the cowns that a behaviour held, then admits one behaviour.
///
/// Every cown in `cowns` becomes idle. After that the first pending behaviour
/// whose cowns are all idle is admitted as by [`signal`], and returned.
pub fn free<B, H>(scheduler: &mut Scheduler<B, H>, cowns: HashSet<CownAddress>) -> (dispatch:
    Option<Behaviour<B>>)
    ensures
        final(scheduler)@ == old(scheduler)@.released(cowns@).signalled(),
        dispatched(dispatch) == old(scheduler)@.released(cowns@).admitted(),
{
    deposit(&mut scheduler.available, &cowns);
    signal(scheduler)
}

/// Submits a behaviour that requires the cowns at `required`, then admits one
/// behaviour.
///
/// The list names no cown twice; [`aliasing`](crate::behaviour::aliasing)
/// tells whether one does. The behaviour joins the end of the queue; after
/// that the first pending behaviour whose cowns are all idle is admitted as
/// by [`signal`], and returned. That one may be the behaviour just submitted
/// or an older one.
pub fn schedule<B, H>(
    scheduler: &mut Scheduler<B, H>,
    required: &[CownAddress],
    behaviour: B,
) -> (dispatch: Option<Behaviour<B>>)
    requires
        required@.no_duplicates(),
    ensures
        final(scheduler)@ == old(scheduler)@.submitted(
            Submission { required: required@.to_set(), body: behaviour },
        ).signalled(),
        dispatched(dispatch) == old(scheduler)@.submitted(
            Submission { required: required@.to_set(), body: behaviour },
        ).admitted(),
{
    let pending = Behaviour::new(required, behaviour);
    let ghost before = scheduler@;
    scheduler.pending.push_back(pending);
    assert(scheduler@.pending =~= before.pending.push(pending@));
    signal(scheduler)
}

/// Takes in the handle of a worker that has just been spawned, to be joined
/// by a later [`end`]. Workers are joined in the order in which they came.
pub fn adopt<B, H>(scheduler: &mut Scheduler<B, H>, handle: H)
    ensures
        final(scheduler)@ == old(scheduler)@.adopted(handle),
{
    scheduler.handles.push_back(handle);
}

/// Takes out the oldest worker that nobody has joined yet.
///
/// The caller joins the worker, without holding the scheduler meanwhile, and
/// calls again: a worker may submit behaviours and so bring new workers while
/// it runs. `None` says that no worker is left.
pub fn end<B, H>(scheduler: &mut Scheduler<B, H>) -> (handle: Option<H>)
    ensures
        final(scheduler)@ == old(scheduler)@.ended(),
        handle == old(scheduler)@.oldest(),
{
    let ghost before = scheduler@;
    let handle = scheduler.handles.pop_front();
    assert(scheduler@.handles =~= before.ended().handles);
    handle
}

} // verus!
