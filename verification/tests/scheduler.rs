//! The scheduler's operations one by one, and the cown handle.

use cowns::behaviour::{aliasing, Behaviour, CownAddress};
use cowns::cown::Cown;
use cowns::scheduler::{adopt, end, free, schedule, signal, Scheduler};
use std::collections::HashSet;
use std::sync::{Arc, Mutex};

fn set(addresses: &[CownAddress]) -> HashSet<CownAddress> {
    addresses.iter().copied().collect()
}

#[test]
fn a_new_scheduler_is_empty() {
    let mut scheduler: Scheduler<(), ()> = Scheduler::new();
    assert_eq!(scheduler.issued(), 0);
    assert_eq!(scheduler.available_len(), 0);
    assert_eq!(scheduler.pending_len(), 0);
    assert_eq!(scheduler.handles_len(), 0);
    assert!(scheduler.has_room());
    assert!(!scheduler.is_available(0));
    assert!(signal(&mut scheduler).is_none());
    assert!(end(&mut scheduler).is_none());
}

#[test]
fn cowns_get_addresses_in_the_order_of_their_creation() {
    let mut scheduler: Scheduler<(), ()> = Scheduler::new();
    let first = Cown::create(&mut scheduler, "a");
    let second = Cown::create(&mut scheduler, "b");
    let third = Cown::create(&mut scheduler, "c");
    assert_eq!(Cown::address(&first), 0);
    assert_eq!(Cown::address(&second), 1);
    assert_eq!(Cown::address(&third), 2);
    assert_eq!(scheduler.issued(), 3);
    assert_eq!(scheduler.available_len(), 3);
    assert!(scheduler.is_available(0) && scheduler.is_available(1) && scheduler.is_available(2));
    assert!(!scheduler.is_available(3));
    assert_eq!(*third.resource(), "c");
}

#[test]
fn a_duplicate_is_the_same_cown() {
    let mut scheduler: Scheduler<(), ()> = Scheduler::new();
    let other = Cown::create(&mut scheduler, Mutex::new(0));
    let cown = Cown::create(&mut scheduler, Mutex::new(10));
    let duplicate = cown.clone();
    assert_eq!(Cown::address(&duplicate), Cown::address(&cown));
    assert_ne!(Cown::address(&duplicate), Cown::address(&other));
    // Duplicating a handle does not touch the scheduler.
    assert_eq!(scheduler.issued(), 2);
    assert_eq!(scheduler.available_len(), 2);
    // Both handles reach one cell.
    assert!(Arc::ptr_eq(&cown.resource(), &duplicate.resource()));
    assert!(!Arc::ptr_eq(&cown.resource(), &other.resource()));
    *duplicate.resource().lock().unwrap() += 5;
    assert_eq!(*cown.resource().lock().unwrap(), 15);
    assert_eq!(*other.resource().lock().unwrap(), 0);
}

#[test]
fn a_pointer_to_the_cell_is_one_more_owner() {
    let mut scheduler: Scheduler<(), ()> = Scheduler::new();
    let cown = Cown::create(&mut scheduler, 3u8);
    let cell = cown.resource();
    assert_eq!(Arc::strong_count(&cell), 2);
    let duplicate = cown.clone();
    assert_eq!(Arc::strong_count(&cell), 3);
    drop(cown);
    assert_eq!(Arc::strong_count(&cell), 2);
    assert_eq!(*duplicate.resource(), 3);
}

#[test]
fn a_behaviour_requires_the_set_of_the_addresses_listed() {
    assert!(!aliasing(&[7, 3, 5]));
    let made = Behaviour::new(&[7, 3, 5], "body");
    assert_eq!(made.required, set(&[3, 5, 7]));
    assert_eq!(made.body, "body");
    assert!(!aliasing(&[]));
    let none = Behaviour::new(&[], 1);
    assert!(none.required.is_empty());
    assert_eq!(made.required.len(), 3);
}

#[test]
fn admission_withdraws_the_cowns_and_release_returns_them() {
    let mut scheduler: Scheduler<char, ()> = Scheduler::new();
    let a = Cown::address(&Cown::create(&mut scheduler, ()));
    let b = Cown::address(&Cown::create(&mut scheduler, ()));
    let c = Cown::address(&Cown::create(&mut scheduler, ()));
    let admitted = schedule(&mut scheduler, &[c, a], 'x').unwrap();
    assert_eq!(admitted.body, 'x');
    assert_eq!(admitted.required, set(&[a, c]));
    assert!(!scheduler.is_available(a));
    assert!(scheduler.is_available(b));
    assert!(!scheduler.is_available(c));
    assert_eq!(scheduler.available_len(), 1);
    assert_eq!(scheduler.pending_len(), 0);
    assert!(free(&mut scheduler, admitted.required).is_none());
    assert_eq!(scheduler.available_len(), 3);
}

#[test]
fn a_behaviour_waits_until_all_its_cowns_are_idle() {
    let mut scheduler: Scheduler<char, ()> = Scheduler::new();
    let a = Cown::address(&Cown::create(&mut scheduler, ()));
    let b = Cown::address(&Cown::create(&mut scheduler, ()));
    let x = schedule(&mut scheduler, &[a], 'x').unwrap();
    let y = schedule(&mut scheduler, &[b], 'y').unwrap();
    assert!(schedule(&mut scheduler, &[a, b], 'z').is_none());
    assert_eq!(scheduler.pending_len(), 1);
    // One of its two cowns comes back: not enough.
    assert!(free(&mut scheduler, x.required).is_none());
    assert!(scheduler.is_available(a));
    assert_eq!(scheduler.pending_len(), 1);
    // With the second it starts, and takes both along.
    let z = free(&mut scheduler, y.required).unwrap();
    assert_eq!(z.body, 'z');
    assert_eq!(z.required, set(&[a, b]));
    assert_eq!(scheduler.available_len(), 0);
    assert_eq!(scheduler.pending_len(), 0);
}

#[test]
fn admission_takes_the_first_that_can_run_and_keeps_the_order_of_the_rest() {
    let mut scheduler: Scheduler<u8, ()> = Scheduler::new();
    let a = Cown::address(&Cown::create(&mut scheduler, ()));
    let b = Cown::address(&Cown::create(&mut scheduler, ()));
    let holder = schedule(&mut scheduler, &[a, b], 0).unwrap();
    for (number, required) in [vec![a, b], vec![b], vec![a], vec![b], vec![a]].iter().enumerate() {
        assert!(schedule(&mut scheduler, required, number as u8 + 1).is_none());
    }
    assert_eq!(scheduler.pending_len(), 5);
    // Only the cown at `b` comes back: the first in the queue needs both.
    let second = free(&mut scheduler, set(&[b])).unwrap();
    assert_eq!(second.body, 2);
    assert!(signal(&mut scheduler).is_none());
    let third = free(&mut scheduler, set(&[a])).unwrap();
    assert_eq!(third.body, 3);
    let fourth = free(&mut scheduler, second.required).unwrap();
    assert_eq!(fourth.body, 4);
    let fifth = free(&mut scheduler, third.required).unwrap();
    assert_eq!(fifth.body, 5);
    assert!(free(&mut scheduler, fourth.required).is_none());
    let first = free(&mut scheduler, fifth.required).unwrap();
    assert_eq!(first.body, 1);
    assert_eq!(first.required, holder.required);
    assert_eq!(scheduler.pending_len(), 0);
}

#[test]
fn a_behaviour_on_a_cown_that_was_never_created_waits_for_ever() {
    let mut scheduler: Scheduler<u8, ()> = Scheduler::new();
    let a = Cown::address(&Cown::create(&mut scheduler, ()));
    assert!(schedule(&mut scheduler, &[a, 99], 1).is_none());
    assert!(signal(&mut scheduler).is_none());
    assert_eq!(scheduler.pending_len(), 1);
    assert!(scheduler.is_available(a));
    // It is in nobody's way.
    let other = schedule(&mut scheduler, &[a], 2).unwrap();
    assert_eq!(other.body, 2);
}

#[test]
fn handing_back_nothing_still_admits() {
    let mut scheduler: Scheduler<u8, ()> = Scheduler::new();
    let a = Cown::address(&Cown::create(&mut scheduler, ()));
    let first = schedule(&mut scheduler, &[a], 1).unwrap();
    assert!(schedule(&mut scheduler, &[], 2).is_some());
    assert!(schedule(&mut scheduler, &[a], 3).is_none());
    assert!(free(&mut scheduler, HashSet::new()).is_none());
    let third = free(&mut scheduler, first.required).unwrap();
    assert_eq!(third.body, 3);
}

#[test]
fn workers_are_joined_in_the_order_in_which_they_came() {
    let mut scheduler: Scheduler<(), &str> = Scheduler::new();
    adopt(&mut scheduler, "first");
    adopt(&mut scheduler, "second");
    assert_eq!(scheduler.handles_len(), 2);
    assert_eq!(end(&mut scheduler), Some("first"));
    // A worker that comes while the drain is under way is joined as well.
    adopt(&mut scheduler, "third");
    assert_eq!(end(&mut scheduler), Some("second"));
    assert_eq!(end(&mut scheduler), Some("third"));
    assert_eq!(end(&mut scheduler), None);
    assert_eq!(end(&mut scheduler), None);
    assert_eq!(scheduler.handles_len(), 0);
}

#[test]
fn workers_and_cowns_do_not_touch_each_other() {
    let mut scheduler: Scheduler<u8, u8> = Scheduler::new();
    let a = Cown::address(&Cown::create(&mut scheduler, ()));
    adopt(&mut scheduler, 1);
    assert!(schedule(&mut scheduler, &[a], 1).is_some());
    assert_eq!(scheduler.handles_len(), 1);
    assert_eq!(end(&mut scheduler), Some(1));
    assert!(!scheduler.is_available(a));
    assert_eq!(scheduler.issued(), 1);
}

#[test]
fn a_list_aliases_where_an_address_comes_twice() {
    assert!(!aliasing(&[]));
    assert!(!aliasing(&[4]));
    assert!(!aliasing(&[4, 9]));
    assert!(!aliasing(&[9, 4, 0, 7]));
    assert!(aliasing(&[4, 4]));
    assert!(aliasing(&[4, 9, 4]));
    assert!(aliasing(&[9, 4, 4]));
    assert!(aliasing(&[0, 1, 2, 3, 4, 5, 6, 7, 8, 9, 10, 0]));
    assert!(aliasing(&[7, 7, 7]));
}

#[test]
fn a_cown_and_its_duplicate_alias() {
    let mut scheduler: Scheduler<(), ()> = Scheduler::new();
    let other = Cown::create(&mut scheduler, 0);
    let cown = Cown::create(&mut scheduler, 0);
    let duplicate = cown.clone();
    assert!(aliasing(&[Cown::address(&cown), Cown::address(&duplicate)]));
    assert!(aliasing(&[Cown::address(&cown), Cown::address(&other), Cown::address(&duplicate)]));
    assert!(!aliasing(&[Cown::address(&cown), Cown::address(&other)]));
}
