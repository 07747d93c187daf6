//! Whole programs, run on one thread: a worker runs its behaviour when it is
//! joined.

use cowns::behaviour::{aliasing, Behaviour, CownAddress};
use cowns::cown::Cown;
use cowns::scheduler::{adopt, end, free, schedule, Scheduler};
use cowns::when::When;
use std::cell::RefCell;
use std::collections::HashSet;
use std::sync::Arc;

type Body = Box<dyn FnOnce(&mut Runtime)>;

type Cell<T> = Cown<RefCell<T>>;

/// A scheduler with workers that run when they are joined.
struct Runtime {
    scheduler: Scheduler<Body, usize>,
    workers: Vec<Option<Behaviour<Body>>>,
    held: HashSet<CownAddress>,
    lines: Vec<String>,
}

impl Runtime {
    fn new() -> Runtime {
        Runtime {
            scheduler: Scheduler::new(),
            workers: Vec::new(),
            held: HashSet::new(),
            lines: Vec::new(),
        }
    }

    fn create<T>(&mut self, value: T) -> Cell<T> {
        assert!(self.scheduler.has_room());
        Cown::create(&mut self.scheduler, RefCell::new(value))
    }

    fn spawn(&mut self, dispatch: Option<Behaviour<Body>>) {
        if let Some(behaviour) = dispatch {
            for address in &behaviour.required {
                assert!(self.held.insert(*address), "a cown was given out twice");
            }
            let handle = self.workers.len();
            self.workers.push(Some(behaviour));
            adopt(&mut self.scheduler, handle);
        }
    }

    fn refuse(&self, aliasing: bool) {
        if aliasing {
            panic!("Scheduling behaviour requires aliasing cowns");
        }
    }

    fn submit(&mut self, required: &[CownAddress], body: Body) {
        self.refuse(aliasing(required));
        let dispatch = schedule(&mut self.scheduler, required, body);
        self.spawn(dispatch);
    }

    fn when1<A: 'static>(&mut self, a: &Cell<A>, f: impl FnOnce(&mut Runtime, &mut A) + 'static) {
        let cell = a.resource();
        let body: Body = Box::new(move |runtime| f(runtime, &mut cell.borrow_mut()));
        self.refuse(When::aliasing(&a));
        let dispatch = a.when(&mut self.scheduler, body);
        self.spawn(dispatch);
    }

    fn when2<A: 'static, B: 'static>(
        &mut self,
        a: &Cell<A>,
        b: &Cell<B>,
        f: impl FnOnce(&mut Runtime, &mut A, &mut B) + 'static,
    ) {
        let (first, second) = (a.resource(), b.resource());
        let body: Body =
            Box::new(move |runtime| f(runtime, &mut first.borrow_mut(), &mut second.borrow_mut()));
        self.refuse(When::aliasing(&(a, b)));
        let dispatch = (a, b).when(&mut self.scheduler, body);
        self.spawn(dispatch);
    }

    fn when_all<A: 'static>(
        &mut self,
        cowns: &[Cell<A>],
        f: impl FnOnce(&mut Runtime, &[Arc<RefCell<A>>]) + 'static,
    ) {
        let cells: Vec<Arc<RefCell<A>>> = cowns.iter().map(|cown| cown.resource()).collect();
        let required: Vec<CownAddress> = cowns.iter().map(Cown::address).collect();
        self.submit(&required, Box::new(move |runtime| f(runtime, &cells)));
    }

    fn join(&mut self, handle: usize) {
        if let Some(Behaviour { required, body }) = self.workers[handle].take() {
            body(self);
            for address in &required {
                assert!(self.held.remove(address));
            }
            let dispatch = free(&mut self.scheduler, required);
            self.spawn(dispatch);
        }
    }

    fn drain(&mut self) {
        while let Some(handle) = end(&mut self.scheduler) {
            self.join(handle);
        }
    }

    fn quiescent(&self) -> bool {
        self.held.is_empty()
            && self.scheduler.pending_len() == 0
            && self.scheduler.handles_len() == 0
            && self.workers.iter().all(|worker| worker.is_none())
    }
}

#[test]
fn increment_then_print() {
    let mut runtime = Runtime::new();
    let c = runtime.create(1);
    runtime.when1(&c, |_, c| *c += 1);
    runtime.when1(&c, |runtime, c| runtime.lines.push(format!("{}", c)));
    runtime.drain();
    assert_eq!(runtime.lines, vec!["2".to_string()]);
    assert!(runtime.quiescent());
}

#[test]
fn two_disjoint_counters() {
    let mut runtime = Runtime::new();
    let c1 = runtime.create(0);
    let c2 = runtime.create(0);
    runtime.when1(&c1, |_, c1| *c1 = 1);
    runtime.when1(&c2, |_, c2| *c2 = 2);
    runtime.when2(&c1, &c2, |runtime, c1, c2| runtime.lines.push(format!("{}", *c1 + *c2)));
    runtime.drain();
    assert_eq!(runtime.lines, vec!["3".to_string()]);
    assert!(runtime.quiescent());
}

#[test]
fn the_walkthrough_of_two_cowns() {
    let mut runtime = Runtime::new();
    let c1 = runtime.create(1);
    let c2 = runtime.create(2);
    runtime.when1(&c1, |_, c1| *c1 = *c1 + 1);
    runtime.when1(&c1, |runtime, c1| runtime.lines.push(format!("c1 is: {}", c1)));
    runtime.when1(&c2, |runtime, c2| runtime.lines.push(format!("c2 is: {}", c2)));
    runtime.when2(&c1, &c2, |runtime, c1, c2| {
        runtime.lines.push(format!("c1 + c2 is: {}", *c1 + *c2))
    });
    runtime.drain();
    assert_eq!(
        runtime.lines,
        vec!["c2 is: 2".to_string(), "c1 is: 2".to_string(), "c1 + c2 is: 4".to_string()]
    );
}

#[test]
fn aliasing_is_found_before_the_body_runs() {
    let mut runtime = Runtime::new();
    let c = runtime.create(5);
    let ran = Arc::new(RefCell::new(false));
    let flag = ran.clone();
    let body: Body = Box::new(move |_| *flag.borrow_mut() = true);
    let duplicate = c.clone();
    // The host asks first; on this answer it stops, and submits nothing.
    assert!(When::aliasing(&(&c, &duplicate)));
    assert!(aliasing(&[Cown::address(&c), Cown::address(&duplicate)]));
    drop(body);
    assert_eq!(runtime.scheduler.pending_len(), 0);
    assert_eq!(runtime.scheduler.handles_len(), 0);
    assert!(runtime.scheduler.is_available(Cown::address(&c)));
    runtime.drain();
    assert!(!*ran.borrow());
    assert_eq!(*c.resource().borrow(), 5);
    // The cown is as usable as before.
    runtime.when1(&c, |_, value| *value += 1);
    runtime.drain();
    assert_eq!(*c.resource().borrow(), 6);
}

struct Fork {
    count: u64,
}

struct Table {
    count: u64,
    forks: Vec<Cell<Fork>>,
}

struct Phil {
    id: u64,
    hunger: u64,
    left: Cell<Fork>,
    right: Cell<Fork>,
    table: Cell<Table>,
}

fn leave(runtime: &mut Runtime, table: &Cell<Table>) {
    runtime.when1(table, |runtime, table| {
        table.count -= 1;
        if table.count == 0 {
            runtime.when_all(&table.forks, |runtime, forks| {
                for (place, fork) in forks.iter().enumerate() {
                    let line = format!("f{}: {}", place + 1, fork.borrow().count);
                    runtime.lines.push(line);
                }
            });
        }
    });
}

fn eat(runtime: &mut Runtime, mut phil: Phil) {
    let (left, right) = (phil.left.clone(), phil.right.clone());
    runtime.when2(&left, &right, move |runtime, left, right| {
        runtime.lines.push(format!("Phil {} eats", phil.id));
        phil.hunger -= 1;
        left.count += 1;
        right.count += 1;
        if phil.hunger > 0 {
            eat(runtime, phil);
        } else {
            leave(runtime, &phil.table);
        }
    });
}

#[test]
fn dining_philosophers() {
    let mut runtime = Runtime::new();
    let forks: Vec<Cell<Fork>> = (0..5).map(|_| runtime.create(Fork { count: 0 })).collect();
    let table = runtime.create(Table { count: 5, forks: forks.clone() });
    for i in 0..5 {
        let phil = Phil {
            id: i as u64 + 1,
            hunger: 10,
            left: forks[i].clone(),
            right: forks[(i + 1) % 5].clone(),
            table: table.clone(),
        };
        eat(&mut runtime, phil);
    }
    runtime.drain();
    let meals = runtime.lines.iter().filter(|line| line.ends_with("eats")).count();
    assert_eq!(meals, 50);
    let report: Vec<String> = runtime.lines[runtime.lines.len() - 5..].to_vec();
    assert_eq!(
        report,
        vec![
            "f1: 20".to_string(),
            "f2: 20".to_string(),
            "f3: 20".to_string(),
            "f4: 20".to_string(),
            "f5: 20".to_string()
        ]
    );
    for fork in &forks {
        assert_eq!(fork.resource().borrow().count, 20);
    }
    assert_eq!(table.resource().borrow().count, 0);
    assert!(runtime.quiescent());
    assert_eq!(runtime.scheduler.available_len(), 6);
}

#[test]
fn fan_out_then_fan_in() {
    let n: u64 = 24;
    let mut runtime = Runtime::new();
    let cowns: Vec<Cell<u64>> = (0..n).map(|_| runtime.create(0)).collect();
    for (i, cown) in cowns.iter().enumerate() {
        runtime.when1(cown, move |_, c| *c = i as u64);
    }
    runtime.when_all(&cowns, |runtime, cells| {
        let sum: u64 = cells.iter().map(|cell| *cell.borrow()).sum();
        runtime.lines.push(format!("{}", sum));
    });
    runtime.drain();
    assert_eq!(runtime.lines, vec![format!("{}", n * (n - 1) / 2)]);
    assert_eq!(runtime.lines, vec!["276".to_string()]);
    assert!(runtime.quiescent());
}

#[test]
fn submission_from_within_a_behaviour() {
    let mut runtime = Runtime::new();
    let c = runtime.create(0);
    let inner = c.clone();
    runtime.when1(&c, move |runtime, value| {
        runtime.lines.push("outer starts".to_string());
        runtime.when1(&inner, |runtime, value| {
            runtime.lines.push(format!("inner sees {}", value));
        });
        // The inner behaviour waits: the outer one still holds the cown.
        assert_eq!(runtime.scheduler.pending_len(), 1);
        assert_eq!(runtime.scheduler.handles_len(), 0);
        *value = 7;
        runtime.lines.push("outer ends".to_string());
    });
    runtime.drain();
    assert_eq!(
        runtime.lines,
        vec!["outer starts".to_string(), "outer ends".to_string(), "inner sees 7".to_string()]
    );
    assert!(runtime.quiescent());
}

#[test]
fn a_behaviour_without_cowns_starts_at_once() {
    let mut runtime = Runtime::new();
    runtime.submit(&[], Box::new(|runtime| runtime.lines.push("shim".to_string())));
    assert_eq!(runtime.scheduler.pending_len(), 0);
    assert_eq!(runtime.scheduler.handles_len(), 1);
    runtime.drain();
    assert_eq!(runtime.lines, vec!["shim".to_string()]);
}
