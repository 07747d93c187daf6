//! Cowns and behaviours: mutable resources that only scheduled tasks may touch.
//!
//! A *cown* wraps a resource and gives it a stable address. A *behaviour* is a
//! body together with the addresses of the cowns it requires. The scheduler
//! keeps the set of idle cowns and the queue of pending behaviours, and admits
//! a behaviour exactly when every cown it requires is idle; the cowns stay
//! withdrawn until the behaviour's worker hands them back.
//!
//! The scheduler here is a plain value. It decides; it neither locks nor spawns.
//! Every operation takes the scheduler by `&mut` and returns what the caller
//! has to do next: the behaviour to run on a worker, or the worker to join.
//!
//! * [`behaviour`]: addresses, and the record of a behaviour, which no cown enters twice.
//! * [`model`]: the scheduler as a mathematical value, and its transitions.
//! * [`scheduler`]: the executable scheduler, which implements the model.
//! * [`cown`]: the handle to a registered resource.
//! * [`when`], [`run`]: submission by a group of cowns, borrowed or owned.
//! * [`laws`]: what holds of every run of the scheduler.

pub mod behaviour;
pub mod cown;
pub mod laws;
pub mod model;
pub mod run;
pub mod scheduler;
pub mod when;
