//! The driver's reset policy: after every tick the detectors are consulted
//! in a fixed priority order, and the first that fires names the reason for
//! discarding the automaton and constructing a fresh one.

use vstd::prelude::*;
use crate::automaton::{Automaton, MAX_PERIOD, history_periodic, row_all, row_uniform};

verus! {

/// Why the driver discarded an automaton and constructed a fresh one.
#[derive(Clone, Copy, Debug, PartialEq, Eq, Structural)]
pub enum ResetReason {
    Uniform,
    Periodic,
    MaxAge,
}

/// The reset decision after a tick, in priority order: a uniform newest row
/// first, then a repeating window, then an age above `max_age`. Uniformity
/// outranks periodicity because a constant row repeated is also
/// period-1-periodic, and the more specific reason is wanted.
pub fn reset_reason(a: &Automaton, max_age: usize) -> (r: Option<ResetReason>)
    requires
        a.wf(),
        a.states@.len() >= 2 * (MAX_PERIOD - 1),
    ensures
        r == (if row_uniform(a.states@[a.height() - 1]@) {
            Some(ResetReason::Uniform)
        } else if history_periodic(a.states@) {
            Some(ResetReason::Periodic)
        } else if a.age > max_age {
            Some(ResetReason::MaxAge)
        } else {
            None::<ResetReason>
        }),
{
    if a.uniform() {
        Some(ResetReason::Uniform)
    } else if a.periodic() {
        Some(ResetReason::Periodic)
    } else if a.age() > max_age {
        Some(ResetReason::MaxAge)
    } else {
        None
    }
}

/// Builds a fresh automaton with a uniformly random rule and a uniformly
/// random seed row; every older row starts all dead.
pub fn rand_automaton(width: usize, height: usize) -> (a: Automaton)
    requires
        width >= 3,
        height >= 1,
    ensures
        a.wf(),
        a.age == 0,
        a.height() == height,
        a.width() == width,
        forall|i: int| 0 <= i < height - 1 ==> row_all((#[trigger] a.states@[i])@, false),
{
    let rule = crate::rng::random_rule();
    Automaton::new(rule, width, height)
}

} // verus!
