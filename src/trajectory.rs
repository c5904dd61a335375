//! Decisions of the trajectory log.
use vstd::prelude::*;

verus! {

/// Whether step `step` is written to a log that keeps every `interval`-th
/// step.
pub fn is_output_step(step: i32, interval: i32) -> (r: bool)
    requires
        step >= 0,
        interval > 0,
    ensures
        r == (step as int % interval as int == 0),
{
    step % interval == 0
}

} // verus!
