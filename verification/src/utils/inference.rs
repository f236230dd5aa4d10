//! Limits for background models.
use vstd::prelude::*;

verus! {

/// Bounds each background model to two compute threads; one on a small CPU.
pub fn thread_budget(available_cpus: usize) -> (r: usize)
    ensures
        r == (if available_cpus >= 3 {
            2usize
        } else {
            1usize
        }),
{
    let spare: usize = available_cpus.saturating_sub(1);
    if spare < 1 {
        1
    } else if spare > 2 {
        2
    } else {
        spare
    }
}

} // verus!
