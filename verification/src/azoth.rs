//! The bot's start-up decision: background loops start once per process.

use vstd::prelude::*;

verus! {

/// What to do when the gateway cache is ready, given whether the
/// background loops were already started: the flag afterwards, and whether
/// to start the loops now.
pub open spec fn cache_ready_step(is_loop: bool) -> (bool, bool) {
    (true, !is_loop)
}

/// Decides, when the gateway cache is ready, whether the background loops
/// start now; the returned flag is the new value of "loops started".
pub fn cache_ready(is_loop: bool) -> (step: (bool, bool))
    ensures
        step == cache_ready_step(is_loop),
{
    if !is_loop {
        (true, true)
    } else {
        (is_loop, false)
    }
}

/// However often the cache becomes ready, the loops start at most once:
/// after any step the next step starts nothing.
pub proof fn lemma_loops_start_once(is_loop: bool)
    ensures
        cache_ready_step(is_loop).0,
        !cache_ready_step(cache_ready_step(is_loop).0).1,
{
}

} // verus!
