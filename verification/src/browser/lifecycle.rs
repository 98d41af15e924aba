//! The life of a browser instance. Each instance has a generation, counted from one; a watchdog
//! ends only the generation that it was born to watch.
use vstd::prelude::*;

verus! {

/// A watchdog ends the live instance where it is the one that it watches, and the one whose exit was
/// reported.
pub open spec fn reaps(watchdog: u64, live: u64, exited: u64) -> bool {
    watchdog != 0 && live == watchdog && exited == watchdog
}

/// Whether a watchdog ends the live instance: it is the one that it watches, and the one whose exit
/// was reported. Zero stands for none.
pub fn should_reap(watchdog_generation: u64, live_generation: u64, exited_generation: u64) -> (yes:
    bool)
    ensures
        yes == reaps(watchdog_generation, live_generation, exited_generation),
{
    watchdog_generation != 0 && live_generation == watchdog_generation && exited_generation
        == watchdog_generation
}

/// Whether a newer instance has taken the place of the one that a watchdog watches.
pub fn is_superseded(watchdog_generation: u64, live_generation: u64) -> (yes: bool)
    ensures
        yes == (live_generation != watchdog_generation),
{
    live_generation != watchdog_generation
}

/// Whether the instance in the slot may be taken out: any instance where none is named, and else
/// only the one that is named.
pub fn may_take_inner(inner_generation: Option<u64>, expected_generation: Option<u64>) -> (yes: bool)
    ensures
        yes == (inner_generation is Some && (expected_generation is None || expected_generation
            == inner_generation)),
{
    match (inner_generation, expected_generation) {
        (None, _) => false,
        (Some(_), None) => true,
        (Some(inner), Some(expected)) => inner == expected,
    }
}

/// A watchdog that was superseded ends nothing, whatever exit is reported.
pub proof fn superseded_watchdog_ends_nothing(watchdog: u64, live: u64, exited: u64)
    ensures
        live != watchdog ==> !reaps(watchdog, live, exited),
{
}

} // verus!
