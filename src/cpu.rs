//! The CPU load generator's plan: how many spinning workers, and the
//! busy and idle parts of each 100 ms cycle.

use vstd::prelude::*;

verus! {

/// Length of one busy-then-idle cycle, in milliseconds.
pub const CYCLE_MS: u64 = 100;
/// Workers to spawn when the number of cores cannot be found.
pub const FALLBACK_THREADS: u64 = 4;

/// Milliseconds of spinning in each cycle for a target of `percent`.
pub open spec fn busy_ms_of(percent: u64) -> u64 {
    percent
}

/// Milliseconds of sleep in each cycle: the rest of the cycle, none at or above 100%.
pub open spec fn idle_ms_of(percent: u64) -> u64 {
    if percent >= CYCLE_MS {
        0
    } else {
        (CYCLE_MS - percent) as u64
    }
}

/// The workers for a core count that detection may not have found.
pub open spec fn threads_of(cores: Option<u64>) -> u64 {
    match cores {
        Some(c) => if c > 0 {
            c
        } else {
            FALLBACK_THREADS
        },
        None => FALLBACK_THREADS,
    }
}

/// What the CPU generator runs: `threads` workers, each repeating
/// `busy_ms` of spinning and `idle_ms` of sleep.
#[derive(Clone, Copy, Debug, PartialEq, Eq, Structural)]
pub struct CpuPlan {
    pub threads: u64,
    pub busy_ms: u64,
    pub idle_ms: u64,
}

/// The plan for a target of `percent` on `cores` logical cores: one worker
/// per core (4 where the count is unknown), spinning `percent` ms and
/// sleeping the rest of a 100 ms cycle.
pub fn cpu_plan(percent: u64, cores: Option<u64>) -> (r: CpuPlan)
    ensures
        r.threads == threads_of(cores),
        r.threads > 0,
        r.busy_ms == busy_ms_of(percent),
        r.idle_ms == idle_ms_of(percent),
{
    let threads = match cores {
        Some(c) => if c > 0 {
            c
        } else {
            FALLBACK_THREADS
        },
        None => FALLBACK_THREADS,
    };
    let idle = if percent >= CYCLE_MS {
        0
    } else {
        CYCLE_MS - percent
    };
    CpuPlan { threads, busy_ms: percent, idle_ms: idle }
}

/// Whether a loop that runs for `duration_ms` starts another round after
/// `elapsed_ms`: only while the elapsed time is below the duration.
pub fn keep_running(elapsed_ms: u128, duration_ms: u128) -> (r: bool)
    ensures
        r == (elapsed_ms < duration_ms),
{
    elapsed_ms < duration_ms
}

/// For a target strictly between 0 and 100, a cycle lasts exactly 100 ms,
/// so a worker that starts its last cycle before the duration is over
/// finishes it less than one cycle after the duration.
pub proof fn lemma_cycle_overshoot_bounded(percent: u64, start_ms: int, duration_ms: int)
    requires
        1 <= percent <= 99,
        start_ms < duration_ms,
    ensures
        busy_ms_of(percent) + idle_ms_of(percent) == CYCLE_MS,
        start_ms + busy_ms_of(percent) + idle_ms_of(percent) < duration_ms + CYCLE_MS,
{
}

} // verus!
