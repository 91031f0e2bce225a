//! What the search asks of the machine it runs on: the clock, the cores, and
//! the flag by which one worker tells the others to stop. Nothing is known
//! in advance of what these calls return, so nothing is stated of them; the
//! search is proved for every answer they may give.

use vstd::prelude::*;
use std::sync::atomic::AtomicBool;
use std::sync::atomic::Ordering;
use crate::partition::rising;

verus! {

/// A point in time of the monotonic clock.
#[verifier::external_type_specification]
#[verifier::external_body]
pub struct ExInstant(std::time::Instant);

/// `Instant::now`: the present moment.
pub assume_specification[ std::time::Instant::now ]() -> (now: std::time::Instant);

/// `Instant::elapsed`: the time that has passed since `start`.
pub assume_specification[ std::time::Instant::elapsed ](start: &std::time::Instant) -> (passed:
    std::time::Duration);

/// `Duration::as_secs`: the whole seconds of a duration.
pub assume_specification[ std::time::Duration::as_secs ](passed: &std::time::Duration) -> (secs:
    u64);

/// The moment at which a worker starts.
pub(crate) fn clock_start() -> std::time::Instant {
    std::time::Instant::now()
}

/// The whole seconds that have passed since `start`.
pub(crate) fn seconds_since(start: &std::time::Instant) -> u64 {
    let passed = start.elapsed();
    passed.as_secs()
}

/// Whether some worker has asked all of them to stop. The flag is only a
/// hint, so the weakest memory ordering is enough.
pub(crate) fn stop_requested(flag: &AtomicBool) -> bool {
    flag.load(Ordering::Relaxed)
}

/// Asks every worker that shares `flag` to stop.
pub(crate) fn request_stop(flag: &AtomicBool) {
    flag.store(true, Ordering::Relaxed)
}

/// `core_affinity::set_for_current`: asks the system to keep the calling
/// thread on one core and says whether it agreed. On Linux the core's bit is
/// set in a mask of 1024 places, so the id has to be below that.
#[verifier::external_body]
pub(crate) fn pin_to_core(core: usize) -> (pinned: bool)
    requires
        core < 1024,
{
    core_affinity::set_for_current(core_affinity::CoreId { id: core })
}

/// `core_affinity::get_core_ids`: the ids of the cores on which this process
/// may run, lowest first and each one once, or nothing where the system does
/// not tell.
#[verifier::external_body]
pub(crate) fn enumerate_cores() -> (ids: Option<Vec<usize>>)
    ensures
        ids matches Some(cores) ==> rising(cores@),
{
    match core_affinity::get_core_ids() {
        Some(cores) => Some(cores.into_iter().map(|c| c.id).collect()),
        None => None,
    }
}

/// `num_cpus::get`: the number of logical cores available to this process,
/// which its documentation promises to be at least one.
#[verifier::external_body]
pub(crate) fn logical_cores() -> (count: usize)
    ensures
        count >= 1,
{
    num_cpus::get()
}

} // verus!
