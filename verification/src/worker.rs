//! The worker: a busy loop that duplicates the payload and counts.

use std::sync::atomic::{AtomicBool, AtomicUsize, Ordering};
use std::sync::Arc;
use vstd::prelude::*;

verus! {

/// Asks every worker and the reporter to stop: lowers the run flag, and
/// touches nothing else. Nothing raises the flag again, so a second request
/// changes nothing. This is all that an interrupt handler does to the shared
/// values.
pub fn request_stop(running: &AtomicBool) {
    running.store(false, Ordering::Relaxed);
}

/// One duplication of the payload's full content.
pub fn duplicate(payload: &String) -> (copy: String)
    ensures
        copy@ == payload@,
{
    payload.clone()
}

/// Runs a worker for at most `limit` rounds, and returns the number of rounds
/// that it has done.
///
/// Before each round the run flag is read, and `begins_round` decides from
/// the reading. A round duplicates the payload, drops the copy and adds one
/// to the counter, without blocking or sleeping; once begun it is finished.
/// The readings depend on the other threads: the result is only bounded.
pub fn processor_rounds(
    shared_string: &String,
    counter: &AtomicUsize,
    running: &AtomicBool,
    limit: usize,
) -> (rounds: usize)
    ensures
        rounds <= limit,
{
    let mut rounds: usize = 0;
    while begins_round(rounds, limit, running.load(Ordering::Relaxed))
        invariant
            rounds <= limit,
        decreases limit - rounds,
    {
        let _copy = duplicate(shared_string);
        counter.fetch_add(1, Ordering::Relaxed);
        rounds = rounds + 1;
    }
    rounds
}

/// Whether a worker that has done `rounds` rounds of at most `limit` begins
/// another one, with the run flag just read as `running`: it does while
/// rounds are left and the flag is up.
pub fn begins_round(rounds: usize, limit: usize, running: bool) -> (begins: bool)
    ensures
        begins == (rounds < limit && running),
{
    rounds < limit && running
}

/// Runs one worker until the run flag is down.
///
/// A single worker ends after `usize::MAX` rounds of its own, the most that
/// the counter can tell apart.
pub fn processor_task(
    shared_string: Arc<String>,
    counter: Arc<AtomicUsize>,
    running: Arc<AtomicBool>,
) {
    let _rounds: usize = processor_rounds(&shared_string, &counter, &running, usize::MAX);
}

} // verus!
