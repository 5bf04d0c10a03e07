//! Admission control for the accept loop.
//!
//! The server keeps one shared handle whose number of live copies stands for
//! the work in flight: the accept loop holds one copy for as long as it runs,
//! and every worker holds one more from the moment it is spawned until it
//! ends, however it ends. The accept loop reads that number once per accepted
//! connection and decides here whether the connection gets a worker. Nothing
//! waits for a free place: a connection that finds none is dropped.
//!
//! The number is read without any lock. A worker that was admitted a moment
//! ago may not have been counted yet, so more workers than the limit can run
//! for a short while.

use vstd::prelude::*;

verus! {

/// The limit under which the server runs unless it is told otherwise.
pub const MAX_WORKERS: usize = 128;

/// The number of live handles while `active` workers run: theirs, and the
/// one of the accept loop.
pub open spec fn spec_live(active: nat) -> nat {
    active + 1
}

/// Whether a count of `live` handles lets one more worker start under a
/// limit of `max_workers`.
pub open spec fn spec_admits(live: nat, max_workers: nat) -> bool {
    live <= max_workers
}

/// Decides whether the connection that was just accepted gets a worker.
///
/// `live` is the number of handles alive at this moment, the accept loop's
/// own among them. A connection that is not admitted is dropped unanswered.
pub fn admits(live: usize, max_workers: usize) -> (admitted: bool)
    ensures
        admitted == spec_admits(live as nat, max_workers as nat),
{
    live <= max_workers
}

/// The number of workers that run, as a worker counts them when it starts:
/// the live handles less one. The worker that asks is among them.
pub fn active_workers(live: usize) -> (active: usize)
    requires
        live >= 1,
    ensures
        spec_live(active as nat) == live,
{
    live - 1
}

/// A connection gets a worker exactly while fewer workers run than the
/// limit allows. With as many running as the limit, or more, it gets none,
/// and so receives no byte.
pub proof fn lemma_full_server_admits_none(active: nat, max_workers: nat)
    ensures
        spec_admits(spec_live(active), max_workers) <==> active < max_workers,
{
}

} // verus!
