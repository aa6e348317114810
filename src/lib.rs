use vstd::prelude::*;

pub mod ancestor;
pub mod job;
pub mod queue;
pub mod tally;

verus! {

/// The concurrency used when none, or zero, is configured.
pub const DEFAULT_CONCURRENCY: u8 = 4;

/// The number of workers to start for a configured concurrency level.
pub fn effective_concurrency(configured: Option<u8>) -> (r: u8)
    ensures
        r >= 1,
        r == match configured {
            Some(v) => if v > 0 { v } else { DEFAULT_CONCURRENCY },
            None => DEFAULT_CONCURRENCY,
        },
{
    match configured {
        Some(v) => if v > 0 { v } else { DEFAULT_CONCURRENCY },
        None => DEFAULT_CONCURRENCY,
    }
}

} // verus!
