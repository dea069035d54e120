//! Timing of the packet pacer: one MSS-sized datagram leaves per tick, so
//! the tick interval is the time the pacing rate takes for one MSS.

use vstd::prelude::*;

use crate::scream::MSS;

verus! {

/// Interval used when the rate is too low for one datagram per second.
pub const IDLE_INTERVAL_US: u64 = 1_000_000;

/// Bits in one MSS-sized datagram.
pub const MSS_BITS: u64 = MSS * 8;

/// Tick interval in microseconds for a pacing rate in bits per second.
pub open spec fn pacer_interval(pacing_rate_bps: int) -> int {
    if pacing_rate_bps < MSS_BITS {
        IDLE_INTERVAL_US as int
    } else {
        MSS_BITS * 1_000_000 / pacing_rate_bps
    }
}

pub fn calculate_interval(pacing_rate_bps: u64) -> (r: u64)
    ensures
        r == pacer_interval(pacing_rate_bps as int),
        r <= IDLE_INTERVAL_US,
{
    if pacing_rate_bps < MSS_BITS {
        IDLE_INTERVAL_US
    } else {
        proof {
            assert(MSS_BITS * 1_000_000 / (pacing_rate_bps as int) <= MSS_BITS * 1_000_000 / (MSS_BITS as int))
                by (nonlinear_arith)
                requires pacing_rate_bps >= MSS_BITS, MSS_BITS > 0;
        }
        MSS_BITS * 1_000_000 / pacing_rate_bps
    }
}

/// How handing a datagram to the pacer's bounded queue went.
#[derive(Debug, Clone, Copy, PartialEq, Eq)]
pub enum EnqueueOutcome {
    Queued,
    /// The queue was full and the datagram was dropped.
    Full,
    /// The pacer is gone.
    Closed,
}

/// What the engine's output reports for a datagram of `len` bytes: a
/// dropped datagram counts as written, since the engine retransmits it;
/// a closed pacer is a broken pipe (`None`).
pub fn output_write_result(outcome: EnqueueOutcome, len: usize) -> (r: Option<usize>)
    ensures
        r == (if outcome == EnqueueOutcome::Closed { None } else { Some(len) }),
{
    match outcome {
        EnqueueOutcome::Closed => None,
        _ => Some(len),
    }
}

} // verus!
