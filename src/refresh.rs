use vstd::prelude::*;

use crate::exposition::{exposition, export_prometheus_metrics};
use crate::metrics::ValidatorMetrics;

verus! {

/// How long one fetch may take before the cycle counts as timed out.
pub const RPC_TIMEOUT_MILLIS: u64 = 4500;

/// Pause added to the duration of a cycle before the next one starts.
pub const PACING_MILLIS: u64 = 2000;

/// How one refresh cycle ended.
pub enum RefreshOutcome {
    /// The snapshot was fetched and ranked; `duration` is the rendered time in seconds.
    Success { metrics: Vec<ValidatorMetrics>, active_count: usize, duration: String },
    /// The fetch failed.
    RpcFailure,
    /// The fetch did not finish within the bound.
    Timeout,
}

/// The exposition text that replaces the cache after a cycle. A failed or timed out
/// cycle reports no validators, a status of 0 and a duration of 0.
pub fn exposition_for(outcome: RefreshOutcome) -> (r: String)
    ensures
        match outcome {
            RefreshOutcome::Success { metrics, active_count, duration } => r@ == exposition(
                metrics@,
                active_count as nat,
                1,
                duration@,
                0,
            ),
            RefreshOutcome::RpcFailure => r@ == exposition(Seq::empty(), 0, 0, "0"@, 0),
            RefreshOutcome::Timeout => r@ == exposition(Seq::empty(), 0, 0, "0"@, 1),
        },
{
    match outcome {
        RefreshOutcome::Success { metrics, active_count, duration } => {
            export_prometheus_metrics(metrics, active_count, 1, duration.as_str(), 0)
        },
        RefreshOutcome::RpcFailure => export_prometheus_metrics(Vec::new(), 0, 0, "0", 0),
        RefreshOutcome::Timeout => export_prometheus_metrics(Vec::new(), 0, 0, "0", 1),
    }
}

/// The pause before the next cycle: the time the cycle took plus the pacing constant,
/// saturating at the largest value.
pub fn next_delay_millis(elapsed_millis: u64) -> (r: u64)
    ensures
        r == (if elapsed_millis + PACING_MILLIS <= u64::MAX {
            elapsed_millis + PACING_MILLIS
        } else {
            u64::MAX as int
        }),
{
    elapsed_millis.saturating_add(PACING_MILLIS)
}

} // verus!
