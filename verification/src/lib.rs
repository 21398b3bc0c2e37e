mod fetch;
mod ordered;
mod schedule;
mod timing;
mod unordered;

pub use fetch::FetchOutcome;
pub use fetch::collect_fetches;
pub use fetch::lemma_total_order_independent;
pub use fetch::len_or_zero;
pub use fetch::spec_len_or_zero;
pub use fetch::spec_total;
pub use fetch::total_bytes;

pub use timing::concurrent_elapsed;
pub use timing::concurrent_time;
pub use timing::lemma_concurrent_at_most_serial;
pub use timing::lemma_uniform_batch_times;
pub use timing::ordered_yield_times;
pub use timing::serial_elapsed;
pub use timing::serial_time;

pub use schedule::completion_order;
pub use schedule::delays_in_order;
pub use schedule::finishes_no_later;
pub use schedule::run_ordered;
pub use schedule::run_unordered;

pub use unordered::SchedulerFailure;
pub use unordered::TaskOutcome;
pub use unordered::collect_unordered;
pub use unordered::done_values;

pub use ordered::OrderedCollector;
pub use ordered::Slot;
pub use ordered::collect_ordered;
pub use ordered::is_completion_order;

use vstd::prelude::*;

verus! {

/// Whether a unit of work is bound to its collector's scope or runs
/// independently once started. An attached unit is abandoned with its
/// collector; a detached unit is handed to the scheduler and keeps running
/// whether or not anyone still awaits it.
#[derive(Clone, Copy, PartialEq, Eq, Structural, Debug)]
pub enum LaunchMode {
    Attached,
    Detached,
}

/// Whether units launched in this mode keep running once their collector
/// is abandoned mid-stream: abandoning an attached collection cancels its
/// still-pending units as a side effect of scope exit, while detached
/// units continue independently.
pub fn survives_abandon(mode: LaunchMode) -> (r: bool)
    ensures
        r <==> mode is Detached,
{
    match mode {
        LaunchMode::Attached => false,
        LaunchMode::Detached => true,
    }
}

/// Builds the batch of inputs for the delay demonstration: the values
/// `1, 2, ..., n` in submission order.
pub fn ascending_batch(n: u64) -> (r: Vec<u64>)
    ensures
        r@.len() == n,
        forall|i: int| 0 <= i < n ==> r@[i] == i + 1,
{
    let mut r: Vec<u64> = Vec::new();
    let mut k: u64 = 0;
    while k < n
        invariant
            k <= n,
            r@.len() == k,
            forall|i: int| 0 <= i < k ==> r@[i] == i + 1,
        decreases n - k,
    {
        r.push(k + 1);
        k = k + 1;
    }
    r
}

} // verus!
