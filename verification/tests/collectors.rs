use batch_completion::FetchOutcome;
use batch_completion::LaunchMode;
use batch_completion::TaskOutcome;
use batch_completion::ascending_batch;
use batch_completion::collect_fetches;
use batch_completion::collect_ordered;
use batch_completion::collect_unordered;
use batch_completion::completion_order;
use batch_completion::concurrent_elapsed;
use batch_completion::len_or_zero;
use batch_completion::ordered_yield_times;
use batch_completion::run_ordered;
use batch_completion::run_unordered;
use batch_completion::serial_elapsed;
use batch_completion::survives_abandon;
use batch_completion::total_bytes;

#[test]
fn ordered_scenario_three_one_two() {
    // Batch [3, 1, 2]: units 1 and 2 finish first but are buffered; the
    // collector still yields the echoes in submission order.
    let delays: Vec<u64> = vec![3, 1, 2];
    assert_eq!(run_ordered(&delays), vec![3, 1, 2]);
}

#[test]
fn ordered_scenario_yield_instants() {
    // Batch [3, 1, 2]: the first element appears only once 3 time units
    // have passed, by which time the two faster units are already buffered.
    let delays: Vec<u64> = vec![3, 1, 2];
    assert_eq!(ordered_yield_times(&delays), vec![3, 3, 3]);
}

#[test]
fn ordered_yield_instants_mixed() {
    let delays: Vec<u64> = vec![5, 1, 9, 2];
    assert_eq!(ordered_yield_times(&delays), vec![5, 5, 9, 9]);
    let ascending: Vec<u64> = vec![1, 2, 3];
    assert_eq!(ordered_yield_times(&ascending), vec![1, 2, 3]);
}

#[test]
fn ordered_preserves_submission_order_any_completion() {
    let results: Vec<u64> = vec![10, 20, 30, 40, 50];
    let identity: Vec<usize> = vec![0, 1, 2, 3, 4];
    let reversed: Vec<usize> = vec![4, 3, 2, 1, 0];
    let shuffled: Vec<usize> = vec![2, 0, 4, 1, 3];
    assert_eq!(collect_ordered(&results, &identity), results);
    assert_eq!(collect_ordered(&results, &reversed), results);
    assert_eq!(collect_ordered(&results, &shuffled), results);
}

#[test]
fn ordered_empty_batch() {
    let delays: Vec<u64> = vec![];
    assert_eq!(run_ordered(&delays), vec![]);
}

#[test]
fn unordered_scenario_three_one_two() {
    // Batch [3, 1, 2] detached: consumption follows completion, so the
    // echoes come back in ascending delay order.
    let delays: Vec<u64> = vec![3, 1, 2];
    assert_eq!(run_unordered(&delays), vec![1, 2, 3]);
}

#[test]
fn unordered_first_out_is_fastest() {
    // Distinct delays: the first yielded result is the smallest delay.
    let delays: Vec<u64> = vec![7, 4, 9];
    let out = run_unordered(&delays);
    assert_eq!(out[0], 4);
    assert_eq!(out.len(), 3);
}

#[test]
fn unordered_keeps_every_result_once() {
    // Equal delays finish in submission order; each result appears exactly
    // once, the multiset of outputs matching the batch.
    let delays: Vec<u64> = vec![5, 5, 2];
    assert_eq!(run_unordered(&delays), vec![2, 5, 5]);
}

#[test]
fn unordered_empty_batch() {
    let delays: Vec<u64> = vec![];
    assert_eq!(run_unordered(&delays), vec![]);
}

#[test]
fn completion_order_sorts_by_delay() {
    let delays: Vec<u64> = vec![3, 1, 2];
    assert_eq!(completion_order(&delays), vec![1, 2, 0]);
    let ties: Vec<u64> = vec![2, 2, 1];
    assert_eq!(completion_order(&ties), vec![2, 0, 1]);
}

#[test]
fn unordered_consumes_outcomes_in_arrival_order() {
    let outcomes: Vec<TaskOutcome<u64>> = vec![
        TaskOutcome::Done(8),
        TaskOutcome::Done(3),
        TaskOutcome::Done(5),
    ];
    let out = collect_unordered(&outcomes);
    match out {
        Ok(values) => assert_eq!(values, vec![8, 3, 5]),
        Err(_) => panic!("no task failed"),
    }
}

#[test]
fn unordered_task_failure_is_fatal() {
    // A scheduler-level failure stops consumption at its position; the
    // results before it were already yielded, nothing is skipped silently.
    let outcomes: Vec<TaskOutcome<u64>> = vec![
        TaskOutcome::Done(8),
        TaskOutcome::TaskFailed,
        TaskOutcome::Done(5),
    ];
    match collect_unordered(&outcomes) {
        Ok(_) => panic!("the failed task must surface"),
        Err(e) => assert_eq!(e.position, 1),
    }
}

#[test]
fn fetch_failure_counts_as_zero() {
    assert_eq!(len_or_zero(&FetchOutcome::Body(2048)), 2048);
    assert_eq!(len_or_zero(&FetchOutcome::RequestFailed), 0);
    assert_eq!(len_or_zero(&FetchOutcome::ReadFailed), 0);
}

#[test]
fn fetch_failure_does_not_abort_siblings() {
    // One unit's request fails, another's body read fails: both still
    // yield (as zeros) and the collector drains all four units.
    let outcomes: Vec<FetchOutcome> = vec![
        FetchOutcome::Body(100),
        FetchOutcome::RequestFailed,
        FetchOutcome::Body(250),
        FetchOutcome::ReadFailed,
    ];
    let sizes = collect_fetches(&outcomes);
    assert_eq!(sizes, vec![100, 0, 250, 0]);
    assert_eq!(total_bytes(&sizes), Some(350));
}

#[test]
fn total_bytes_sums_exactly() {
    let sizes: Vec<usize> = vec![1, 2, 3, 4];
    assert_eq!(total_bytes(&sizes), Some(10));
    let empty: Vec<usize> = vec![];
    assert_eq!(total_bytes(&empty), Some(0));
}

#[test]
fn total_is_independent_of_drain_order() {
    // The serial baseline and the unordered run sum the same units: the
    // totals agree whatever order the results were consumed in.
    let in_submission_order: Vec<usize> = vec![400, 100, 250];
    let in_completion_order: Vec<usize> = vec![100, 250, 400];
    assert_eq!(
        total_bytes(&in_submission_order),
        total_bytes(&in_completion_order)
    );
}

#[test]
fn total_bytes_overflow_is_reported() {
    let sizes: Vec<usize> = vec![usize::MAX, usize::MAX, usize::MAX];
    assert_eq!(total_bytes(&sizes), None);
}

#[test]
fn serial_elapsed_adds_latencies() {
    let delays: Vec<u64> = vec![1, 2, 3, 4, 5];
    assert_eq!(serial_elapsed(&delays), Some(15));
    let empty: Vec<u64> = vec![];
    assert_eq!(serial_elapsed(&empty), Some(0));
}

#[test]
fn serial_elapsed_overflow_is_reported() {
    let delays: Vec<u64> = vec![u64::MAX, 1];
    assert_eq!(serial_elapsed(&delays), None);
}

#[test]
fn concurrent_elapsed_is_slowest_unit() {
    let delays: Vec<u64> = vec![1, 2, 3, 4, 5];
    assert_eq!(concurrent_elapsed(&delays), 5);
    let empty: Vec<u64> = vec![];
    assert_eq!(concurrent_elapsed(&empty), 0);
}

#[test]
fn uniform_batch_shows_the_speedup() {
    // Four units of latency 3: the serial baseline takes 4 x 3 = 12 while
    // the concurrent run takes 3 alone.
    let delays: Vec<u64> = vec![3, 3, 3, 3];
    assert_eq!(serial_elapsed(&delays), Some(12));
    assert_eq!(concurrent_elapsed(&delays), 3);
}

#[test]
fn ascending_batch_counts_from_one() {
    let batch = ascending_batch(5);
    assert_eq!(batch, vec![1, 2, 3, 4, 5]);
    assert_eq!(ascending_batch(0), vec![]);
}

#[test]
fn detached_units_outlive_their_collector() {
    assert!(survives_abandon(LaunchMode::Detached));
    assert!(!survives_abandon(LaunchMode::Attached));
}
