use vstd::prelude::*;
use crate::unordered::TaskOutcome;
use crate::unordered::collect_unordered;

verus! {

/// What one page fetch came back with: the full body was read and has the
/// given length, or the request itself failed, or the body could not be
/// read. The response status is never inspected: any response whose body
/// can be read counts by its length.
pub enum FetchOutcome {
    Body(usize),
    RequestFailed,
    ReadFailed,
}

/// The byte count a fetch outcome contributes to the total: the body
/// length on success, the sentinel zero on either failure.
pub open spec fn spec_len_or_zero(o: FetchOutcome) -> int {
    match o {
        FetchOutcome::Body(len) => len as int,
        FetchOutcome::RequestFailed => 0,
        FetchOutcome::ReadFailed => 0,
    }
}

/// Maps one fetch outcome to its byte count. A failed fetch is recovered
/// right here, as a zero-length result: it is never propagated, so it can
/// abort neither its sibling units nor the collector that consumes them.
pub fn len_or_zero(o: &FetchOutcome) -> (r: usize)
    ensures
        r == spec_len_or_zero(*o),
{
    match o {
        FetchOutcome::Body(len) => *len,
        FetchOutcome::RequestFailed => 0,
        FetchOutcome::ReadFailed => 0,
    }
}

/// Consumes the fetch outcomes of a batch of detached units, in the order
/// they finished, through the unordered collector. Every unit yields —
/// a unit whose fetch failed yields the sentinel zero instead of aborting
/// the collection — so the output always holds exactly one byte count per
/// unit, in completion order.
pub fn collect_fetches(outcomes: &Vec<FetchOutcome>) -> (sizes: Vec<usize>)
    ensures
        sizes@.len() == outcomes@.len(),
        forall|i: int| 0 <= i < outcomes@.len() ==> sizes@[i] == spec_len_or_zero(outcomes@[i]),
{
    let n: usize = outcomes.len();
    let mut units: Vec<TaskOutcome<usize>> = Vec::new();
    let mut k: usize = 0;
    while k < n
        invariant
            n == outcomes@.len(),
            k <= n,
            units@.len() == k,
            forall|m: int| 0 <= m < k ==> units@[m] == TaskOutcome::Done(
                spec_len_or_zero(outcomes@[m]) as usize,
            ),
        decreases n - k,
    {
        units.push(TaskOutcome::Done(len_or_zero(&outcomes[k])));
        k = k + 1;
    }
    match collect_unordered(&units) {
        Ok(sizes) => sizes,
        Err(e) => {
            proof {
                assert(units@[e.position as int] is TaskFailed);
                assert(false);
            }
            Vec::new()
        },
    }
}

/// Running total of byte counts, as the demonstration folds them up.
pub open spec fn spec_total(sizes: Seq<usize>) -> int
    decreases sizes.len(),
{
    if sizes.len() == 0 {
        0
    } else {
        spec_total(sizes.drop_last()) + sizes.last()
    }
}

/// Sums the byte counts of a drained collection; `None` when the total
/// does not fit in the accumulator.
pub fn total_bytes(sizes: &Vec<usize>) -> (r: Option<u64>)
    ensures
        match r {
            Some(t) => t == spec_total(sizes@),
            None => spec_total(sizes@) > u64::MAX,
        },
{
    let mut total: u64 = 0;
    let mut k: usize = 0;
    while k < sizes.len()
        invariant
            k <= sizes@.len(),
            total == spec_total(sizes@.take(k as int)),
        decreases sizes@.len() - k,
    {
        proof {
            assert(sizes@.take(k as int + 1).drop_last() =~= sizes@.take(k as int));
            lemma_total_grows(sizes@, k as int + 1);
        }
        let size: u64 = sizes[k] as u64;
        total = match total.checked_add(size) {
            Some(t) => t,
            None => {
                return None;
            },
        };
        k = k + 1;
    }
    proof {
        assert(sizes@.take(sizes@.len() as int) =~= sizes@);
    }
    Some(total)
}

/// Summing is folding the byte counts up one by one, whatever start the
/// accumulator had.
proof fn lemma_total_is_fold(sizes: Seq<usize>, f: spec_fn(usize, int) -> int, b: int)
    requires
        forall|x: usize, acc: int| #[trigger] f(x, acc) == acc + x,
    ensures
        sizes.fold_right(f, b) == spec_total(sizes) + b,
    decreases sizes.len(),
{
    if sizes.len() > 0 {
        lemma_total_is_fold(sizes.drop_last(), f, b + sizes.last());
    }
}

/// The reported byte total does not depend on the order in which the
/// collector yielded the sizes: two drains of the same units — say the
/// unordered consumption and the serial baseline over one batch — sum to
/// the same total.
pub proof fn lemma_total_order_independent(a: Seq<usize>, b: Seq<usize>)
    requires
        a.to_multiset() == b.to_multiset(),
    ensures
        spec_total(a) == spec_total(b),
{
    let f = (|x: usize, acc: int| acc + x);
    lemma_total_is_fold(a, f, 0);
    lemma_total_is_fold(b, f, 0);
    vstd::seq_lib::lemma_fold_right_permutation(a, b, f, 0);
}

/// Once the running total has overflowed, the total over the whole batch
/// has overflowed too: byte counts only accumulate.
proof fn lemma_total_grows(sizes: Seq<usize>, k: int)
    requires
        0 <= k <= sizes.len(),
    ensures
        spec_total(sizes) >= spec_total(sizes.take(k)),
    decreases sizes.len() - k,
{
    if k < sizes.len() {
        assert(sizes.take(k + 1).drop_last() =~= sizes.take(k));
        lemma_total_grows(sizes, k + 1);
    } else {
        assert(sizes.take(k) =~= sizes);
    }
}

} // verus!
