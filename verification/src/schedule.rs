use vstd::prelude::*;
use crate::ordered::collect_ordered;
use crate::ordered::is_completion_order;
use crate::unordered::SchedulerFailure;
use crate::unordered::TaskOutcome;
use crate::unordered::collect_unordered;

verus! {

/// The delays of the batch, read off in the order `ord`: entry `k` is the
/// delay of the unit that finishes `k`-th.
pub open spec fn delays_in_order(delays: Seq<u64>, ord: Seq<usize>) -> Seq<u64> {
    Seq::new(ord.len(), |k: int| delays[ord[k] as int])
}

/// Position `a` finishes no later than position `b`: it has the smaller
/// delay, or the same delay and the earlier submission position (units
/// start together, and of two equal sleeps the one submitted first is
/// completed first by this model's scheduler).
pub open spec fn finishes_no_later(delays: Seq<u64>, a: usize, b: usize) -> bool {
    delays[a as int] < delays[b as int] || (delays[a as int] == delays[b as int] && a <= b)
}

/// The completion order of a batch of sleeping units that all start at the
/// same instant: a permutation of the positions, sorted by delay, ties
/// resolved in submission order. This is the scheduler model the
/// simulations run against.
pub fn completion_order(delays: &Vec<u64>) -> (ord: Vec<usize>)
    ensures
        is_completion_order(ord@, delays@.len()),
        forall|k: int, l: int|
            0 <= k < l < ord@.len() ==> finishes_no_later(delays@, ord@[k], ord@[l]),
        delays_in_order(delays@, ord@).to_multiset() == delays@.to_multiset(),
{
    let n: usize = delays.len();
    let mut ord: Vec<usize> = Vec::new();
    let mut k: usize = 0;
    proof {
        broadcast use vstd::seq_lib::group_to_multiset_ensures;

        assert(delays_in_order(delays@, ord@).to_multiset() =~= delays@.take(0).to_multiset());
    }
    while k < n
        invariant
            n == delays@.len(),
            k <= n,
            ord@.len() == k,
            forall|m: int| 0 <= m < k ==> ord@[m] < k,
            forall|m: int, l: int| 0 <= m < l < k ==> ord@[m] != ord@[l],
            forall|j: int| 0 <= j < k ==> #[trigger] ord@.contains(j as usize),
            forall|m: int, l: int|
                0 <= m < l < k ==> finishes_no_later(delays@, ord@[m], ord@[l]),
            delays_in_order(delays@, ord@).to_multiset() == delays@.take(k as int).to_multiset(),
        decreases n - k,
    {
        let mut p: usize = 0;
        while p < k
            invariant
                n == delays@.len(),
                k < n,
                ord@.len() == k,
                forall|m: int| 0 <= m < k ==> ord@[m] < k,
                p <= k,
                forall|m: int| 0 <= m < p ==> delays@[ord@[m] as int] <= delays@[k as int],
            ensures
                p <= k,
                forall|m: int| 0 <= m < p ==> delays@[ord@[m] as int] <= delays@[k as int],
                p == k || delays@[ord@[p as int] as int] > delays@[k as int],
            decreases k - p,
        {
            if delays[ord[p]] > delays[k] {
                break ;
            }
            p = p + 1;
        }
        let ghost old_ord: Seq<usize> = ord@;
        ord.insert(p, k);
        proof {
            broadcast use vstd::seq_lib::group_to_multiset_ensures;
            broadcast use vstd::seq_lib::to_multiset_insert;
            broadcast use vstd::seq_lib::lemma_seq_contains_after_push;

            assert(delays_in_order(delays@, ord@) =~= delays_in_order(delays@, old_ord).insert(
                p as int,
                delays@[k as int],
            ));
            assert(delays@.take(k as int + 1) =~= delays@.take(k as int).push(delays@[k as int]));
            assert(delays_in_order(delays@, ord@).to_multiset() == delays@.take(
                k as int + 1,
            ).to_multiset());
            assert forall|j: int| 0 <= j < k + 1 implies #[trigger] ord@.contains(j as usize) by {
                if j < k {
                    assert(old_ord.contains(j as usize));
                    let m: int = choose|m: int| 0 <= m < k && old_ord[m] == j as usize;
                    if m < p {
                        assert(ord@[m] == j as usize);
                    } else {
                        assert(ord@[m + 1] == j as usize);
                    }
                } else {
                    assert(ord@[p as int] == j as usize);
                }
            }
            assert forall|m: int, l: int|
                0 <= m < l < k + 1 implies finishes_no_later(delays@, ord@[m], ord@[l]) by {
                if m < p && l == p {
                    assert(ord@[m] == old_ord[m]);
                } else if m == p && l > p {
                    assert(ord@[l] == old_ord[l - 1]);
                    if p < k {
                        assert(delays@[old_ord[p as int] as int] > delays@[k as int]);
                        assert(finishes_no_later(delays@, old_ord[p as int], old_ord[l - 1]));
                    }
                }
            }
        }
        k = k + 1;
    }
    proof {
        assert(delays@.take(n as int) =~= delays@);
    }
    ord
}

/// Runs the delay batch through the unordered path end to end under the
/// scheduler model: every unit is detached, sleeps for its delay, echoes
/// it, and the collector consumes the echoes first-finished-first. The
/// output is exactly one echo per unit — the same multiset of values as
/// the batch, nothing dropped, nothing duplicated — in ascending order of
/// delay; in particular the first value yielded is the smallest delay of
/// the batch.
pub fn run_unordered(delays: &Vec<u64>) -> (out: Vec<u64>)
    ensures
        out@.len() == delays@.len(),
        out@.to_multiset() == delays@.to_multiset(),
        forall|k: int, l: int| 0 <= k < l < out@.len() ==> out@[k] <= out@[l],
        delays@.len() > 0 ==> forall|i: int| 0 <= i < delays@.len() ==> out@[0] <= delays@[i],
        delays@.len() > 0 ==> delays@.contains(out@[0]),
{
    let ord: Vec<usize> = completion_order(delays);
    let n: usize = delays.len();
    let mut outcomes: Vec<TaskOutcome<u64>> = Vec::new();
    let mut k: usize = 0;
    while k < n
        invariant
            n == delays@.len(),
            is_completion_order(ord@, n as nat),
            k <= n,
            outcomes@.len() == k,
            forall|m: int| 0 <= m < k ==> outcomes@[m] == TaskOutcome::Done(
                delays@[ord@[m] as int],
            ),
        decreases n - k,
    {
        outcomes.push(TaskOutcome::Done(delays[ord[k]]));
        k = k + 1;
    }
    let collected: Result<Vec<u64>, SchedulerFailure> = collect_unordered(&outcomes);
    match collected {
        Ok(out) => {
            proof {
                broadcast use vstd::seq_lib::group_to_multiset_ensures;

                assert(out@ =~= delays_in_order(delays@, ord@));
                assert forall|k: int, l: int| 0 <= k < l < out@.len() implies out@[k] <= out@[l] by {
                    assert(finishes_no_later(delays@, ord@[k], ord@[l]));
                }
                if delays@.len() > 0 {
                    assert(delays@.contains(out@[0])) by {
                        assert(out@.contains(out@[0]));
                        assert(delays@.to_multiset().count(out@[0]) > 0);
                    }
                    assert forall|i: int| 0 <= i < delays@.len() implies out@[0] <= delays@[i] by {
                        assert(ord@.contains(i as usize));
                        let m: int = choose|m: int| 0 <= m < ord@.len() && ord@[m] == i as usize;
                        if m > 0 {
                            assert(finishes_no_later(delays@, ord@[0], ord@[m]));
                        }
                    }
                }
            }
            out
        },
        Err(e) => {
            proof {
                assert(outcomes@[e.position as int] is TaskFailed);
                assert(false);
            }
            Vec::new()
        },
    }
}

/// Runs the delay batch through the ordered path end to end under the
/// scheduler model: the units sleep and echo concurrently, finishing in
/// the model's completion order, and the collector yields the echoes in
/// submission order — the output simply equals the batch.
pub fn run_ordered(delays: &Vec<u64>) -> (out: Vec<u64>)
    ensures
        out@ == delays@,
{
    let ord: Vec<usize> = completion_order(delays);
    collect_ordered(delays, &ord)
}

} // verus!
