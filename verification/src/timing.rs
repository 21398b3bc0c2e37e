use vstd::prelude::*;

verus! {

/// Total time of running the units one after the other: each unit starts
/// only when the one before it has finished, so the latencies add up.
pub open spec fn serial_time(delays: Seq<u64>) -> int
    decreases delays.len(),
{
    if delays.len() == 0 {
        0
    } else {
        serial_time(delays.drop_last()) + delays.last()
    }
}

/// Total time of running the units concurrently: they all start together,
/// so the batch is done when its slowest unit is (zero for an empty batch).
pub open spec fn concurrent_time(delays: Seq<u64>) -> int
    decreases delays.len(),
{
    if delays.len() == 0 {
        0
    } else if concurrent_time(delays.drop_last()) >= delays.last() {
        concurrent_time(delays.drop_last())
    } else {
        delays.last() as int
    }
}

/// The elapsed time of the serial baseline over the batch, measured in the
/// units of the delays; `None` when the sum does not fit in the counter.
pub fn serial_elapsed(delays: &Vec<u64>) -> (r: Option<u64>)
    ensures
        match r {
            Some(t) => t == serial_time(delays@),
            None => serial_time(delays@) > u64::MAX,
        },
{
    let mut total: u64 = 0;
    let mut k: usize = 0;
    while k < delays.len()
        invariant
            k <= delays@.len(),
            total == serial_time(delays@.take(k as int)),
        decreases delays@.len() - k,
    {
        proof {
            assert(delays@.take(k as int + 1).drop_last() =~= delays@.take(k as int));
            lemma_serial_time_grows(delays@, k as int + 1);
        }
        total = match total.checked_add(delays[k]) {
            Some(t) => t,
            None => {
                return None;
            },
        };
        k = k + 1;
    }
    proof {
        assert(delays@.take(delays@.len() as int) =~= delays@);
    }
    Some(total)
}

/// Once the running serial total has overflowed, the total over the whole
/// batch has overflowed too: latencies only accumulate.
proof fn lemma_serial_time_grows(delays: Seq<u64>, k: int)
    requires
        0 <= k <= delays.len(),
    ensures
        serial_time(delays) >= serial_time(delays.take(k)),
    decreases delays.len() - k,
{
    if k < delays.len() {
        assert(delays.take(k + 1).drop_last() =~= delays.take(k));
        lemma_serial_time_grows(delays, k + 1);
    } else {
        assert(delays.take(k) =~= delays);
    }
}

/// The elapsed time of the concurrent run over the batch: the largest
/// delay, zero for an empty batch.
pub fn concurrent_elapsed(delays: &Vec<u64>) -> (r: u64)
    ensures
        r == concurrent_time(delays@),
        forall|i: int| 0 <= i < delays@.len() ==> delays@[i] <= r,
        delays@.len() > 0 ==> delays@.contains(r),
{
    let mut worst: u64 = 0;
    let mut k: usize = 0;
    while k < delays.len()
        invariant
            k <= delays@.len(),
            worst == concurrent_time(delays@.take(k as int)),
            forall|i: int| 0 <= i < k ==> delays@[i] <= worst,
            k > 0 ==> delays@.contains(worst),
        decreases delays@.len() - k,
    {
        proof {
            assert(delays@.take(k as int + 1).drop_last() =~= delays@.take(k as int));
        }
        if delays[k] > worst {
            worst = delays[k];
        }
        k = k + 1;
    }
    proof {
        assert(delays@.take(delays@.len() as int) =~= delays@);
    }
    worst
}

/// The instant at which the ordered collector yields position `i`, counted
/// from the start of the batch: all units start together, and position `i`
/// is yielded once it and every earlier position have finished, that is at
/// the largest delay among positions `0 ..= i`. In particular position `i`
/// is never yielded before its own delay has passed, and yield instants
/// never decrease along the batch.
pub fn ordered_yield_times(delays: &Vec<u64>) -> (times: Vec<u64>)
    ensures
        times@.len() == delays@.len(),
        forall|i: int| 0 <= i < delays@.len() ==> times@[i] == concurrent_time(
            delays@.take(i + 1),
        ),
        forall|i: int| 0 <= i < delays@.len() ==> delays@[i] <= times@[i],
        forall|i: int, j: int| 0 <= i < j < delays@.len() ==> times@[i] <= times@[j],
{
    let mut times: Vec<u64> = Vec::new();
    let mut worst: u64 = 0;
    let mut k: usize = 0;
    while k < delays.len()
        invariant
            k <= delays@.len(),
            times@.len() == k,
            worst == concurrent_time(delays@.take(k as int)),
            forall|i: int| 0 <= i < k ==> times@[i] == concurrent_time(delays@.take(i + 1)),
            forall|i: int| 0 <= i < k ==> delays@[i] <= times@[i],
            forall|i: int| 0 <= i < k ==> times@[i] <= worst,
            forall|i: int, j: int| 0 <= i < j < k ==> times@[i] <= times@[j],
        decreases delays@.len() - k,
    {
        proof {
            assert(delays@.take(k as int + 1).drop_last() =~= delays@.take(k as int));
        }
        if delays[k] > worst {
            worst = delays[k];
        }
        times.push(worst);
        k = k + 1;
    }
    times
}

/// Why the concurrent run is the faster one: over any batch, the largest
/// delay never exceeds the sum of the delays.
pub proof fn lemma_concurrent_at_most_serial(delays: Seq<u64>)
    ensures
        concurrent_time(delays) <= serial_time(delays),
    decreases delays.len(),
{
    if delays.len() > 0 {
        lemma_concurrent_at_most_serial(delays.drop_last());
    }
}

/// Over a batch of `k` units of one common latency `l`, the serial baseline
/// takes `k * l` while the concurrent run takes `l` alone: the speedup the
/// two paths exist to contrast.
pub proof fn lemma_uniform_batch_times(delays: Seq<u64>, l: u64)
    requires
        forall|i: int| 0 <= i < delays.len() ==> delays[i] == l,
    ensures
        serial_time(delays) == delays.len() * l,
        delays.len() > 0 ==> concurrent_time(delays) == l,
    decreases delays.len(),
{
    if delays.len() > 0 {
        assert forall|i: int| 0 <= i < delays.drop_last().len() implies delays.drop_last()[i]
            == l by {
            assert(delays[i] == l);
        }
        lemma_uniform_batch_times(delays.drop_last(), l);
        if delays.len() == 1 {
            assert(concurrent_time(delays.drop_last()) == 0);
        }
        assert(delays.len() * l == (delays.len() - 1) * l + l) by (nonlinear_arith);
    }
}

} // verus!
