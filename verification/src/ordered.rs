use vstd::prelude::*;

verus! {

/// One position of an ordered collector: either still waiting for its unit
/// of work, or holding that unit's result until its turn comes up.
pub enum Slot<T> {
    Pending,
    Filled(T),
}

/// Collects the results of a batch of concurrently completing units of work
/// and yields them in submission order: position `i` is yielded only after
/// positions `0 .. i` have been yielded, however early its unit finished.
/// Early results are buffered in their slots.
pub struct OrderedCollector<T> {
    slots: Vec<Slot<T>>,
    cursor: usize,
}

impl<T: Copy> OrderedCollector<T> {
    /// Every position before the cursor has been filled (and yielded).
    pub closed spec fn well_formed(self) -> bool {
        &&& self.cursor <= self.slots.len()
        &&& forall|i: int| 0 <= i < self.cursor ==> self.slots@[i] is Filled
    }

    /// Number of positions in the batch.
    pub closed spec fn spec_len(self) -> nat {
        self.slots@.len()
    }

    /// Number of results yielded so far.
    pub closed spec fn yielded(self) -> nat {
        self.cursor as nat
    }

    /// Whether position `i` holds a buffered or already-yielded result.
    pub closed spec fn filled(self, i: int) -> bool {
        self.slots@[i] is Filled
    }

    /// The result buffered at position `i`.
    pub closed spec fn value_at(self, i: int) -> T
        recommends
            0 <= i < self.spec_len(),
            self.filled(i),
    {
        self.slots@[i]->Filled_0
    }

    /// A fresh collector over a batch of `n` units, none of them finished.
    pub fn new(n: usize) -> (c: Self)
        ensures
            c.well_formed(),
            c.spec_len() == n,
            c.yielded() == 0,
            forall|i: int| 0 <= i < n ==> !c.filled(i),
    {
        let mut slots: Vec<Slot<T>> = Vec::new();
        let mut k: usize = 0;
        while k < n
            invariant
                k <= n,
                slots@.len() == k,
                forall|i: int| 0 <= i < k ==> !(slots@[i] is Filled),
            decreases n - k,
        {
            slots.push(Slot::Pending);
            k = k + 1;
        }
        OrderedCollector { slots, cursor: 0 }
    }

    /// Records the completion of the unit at position `i` with result `v`.
    /// Each position completes exactly once.
    pub fn record(&mut self, i: usize, v: T)
        requires
            old(self).well_formed(),
            i < old(self).spec_len(),
            !old(self).filled(i as int),
        ensures
            final(self).well_formed(),
            final(self).spec_len() == old(self).spec_len(),
            final(self).yielded() == old(self).yielded(),
            final(self).filled(i as int),
            final(self).value_at(i as int) == v,
            forall|j: int|
                0 <= j < final(self).spec_len() && j != i ==> (final(self).filled(j) == old(
                    self,
                ).filled(j) && (old(self).filled(j) ==> final(self).value_at(j) == old(
                    self,
                ).value_at(j))),
    {
        self.slots.set(i, Slot::Filled(v));
    }

    /// Yields the next result in submission order, if the unit at the cursor
    /// has already finished; otherwise reports that the collector must keep
    /// waiting, even if later units have finished.
    pub fn try_next(&mut self) -> (r: Option<T>)
        requires
            old(self).well_formed(),
        ensures
            final(self).well_formed(),
            final(self).spec_len() == old(self).spec_len(),
            forall|j: int|
                0 <= j < final(self).spec_len() ==> (final(self).filled(j) == old(self).filled(j)
                    && (old(self).filled(j) ==> final(self).value_at(j) == old(self).value_at(j))),
            match r {
                Some(v) => {
                    &&& old(self).yielded() < old(self).spec_len()
                    &&& old(self).filled(old(self).yielded() as int)
                    &&& v == old(self).value_at(old(self).yielded() as int)
                    &&& final(self).yielded() == old(self).yielded() + 1
                },
                None => {
                    &&& *final(self) == *old(self)
                    &&& (old(self).yielded() == old(self).spec_len() || !old(self).filled(
                        old(self).yielded() as int,
                    ))
                },
            },
    {
        if self.cursor < self.slots.len() {
            match self.slots[self.cursor] {
                Slot::Filled(v) => {
                    self.cursor = self.cursor + 1;
                    Some(v)
                },
                Slot::Pending => None,
            }
        } else {
            None
        }
    }
}

/// The completion order of a batch of `n` units: each position finishes
/// exactly once, so the order is a permutation of `0 .. n`.
pub open spec fn is_completion_order(ord: Seq<usize>, n: nat) -> bool {
    &&& ord.len() == n
    &&& forall|k: int| 0 <= k < n ==> ord[k] < n
    &&& forall|k: int, l: int| 0 <= k < l < n ==> ord[k] != ord[l]
    &&& forall|j: int| 0 <= j < n ==> #[trigger] ord.contains(j as usize)
}

/// Drives an ordered collection to exhaustion: the units of the batch finish
/// in the order given by `order`, the result of the unit at position `i`
/// being `results[i]`, and the collector's output is gathered into one
/// sequence. Whatever the completion order, the output is the results in
/// submission order: exactly one result per unit, none dropped, none
/// duplicated, position `i` yielded before position `j` whenever `i < j`.
pub fn collect_ordered<T: Copy>(results: &Vec<T>, order: &Vec<usize>) -> (out: Vec<T>)
    requires
        is_completion_order(order@, results@.len()),
    ensures
        out@ == results@,
{
    let n: usize = results.len();
    let mut c: OrderedCollector<T> = OrderedCollector::new(n);
    let mut out: Vec<T> = Vec::new();
    let mut k: usize = 0;
    while k < n
        invariant
            is_completion_order(order@, results@.len()),
            n == results@.len(),
            k <= n,
            c.well_formed(),
            c.spec_len() == n,
            forall|i: int| 0 <= i < n ==> (c.filled(i) <==> order@.take(k as int).contains(i as usize)),
            forall|i: int| 0 <= i < n && c.filled(i) ==> c.value_at(i) == results@[i],
            out@ == results@.take(c.yielded() as int),
            c.yielded() == n || !c.filled(c.yielded() as int),
        decreases n - k,
    {
        let pos: usize = order[k];
        assert(!order@.take(k as int).contains(pos)) by {
            assert(forall|m: int|
                0 <= m < k ==> order@.take(k as int)[m] == order@[m] && order@[m] != order@[k as int]);
        }
        c.record(pos, results[pos]);
        proof {
            broadcast use vstd::seq_lib::lemma_seq_contains_after_push;

            assert(order@.take(k as int + 1) =~= order@.take(k as int).push(pos));
        }
        loop
            invariant
                n == results@.len(),
                c.well_formed(),
                c.spec_len() == n,
                forall|i: int|
                    0 <= i < n ==> (c.filled(i) <==> order@.take(k as int + 1).contains(i as usize)),
                forall|i: int| 0 <= i < n && c.filled(i) ==> c.value_at(i) == results@[i],
                out@ == results@.take(c.yielded() as int),
            ensures
                n == results@.len(),
                c.well_formed(),
                c.spec_len() == n,
                forall|i: int|
                    0 <= i < n ==> (c.filled(i) <==> order@.take(k as int + 1).contains(i as usize)),
                forall|i: int| 0 <= i < n && c.filled(i) ==> c.value_at(i) == results@[i],
                out@ == results@.take(c.yielded() as int),
                c.yielded() == n || !c.filled(c.yielded() as int),
            decreases n - c.yielded(),
        {
            let ghost before: nat = c.yielded();
            match c.try_next() {
                Some(v) => {
                    out.push(v);
                    assert(out@ =~= results@.take(c.yielded() as int)) by {
                        assert(results@.take(before as int + 1) =~= results@.take(
                            before as int,
                        ).push(results@[before as int]));
                    }
                },
                None => {
                    break ;
                },
            }
        }
        k = k + 1;
    }
    proof {
        assert(forall|i: int| 0 <= i < n ==> #[trigger] order@.take(n as int).contains(i as usize))
            by {
            assert(order@.take(n as int) =~= order@);
        }
        assert(c.yielded() == n);
        assert(out@ =~= results@) by {
            assert(results@.take(n as int) =~= results@);
        }
    }
    out
}

} // verus!
