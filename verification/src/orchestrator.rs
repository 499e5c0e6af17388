use vstd::prelude::*;
use crate::planner::{AddressRange, covered, next_free};
use crate::probe::{ProbeOutcome, up_addresses, lemma_up_addresses_take};
use crate::scheduler::covers;
use crate::store::{CheckpointStore, StoreError, checkpoint_ok};

verus! {

/// A sequence of addresses in strictly ascending order: a batch never
/// holds an address twice, and its last element is its highest.
pub open spec fn strictly_increasing(s: Seq<u32>) -> bool {
    forall|i: int, j: int| 0 <= i < j < s.len() ==> s[i] < s[j]
}

/// The cursor a run resumes from: the address just past the checkpoint `c`,
/// clamped to just past the end of the swept space. A zero checkpoint is
/// what a store with nothing committed loads, so the sweep starts at
/// address zero; under at-least-once delivery re-probing address zero in
/// the one ambiguous case is harmless, while skipping it would not be.
pub open spec fn resume_cursor(c: u32, max_address: u32) -> u64 {
    if c == 0 {
        0
    } else if c < max_address {
        (c + 1) as u64
    } else {
        (max_address + 1) as u64
    }
}

/// Drives the sweep: reads the checkpoint, plans batches of unreserved
/// addresses, and after a full batch of outcomes is collected persists the
/// results and commits the batch's highest address — in that order, so a
/// crash loses at most the one in-flight batch and never a committed one.
pub struct ScanOrchestrator {
    store: CheckpointStore,
    reserved: Vec<AddressRange>,
    batch_size: usize,
    max_address: u32,
    cursor: u64,
    in_flight: Vec<u32>,
}

impl ScanOrchestrator {
    /// The committed checkpoint addresses of the backing store.
    pub closed spec fn committed(self) -> Set<u32> {
        self.store.committed()
    }

    /// The reachable addresses recorded in the backing store.
    pub closed spec fn reachable(self) -> Set<u32> {
        self.store.reachable()
    }

    /// The reserved table the planner skips.
    pub closed spec fn reserved_table(self) -> Seq<AddressRange> {
        self.reserved@
    }

    /// The bound on how many addresses one batch dispatches.
    pub closed spec fn capacity(self) -> usize {
        self.batch_size
    }

    /// The highest address of the swept space.
    pub closed spec fn top(self) -> u32 {
        self.max_address
    }

    /// The next candidate address, as a value in `[0, top + 1]`; `top + 1`
    /// means the space is exhausted.
    pub closed spec fn next_cursor(self) -> u64 {
        self.cursor
    }

    /// The batch planned and not yet completed; empty between batches.
    pub closed spec fn planned(self) -> Seq<u32> {
        self.in_flight@
    }

    /// The orchestrator's invariant: the cursor stays within the swept
    /// space, batches are bounded and ascending, and every in-flight
    /// address lies below the cursor.
    pub closed spec fn wf(self) -> bool {
        &&& self.cursor <= self.max_address as u64 + 1
        &&& 1 <= self.batch_size
        &&& self.in_flight@.len() <= self.batch_size
        &&& strictly_increasing(self.in_flight@)
        &&& forall|i: int| 0 <= i < self.in_flight@.len()
                ==> (#[trigger] self.in_flight@[i] as u64) < self.cursor
    }

    /// Starts a run over `[0, max_address]`: the cursor resumes just past
    /// the loaded checkpoint, so nothing at or below a committed
    /// checkpoint is ever re-probed.
    pub fn new(
        store: CheckpointStore,
        reserved: Vec<AddressRange>,
        batch_size: usize,
        max_address: u32,
    ) -> (r: Result<ScanOrchestrator, StoreError>)
        requires
            1 <= batch_size,
        ensures
            r matches Ok(o) ==> {
                &&& o.wf()
                &&& o.committed() == store.committed()
                &&& o.reachable() == store.reachable()
                &&& o.reserved_table() == reserved@
                &&& o.capacity() == batch_size
                &&& o.top() == max_address
                &&& o.planned().len() == 0
                &&& exists|c: u32| checkpoint_ok(store.committed(), c)
                        && o.next_cursor() == resume_cursor(c, max_address)
            },
    {
        let checkpoint = match store.load() {
            Ok(c) => c,
            Err(e) => return Err(e),
        };
        let cursor: u64 = if checkpoint == 0 {
            0
        } else if checkpoint < max_address {
            checkpoint as u64 + 1
        } else {
            max_address as u64 + 1
        };
        let o = ScanOrchestrator {
            store,
            reserved,
            batch_size,
            max_address,
            cursor,
            in_flight: Vec::new(),
        };
        proof {
            assert(checkpoint_ok(store.committed(), checkpoint));
            assert(o.next_cursor() == resume_cursor(checkpoint, max_address));
        }
        Ok(o)
    }

    /// Whether the sweep is over: the space is exhausted and no batch is
    /// in flight.
    pub fn is_done(&self) -> (r: bool)
        ensures
            r == (self.next_cursor() == self.top() as u64 + 1 && self.planned().len() == 0),
    {
        self.cursor == self.max_address as u64 + 1 && self.in_flight.len() == 0
    }

    /// The batch currently in flight.
    pub fn pending_addresses(&self) -> (r: &Vec<u32>)
        ensures
            r@ == self.planned(),
    {
        &self.in_flight
    }

    /// Plans the next batch: up to `capacity` unreserved addresses from the
    /// cursor on, in ascending order, skipping whole reserved blocks in one
    /// step each. Every address between the old and the new cursor that is
    /// not in the batch is reserved, and a batch that is not full exhausts
    /// the space. Returns the batch's size; zero means the sweep is done.
    pub fn plan_batch(&mut self) -> (r: usize)
        requires
            old(self).wf(),
            old(self).planned().len() == 0,
        ensures
            final(self).wf(),
            final(self).committed() == old(self).committed(),
            final(self).reachable() == old(self).reachable(),
            final(self).reserved_table() == old(self).reserved_table(),
            final(self).capacity() == old(self).capacity(),
            final(self).top() == old(self).top(),
            r == final(self).planned().len(),
            r <= old(self).capacity(),
            old(self).next_cursor() <= final(self).next_cursor(),
            strictly_increasing(final(self).planned()),
            forall|i: int| 0 <= i < final(self).planned().len() ==> {
                let a = #[trigger] final(self).planned()[i];
                &&& old(self).next_cursor() <= a as u64
                &&& (a as u64) < final(self).next_cursor()
                &&& a <= old(self).top()
                &&& !covered(a, old(self).reserved_table())
            },
            forall|b: u32| old(self).next_cursor() <= b as u64
                && (b as u64) < final(self).next_cursor()
                && !final(self).planned().contains(b)
                ==> covered(b, old(self).reserved_table()),
            r < old(self).capacity() ==> final(self).next_cursor() == old(self).top() as u64 + 1,
    {
        let ghost start = self.cursor;
        let cap = self.batch_size;
        let max = self.max_address;
        let mut batch: Vec<u32> = Vec::new();
        let mut t: u64 = self.cursor;
        loop
            invariant
                cap == self.batch_size,
                max == self.max_address,
                start == self.cursor,
                *self == *old(self),
                start <= t <= max as u64 + 1,
                batch@.len() <= cap,
                strictly_increasing(batch@),
                forall|i: int| 0 <= i < batch@.len() ==> {
                    let a = #[trigger] batch@[i];
                    &&& start <= a as u64
                    &&& (a as u64) < t
                    &&& a <= max
                    &&& !covered(a, self.reserved@)
                },
                forall|b: u32| start <= b as u64 && (b as u64) < t && !batch@.contains(b)
                    ==> covered(b, self.reserved@),
            ensures
                batch@.len() == cap || t == max as u64 + 1,
            decreases (max as u64 + 1) - t + (cap - batch@.len()),
        {
            if batch.len() == cap {
                break;
            }
            let f = next_free(t, &self.reserved);
            if f > max as u64 {
                proof {
                    assert forall|b: u32| start <= b as u64 && (b as u64) < max as u64 + 1
                        && !batch@.contains(b) implies covered(b, self.reserved@) by {
                        if t <= b as u64 {
                            assert((b as u64) < f);
                        }
                    }
                }
                t = max as u64 + 1;
                break;
            }
            let ghost batch0 = batch@;
            batch.push(f as u32);
            proof {
                assert(batch@ == batch0.push(f as u32));
                assert(batch@[batch0.len() as int] == f as u32);
                assert forall|b: u32| start <= b as u64 && (b as u64) < f + 1
                    && !batch@.contains(b) implies covered(b, self.reserved@) by {
                    if batch0.contains(b) {
                        let k = choose|k: int| 0 <= k < batch0.len() && batch0[k] == b;
                        assert(batch@[k] == b);
                    }
                    if (b as u64) >= t && (b as u64) < f {
                        assert(covered(b, self.reserved@));
                    }
                    if (b as u64) == f {
                        assert(batch@.contains(f as u32));
                    }
                }
                assert forall|i: int, j: int| 0 <= i < j < batch@.len()
                    implies batch@[i] < batch@[j] by {
                    if j == batch0.len() {
                        assert((batch@[i] as u64) < t);
                    }
                }
            }
            t = f + 1;
        }
        self.cursor = t;
        self.in_flight = batch;
        self.in_flight.len()
    }

    /// Completes the in-flight batch from a full collection of outcomes:
    /// records each address confirmed reachable, then — and only then —
    /// commits the batch's highest address as the new checkpoint. On a
    /// storage fault nothing is committed and the batch stays in flight;
    /// results already recorded stay recorded, which re-probing tolerates.
    pub fn complete_batch(&mut self, outcomes: &Vec<ProbeOutcome>) -> (r: Result<(), StoreError>)
        requires
            old(self).wf(),
            old(self).planned().len() > 0,
            covers(old(self).planned(), outcomes@),
        ensures
            final(self).wf(),
            final(self).reserved_table() == old(self).reserved_table(),
            final(self).capacity() == old(self).capacity(),
            final(self).top() == old(self).top(),
            final(self).next_cursor() == old(self).next_cursor(),
            r is Ok ==> {
                &&& final(self).planned().len() == 0
                &&& final(self).committed()
                        == old(self).committed().insert(old(self).planned().last())
                &&& final(self).reachable()
                        == old(self).reachable().union(up_addresses(outcomes@))
            },
            r is Err ==> {
                &&& final(self).planned() == old(self).planned()
                &&& final(self).committed() == old(self).committed()
                &&& old(self).reachable().subset_of(final(self).reachable())
                &&& final(self).reachable()
                        .subset_of(old(self).reachable().union(up_addresses(outcomes@)))
            },
    {
        let ghost old_reach = self.store.reachable();
        let n = outcomes.len();
        for i in 0..n
            invariant
                n == outcomes@.len(),
                self.reserved == old(self).reserved,
                self.batch_size == old(self).batch_size,
                self.max_address == old(self).max_address,
                self.cursor == old(self).cursor,
                self.in_flight == old(self).in_flight,
                old(self).wf(),
                self.store.committed() == old(self).committed(),
                self.store.reachable() == old_reach.union(up_addresses(outcomes@.take(i as int))),
                old_reach == old(self).reachable(),
        {
            let o = outcomes[i];
            proof {
                lemma_up_addresses_take(outcomes@, i as int);
            }
            if o.reachable {
                match self.store.record_reachable(o.address) {
                    Ok(()) => {
                        proof {
                            assert(old_reach.union(up_addresses(outcomes@.take(i + 1)))
                                =~= old_reach.union(up_addresses(outcomes@.take(i as int)))
                                    .insert(o.address));
                        }
                    },
                    Err(e) => {
                        proof {
                            lemma_up_addresses_prefix(outcomes@, i as int);
                        }
                        return Err(e);
                    },
                }
            } else {
                proof {
                    assert(old_reach.union(up_addresses(outcomes@.take(i + 1)))
                        =~= old_reach.union(up_addresses(outcomes@.take(i as int))));
                }
            }
        }
        proof {
            assert(outcomes@.take(n as int) =~= outcomes@);
        }
        let top = self.in_flight[self.in_flight.len() - 1];
        proof {
            assert(old(self).planned().last() == top);
        }
        match self.store.commit(top) {
            Ok(()) => {
                self.in_flight = Vec::new();
                Ok(())
            },
            Err(e) => Err(e),
        }
    }

    /// Ends the run, handing the store back; a batch still in flight is
    /// abandoned uncommitted, exactly as a crash before checkpointing
    /// would leave it.
    pub fn into_store(self) -> (r: CheckpointStore)
        ensures
            r.committed() == self.committed(),
            r.reachable() == self.reachable(),
    {
        self.store
    }
}

/// Law: once a checkpoint is committed, a resumed run can only probe
/// strictly above it. Every address within the swept space that lies at or
/// past the resume cursor is strictly above the checkpoint, and planned
/// batches hand out only such addresses; a crash therefore costs at most
/// the one batch that was in flight, never committed ground.
pub proof fn lemma_no_reprobe_below_checkpoint(c: u32, max_address: u32, a: u32)
    requires
        c > 0,
        resume_cursor(c, max_address) <= a as u64,
        a <= max_address,
    ensures
        a > c,
{
}

/// The reachable addresses of a prefix of the outcomes are among those of
/// the whole collection.
proof fn lemma_up_addresses_prefix(outcomes: Seq<ProbeOutcome>, i: int)
    requires
        0 <= i <= outcomes.len(),
    ensures
        up_addresses(outcomes.take(i)).subset_of(up_addresses(outcomes)),
{
    assert forall|a: u32| up_addresses(outcomes.take(i)).contains(a)
        implies up_addresses(outcomes).contains(a) by {
        let j = choose|j: int| 0 <= j < outcomes.take(i).len()
            && outcomes.take(i)[j].reachable && outcomes.take(i)[j].address == a;
        assert(outcomes[j].reachable && outcomes[j].address == a);
    }
}

} // verus!
