use vstd::prelude::*;
use crate::probe::ProbeOutcome;

verus! {

/// Whether some outcome reports on the address.
pub open spec fn outcome_present(outcomes: Seq<ProbeOutcome>, a: u32) -> bool {
    exists|i: int| 0 <= i < outcomes.len() && (#[trigger] outcomes[i].address) == a
}

/// Whether `outcomes` is a full collection for the batch `addresses`: one
/// outcome came back per dispatched address, in whatever order, and none
/// for an address that was never dispatched.
pub open spec fn covers(addresses: Seq<u32>, outcomes: Seq<ProbeOutcome>) -> bool {
    outcomes.len() == addresses.len()
    && (forall|i: int| 0 <= i < outcomes.len() ==> addresses.contains(#[trigger] outcomes[i].address))
    && (forall|a: u32| #[trigger] addresses.contains(a) ==> outcome_present(outcomes, a))
}

fn contains_address(addresses: &Vec<u32>, a: u32) -> (r: bool)
    ensures
        r == addresses@.contains(a),
{
    let n = addresses.len();
    for i in 0..n
        invariant
            n == addresses@.len(),
            forall|k: int| 0 <= k < i ==> addresses@[k] != a,
    {
        if addresses[i] == a {
            return true;
        }
    }
    false
}

fn has_outcome_for(outcomes: &Vec<ProbeOutcome>, a: u32) -> (r: bool)
    ensures
        r == outcome_present(outcomes@, a),
{
    let n = outcomes.len();
    for i in 0..n
        invariant
            n == outcomes@.len(),
            forall|k: int| 0 <= k < i ==> (#[trigger] outcomes@[k].address) != a,
    {
        if outcomes[i].address == a {
            return true;
        }
    }
    false
}

/// Decides whether the outcomes form a full collection for the batch, the
/// condition `complete_batch` asks of its caller; an unverified caller can
/// gate on this rather than trusting its own bookkeeping.
pub fn covers_check(addresses: &Vec<u32>, outcomes: &Vec<ProbeOutcome>) -> (r: bool)
    ensures
        r == covers(addresses@, outcomes@),
{
    if outcomes.len() != addresses.len() {
        return false;
    }
    let n = outcomes.len();
    for i in 0..n
        invariant
            n == outcomes@.len(),
            n == addresses@.len(),
            forall|k: int| 0 <= k < i ==> addresses@.contains(#[trigger] outcomes@[k].address),
    {
        if !contains_address(addresses, outcomes[i].address) {
            return false;
        }
    }
    let m = addresses.len();
    for j in 0..m
        invariant
            m == addresses@.len(),
            n == outcomes@.len(),
            n == m,
            forall|k: int| 0 <= k < n ==> addresses@.contains(#[trigger] outcomes@[k].address),
            forall|k: int| 0 <= k < j ==> outcome_present(outcomes@, #[trigger] addresses@[k]),
    {
        let a = addresses[j];
        proof {
            assert(addresses@.contains(addresses@[j as int]));
        }
        if !has_outcome_for(outcomes, a) {
            return false;
        }
        proof {
            assert(outcome_present(outcomes@, addresses@[j as int]));
        }
    }
    proof {
        assert forall|a: u32| addresses@.contains(a)
            implies outcome_present(outcomes@, a) by {
            let k = choose|k: int| 0 <= k < addresses@.len() && addresses@[k] == a;
            assert(outcome_present(outcomes@, addresses@[k]));
        }
    }
    true
}

/// The barrier of one batch: every dispatched address must report an
/// outcome before the batch is complete, and nothing of the next batch
/// starts before then. Outcomes arrive in any order.
pub struct BatchCollector {
    addresses: Vec<u32>,
    collected: Vec<ProbeOutcome>,
}

impl BatchCollector {
    /// The addresses the batch dispatched.
    pub closed spec fn planned(self) -> Seq<u32> {
        self.addresses@
    }

    /// The outcomes reported so far, in arrival order.
    pub closed spec fn outcomes(self) -> Seq<ProbeOutcome> {
        self.collected@
    }

    /// Opens the barrier for one batch of dispatched addresses.
    pub fn new(addresses: Vec<u32>) -> (r: BatchCollector)
        ensures
            r.planned() == addresses@,
            r.outcomes() == Seq::<ProbeOutcome>::empty(),
    {
        BatchCollector { addresses, collected: Vec::new() }
    }

    /// Reports one worker's outcome. The caller hands in one outcome per
    /// dispatched address, so no more arrive than were dispatched.
    pub fn submit(&mut self, outcome: ProbeOutcome)
        requires
            old(self).outcomes().len() < old(self).planned().len(),
        ensures
            final(self).planned() == old(self).planned(),
            final(self).outcomes() == old(self).outcomes().push(outcome),
    {
        self.collected.push(outcome);
    }

    /// Whether every dispatched address has reported.
    pub fn is_complete(&self) -> (r: bool)
        ensures
            r == (self.outcomes().len() == self.planned().len()),
    {
        self.collected.len() == self.addresses.len()
    }

    /// Closes the barrier, handing the batch and its outcomes back.
    pub fn take(self) -> (r: (Vec<u32>, Vec<ProbeOutcome>))
        ensures
            r.0@ == self.planned(),
            r.1@ == self.outcomes(),
    {
        (self.addresses, self.collected)
    }
}

} // verus!
