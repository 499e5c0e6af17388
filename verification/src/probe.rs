use vstd::prelude::*;

verus! {

/// The tri-state result of one reachability test: the host answered, it did
/// not answer, or the test itself could not be carried out.
#[derive(Clone, Copy, Debug, PartialEq, Eq, Structural)]
pub enum ProbeStatus {
    Up,
    Down,
    ProbeError,
}

/// The atomic unit of result per probed address: whether the address was
/// confirmed reachable.
#[derive(Clone, Copy, Debug, PartialEq, Eq, Structural)]
pub struct ProbeOutcome {
    pub address: u32,
    pub reachable: bool,
}

impl ProbeOutcome {
    /// Folds a probe status into the record kept for the address: only a
    /// host that answered counts as reachable, and a failed test degrades to
    /// unreachable rather than aborting anything.
    pub fn from_status(address: u32, status: ProbeStatus) -> (r: ProbeOutcome)
        ensures
            r.address == address,
            r.reachable == (status is Up),
    {
        ProbeOutcome { address, reachable: matches!(status, ProbeStatus::Up) }
    }
}

/// The addresses of the outcomes that were confirmed reachable.
pub open spec fn up_addresses(outcomes: Seq<ProbeOutcome>) -> Set<u32> {
    Set::new(|a: u32| exists|i: int| 0 <= i < outcomes.len() && outcomes[i].reachable
        && outcomes[i].address == a)
}

/// Extending a collection of outcomes by one extends its reachable
/// addresses by that outcome's address exactly when it was reachable.
pub proof fn lemma_up_addresses_take(outcomes: Seq<ProbeOutcome>, i: int)
    requires
        0 <= i < outcomes.len(),
    ensures
        outcomes[i].reachable ==> up_addresses(outcomes.take(i + 1))
            =~= up_addresses(outcomes.take(i)).insert(outcomes[i].address),
        !outcomes[i].reachable ==> up_addresses(outcomes.take(i + 1))
            =~= up_addresses(outcomes.take(i)),
{
    let pre = outcomes.take(i);
    let cur = outcomes.take(i + 1);
    assert forall|a: u32| up_addresses(cur).contains(a)
        implies (up_addresses(pre).contains(a)
            || (outcomes[i].reachable && a == outcomes[i].address)) by {
        let j = choose|j: int| 0 <= j < cur.len() && cur[j].reachable && cur[j].address == a;
        if j < i {
            assert(pre[j].reachable && pre[j].address == a);
        }
    }
    assert forall|a: u32| up_addresses(pre).contains(a)
        implies up_addresses(cur).contains(a) by {
        let j = choose|j: int| 0 <= j < pre.len() && pre[j].reachable && pre[j].address == a;
        assert(cur[j].reachable && cur[j].address == a);
    }
    if outcomes[i].reachable {
        assert(cur[i].reachable && cur[i].address == outcomes[i].address);
    }
}

} // verus!
