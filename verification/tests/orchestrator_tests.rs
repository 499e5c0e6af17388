use ipsweep::orchestrator::ScanOrchestrator;
use ipsweep::planner::AddressRange;
use ipsweep::probe::{ProbeOutcome, ProbeStatus};
use ipsweep::scheduler::{covers_check, BatchCollector};
use ipsweep::store::CheckpointStore;

fn fresh() -> CheckpointStore {
    CheckpointStore::open(":memory:").expect("in-memory store")
}

fn all_down(addresses: &[u32]) -> Vec<ProbeOutcome> {
    addresses
        .iter()
        .map(|a| ProbeOutcome::from_status(*a, ProbeStatus::Down))
        .collect()
}

#[test]
fn tiny_sweep_finishes_in_three_batches() {
    // A space of five addresses swept two at a time takes batches of
    // 2 + 2 + 1 and then is done.
    let mut orch = ScanOrchestrator::new(fresh(), Vec::new(), 2, 4).unwrap();
    let mut batches: Vec<Vec<u32>> = Vec::new();
    loop {
        let n = orch.plan_batch();
        if n == 0 {
            break;
        }
        let addresses = orch.pending_addresses().clone();
        batches.push(addresses.clone());
        let outcomes = all_down(&addresses);
        orch.complete_batch(&outcomes).unwrap();
    }
    assert!(orch.is_done());
    assert_eq!(batches, vec![vec![0, 1], vec![2, 3], vec![4]]);
    let store = orch.into_store();
    assert_eq!(store.load().unwrap(), 4);
}

#[test]
fn mixed_outcomes_record_reachable_and_commit_the_top() {
    // Three workers probe 10, 11 and 12; the host that answered is
    // recorded reachable, the failed probe degrades to unreachable, and
    // the checkpoint commits 12.
    let mut store = fresh();
    store.commit(9).unwrap();
    let mut orch = ScanOrchestrator::new(store, Vec::new(), 3, 12).unwrap();
    assert_eq!(orch.plan_batch(), 3);
    assert_eq!(orch.pending_addresses().as_slice(), &[10, 11, 12]);
    let outcomes = vec![
        ProbeOutcome::from_status(12, ProbeStatus::ProbeError),
        ProbeOutcome::from_status(10, ProbeStatus::Up),
        ProbeOutcome::from_status(11, ProbeStatus::Down),
    ];
    orch.complete_batch(&outcomes).unwrap();
    let store = orch.into_store();
    assert_eq!(store.load().unwrap(), 12);
    assert!(store.is_reachable_recorded(10).unwrap());
    assert!(!store.is_reachable_recorded(11).unwrap());
    assert!(!store.is_reachable_recorded(12).unwrap());
}

#[test]
fn restart_resumes_just_past_the_checkpoint() {
    // With checkpoint 41 committed and 42..=49 reserved, the first address
    // planned after a restart is 50: the planner applied to 42.
    let mut store = fresh();
    store.commit(41).unwrap();
    let reserved = vec![AddressRange { start: 42, end: 49 }];
    let mut orch = ScanOrchestrator::new(store, reserved, 3, 100).unwrap();
    assert!(orch.plan_batch() > 0);
    assert_eq!(orch.pending_addresses()[0], 50);
}

#[test]
fn crash_before_checkpointing_reprobes_one_batch_only() {
    // A crash between collecting and checkpointing abandons the in-flight
    // batch; the next run plans exactly that batch again and nothing below
    // the committed checkpoint.
    let mut orch = ScanOrchestrator::new(fresh(), Vec::new(), 2, 10).unwrap();
    assert_eq!(orch.plan_batch(), 2);
    assert_eq!(orch.pending_addresses().as_slice(), &[0, 1]);
    let store = orch.into_store(); // crash: outcomes collected, never committed

    let mut orch = ScanOrchestrator::new(store, Vec::new(), 2, 10).unwrap();
    assert_eq!(orch.plan_batch(), 2);
    assert_eq!(orch.pending_addresses().as_slice(), &[0, 1]);
    orch.complete_batch(&all_down(&[0, 1])).unwrap();

    assert_eq!(orch.plan_batch(), 2);
    assert_eq!(orch.pending_addresses().as_slice(), &[2, 3]);
    let _ = orch.into_store();
}

#[test]
fn sweep_skips_reserved_blocks_inside_a_batch() {
    // A batch may straddle several reserved blocks.
    let reserved = vec![
        AddressRange { start: 1, end: 2 },
        AddressRange { start: 4, end: 5 },
    ];
    let mut orch = ScanOrchestrator::new(fresh(), reserved, 3, 8).unwrap();
    assert_eq!(orch.plan_batch(), 3);
    assert_eq!(orch.pending_addresses().as_slice(), &[0, 3, 6]);
}

#[test]
fn sweep_ends_when_only_reserved_space_remains() {
    // With the real table, a run resumed just below multicast space finds
    // nothing left to probe up to the top of the space and is done at once.
    let mut store = fresh();
    store.commit(3758096383).unwrap();
    let mut orch =
        ScanOrchestrator::new(store, ipsweep::planner::reserved_ranges(), 5, u32::MAX).unwrap();
    assert_eq!(orch.plan_batch(), 0);
    assert!(orch.is_done());
}

#[test]
fn coverage_check_demands_one_outcome_per_address() {
    let batch = vec![10, 11, 12];
    let full = vec![
        ProbeOutcome::from_status(12, ProbeStatus::Up),
        ProbeOutcome::from_status(10, ProbeStatus::Down),
        ProbeOutcome::from_status(11, ProbeStatus::Down),
    ];
    assert!(covers_check(&batch, &full));
    let short = vec![full[0], full[1]];
    assert!(!covers_check(&batch, &short));
    let stray = vec![full[0], full[1], ProbeOutcome::from_status(99, ProbeStatus::Down)];
    assert!(!covers_check(&batch, &stray));
    let duplicated = vec![full[0], full[1], full[0]];
    assert!(!covers_check(&batch, &duplicated));
}

#[test]
fn collector_joins_out_of_order_outcomes() {
    let mut collector = BatchCollector::new(vec![10, 11, 12]);
    assert!(!collector.is_complete());
    collector.submit(ProbeOutcome::from_status(11, ProbeStatus::Down));
    collector.submit(ProbeOutcome::from_status(12, ProbeStatus::Up));
    assert!(!collector.is_complete());
    collector.submit(ProbeOutcome::from_status(10, ProbeStatus::Up));
    assert!(collector.is_complete());
    let (addresses, outcomes) = collector.take();
    assert_eq!(addresses, vec![10, 11, 12]);
    assert_eq!(outcomes.len(), 3);
    assert_eq!(outcomes[0], ProbeOutcome { address: 11, reachable: false });
    assert_eq!(outcomes[2], ProbeOutcome { address: 10, reachable: true });
}
