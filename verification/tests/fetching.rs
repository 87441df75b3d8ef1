use logstats::fetch::{batch_supported, logs_attempted, FetchPlan, StepAction};
use logstats::MIN_SUPPORTED_ID;

#[test]
fn boundary_check_accepts_supported_batches() {
    assert!(batch_supported(&vec![MIN_SUPPORTED_ID, MIN_SUPPORTED_ID + 1, 999999]));
    assert!(batch_supported(&vec![]));
}

#[test]
fn boundary_check_rejects_old_ids() {
    assert!(!batch_supported(&vec![MIN_SUPPORTED_ID, MIN_SUPPORTED_ID - 1]));
    assert!(!batch_supported(&vec![0]));
}

#[test]
fn dispatches_batches_in_order() {
    let batches = vec![vec![200001, 200002], vec![200003]];
    let mut plan = FetchPlan::new(batches);
    let mut seen: Vec<Vec<u32>> = Vec::new();
    loop {
        match plan.step() {
            StepAction::Dispatch(b) => seen.push(b),
            StepAction::Halt => panic!("no batch violates the boundary"),
            StepAction::Done => break,
        }
    }
    assert_eq!(seen, vec![vec![200001, 200002], vec![200003]]);
    assert_eq!(plan.dispatched(), 2);
}

#[test]
fn no_batch_after_an_unsupported_one_is_dispatched() {
    // one ID below the boundary sits in the second batch
    let batches = vec![
        vec![200001, 200002],
        vec![200003, MIN_SUPPORTED_ID - 1],
        vec![200004],
    ];
    let mut plan = FetchPlan::new(batches);
    let mut fetch_calls: usize = 0;
    let mut halted = false;
    loop {
        match plan.step() {
            StepAction::Dispatch(b) => fetch_calls += b.len(),
            StepAction::Halt => halted = true,
            StepAction::Done => break,
        }
    }
    assert!(halted);
    assert_eq!(fetch_calls, 2);
    assert_eq!(plan.dispatched(), 1);
}

#[test]
fn halt_in_first_batch_dispatches_nothing() {
    let batches = vec![vec![1], vec![200004]];
    let mut plan = FetchPlan::new(batches);
    match plan.step() {
        StepAction::Halt => {},
        _ => panic!("expected a halt"),
    }
    match plan.step() {
        StepAction::Done => {},
        _ => panic!("a halted plan dispatches nothing"),
    }
    assert_eq!(plan.dispatched(), 0);
}

#[test]
fn attempted_counts_whole_batches() {
    assert_eq!(logs_attempted(2, 5), 10);
    assert_eq!(logs_attempted(0, 5), 0);
}
