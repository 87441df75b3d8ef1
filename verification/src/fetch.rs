//! The Fetcher's decision core: batches are dispatched strictly in order,
//! each one checked against the supported-ID boundary first; a violation
//! halts the remaining pipeline for good. The surrounding runtime performs
//! the pacing delay and the concurrent requests for each dispatched batch
//! and reports every per-ID outcome as a value.

use vstd::prelude::*;
use crate::MIN_SUPPORTED_ID;

verus! {

/// Why retrieving one log failed. Failures are carried as values and never
/// abort the pipeline.
#[derive(Debug)]
pub enum FetchCause {
    /// The request could not be completed.
    Network(String),
    /// The service answered with a non-success HTTP status.
    Status(u16),
    /// The response body did not match the log schema.
    Schema(String),
}

/// A per-log retrieval failure: the originating log ID and the reason.
#[derive(Debug)]
pub struct FetchError {
    /// The log ID whose retrieval failed.
    pub id: u32,
    /// The failure reason.
    pub cause: FetchCause,
}

/// Whether every ID of a batch is at or above the supported boundary.
pub open spec fn batch_ok(b: Seq<u32>) -> bool {
    forall|i: int| 0 <= i < b.len() ==> b[i] >= MIN_SUPPORTED_ID
}

/// Checks a batch against the supported boundary, matching `batch_ok`.
pub fn batch_supported(b: &Vec<u32>) -> (r: bool)
    ensures
        r == batch_ok(b@),
{
    let mut i: usize = 0;
    while i < b.len()
        invariant
            0 <= i <= b@.len(),
            forall|j: int| 0 <= j < i ==> b@[j] >= MIN_SUPPORTED_ID,
        decreases b@.len() - i,
    {
        if b[i] < MIN_SUPPORTED_ID {
            return false;
        }
        i = i + 1;
    }
    true
}

/// What the pipeline should do next.
pub enum StepAction {
    /// Wait one pacing interval, then fetch these IDs concurrently and
    /// collect every outcome before stepping again.
    Dispatch(Vec<u32>),
    /// A batch held an ID below the supported boundary: report the fatal
    /// condition; no further batch will ever be dispatched.
    Halt,
    /// Every batch has been handled, or the plan halted earlier.
    Done,
}

/// The dispatch state of one retrieval run over a fixed list of batches.
pub struct FetchPlan {
    /// The batches to dispatch, in order.
    pub batches: Vec<Vec<u32>>,
    /// How many batches have been dispatched.
    pub next: usize,
    /// Whether the fatal boundary check failed on a batch.
    pub halted: bool,
}

impl FetchPlan {
    /// The dispatch counter never runs past the batch list.
    pub open spec fn wf(&self) -> bool {
        self.next <= self.batches@.len()
    }

    /// Every batch dispatched so far passed the boundary check.
    pub open spec fn dispatched_supported(&self) -> bool {
        forall|j: int| 0 <= j < self.next ==> batch_ok(#[trigger] self.batches@[j]@)
    }

    /// A fresh plan over the given batches: nothing dispatched, not halted.
    pub fn new(batches: Vec<Vec<u32>>) -> (r: Self)
        ensures
            r.batches == batches,
            r.next == 0,
            !r.halted,
            r.wf(),
            r.dispatched_supported(),
    {
        FetchPlan { batches, next: 0, halted: false }
    }

    /// How many batches have been dispatched.
    pub fn dispatched(&self) -> (r: usize)
        ensures
            r == self.next,
    {
        self.next
    }

    /// Decides the next action: the next batch in order when it passes the
    /// boundary check, a halt the first time one does not, and nothing once
    /// halted or exhausted.
    pub fn step(&mut self) -> (a: StepAction)
        requires
            old(self).wf(),
        ensures
            final(self).wf(),
            final(self).batches == old(self).batches,
            old(self).dispatched_supported() ==> final(self).dispatched_supported(),
            match a {
                StepAction::Dispatch(b) => {
                    &&& !old(self).halted
                    &&& old(self).next < old(self).batches@.len()
                    &&& b@ == old(self).batches@[old(self).next as int]@
                    &&& batch_ok(b@)
                    &&& final(self).next == old(self).next + 1
                    &&& !final(self).halted
                },
                StepAction::Halt => {
                    &&& !old(self).halted
                    &&& old(self).next < old(self).batches@.len()
                    &&& !batch_ok(old(self).batches@[old(self).next as int]@)
                    &&& final(self).next == old(self).next
                    &&& final(self).halted
                },
                StepAction::Done => {
                    &&& (old(self).halted || old(self).next == old(self).batches@.len())
                    &&& *final(self) == *old(self)
                },
            },
    {
        if self.halted || self.next == self.batches.len() {
            return StepAction::Done;
        }
        if !batch_supported(&self.batches[self.next]) {
            self.halted = true;
            return StepAction::Halt;
        }
        let b = copy_ids(&self.batches[self.next]);
        self.next = self.next + 1;
        StepAction::Dispatch(b)
    }
}

fn copy_ids(v: &Vec<u32>) -> (r: Vec<u32>)
    ensures
        r@ == v@,
{
    let mut r: Vec<u32> = Vec::new();
    let mut i: usize = 0;
    while i < v.len()
        invariant
            0 <= i <= v@.len(),
            r@ == v@.take(i as int),
        decreases v@.len() - i,
    {
        r.push(v[i]);
        proof {
            assert(r@ =~= v@.take(i + 1));
        }
        i = i + 1;
    }
    proof {
        assert(v@.take(v@.len() as int) =~= v@);
    }
    r
}

/// Law: once a batch holding an ID below the supported boundary stands at
/// position `i`, a plan that has dispatched only supported batches cannot
/// have dispatched that batch or any batch after it.
pub proof fn lemma_no_dispatch_past_unsupported(plan: FetchPlan, i: int)
    requires
        plan.wf(),
        plan.dispatched_supported(),
        0 <= i < plan.batches@.len(),
        !batch_ok(plan.batches@[i]@),
    ensures
        plan.next <= i,
{
    if plan.next > i {
        assert(batch_ok(plan.batches@[i]@));
    }
}

/// The total count of log slots attempted over the run: dispatched batches
/// times the quota, the convention reported beside the aggregated table.
pub fn logs_attempted(dispatched: usize, quota: usize) -> (r: u64)
    requires
        dispatched * quota <= u64::MAX,
    ensures
        r == dispatched * quota,
{
    (dispatched as u64) * (quota as u64)
}

} // verus!
