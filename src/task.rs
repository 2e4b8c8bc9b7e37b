use vstd::prelude::*;

verus! {

/// Number of records among `outcomes` that were processed successfully.
pub open spec fn count_ok(outcomes: Seq<bool>) -> nat
    decreases outcomes.len(),
{
    if outcomes.len() == 0 {
        0
    } else {
        count_ok(outcomes.drop_last()) + if outcomes.last() { 1nat } else { 0nat }
    }
}

/// Number of records among `outcomes` whose processing failed.
pub open spec fn count_failed(outcomes: Seq<bool>) -> nat
    decreases outcomes.len(),
{
    if outcomes.len() == 0 {
        0
    } else {
        count_failed(outcomes.drop_last()) + if outcomes.last() { 0nat } else { 1nat }
    }
}

/// Every record is either counted as completed or as skipped.
pub proof fn lemma_outcomes_partition(outcomes: Seq<bool>)
    ensures
        count_ok(outcomes) + count_failed(outcomes) == outcomes.len(),
    decreases outcomes.len(),
{
    if outcomes.len() > 0 {
        lemma_outcomes_partition(outcomes.drop_last());
    }
}

/// Progress snapshot of one job: how many records completed, how many were
/// skipped because their processing failed, how many there are in total, and
/// whether the job is still running.
#[derive(Clone, Copy, Debug)]
pub struct TaskHandle {
    completed_count: u32,
    running: bool,
    skipped_count: u32,
    total_count: u32,
}

impl TaskHandle {
    pub closed spec fn completed_spec(&self) -> nat {
        self.completed_count as nat
    }

    pub closed spec fn skipped_spec(&self) -> nat {
        self.skipped_count as nat
    }

    pub closed spec fn total_spec(&self) -> nat {
        self.total_count as nat
    }

    pub closed spec fn running_spec(&self) -> bool {
        self.running
    }

    /// No more records are accounted for than the job holds.
    pub closed spec fn wf(&self) -> bool {
        self.completed_count + self.skipped_count <= self.total_count
    }

    /// A job that has just started: nothing counted yet, total still unknown.
    pub fn new() -> (r: TaskHandle)
        ensures
            r.wf(),
            r.running_spec(),
            r.completed_spec() == 0,
            r.skipped_spec() == 0,
            r.total_spec() == 0,
    {
        TaskHandle { completed_count: 0, running: true, skipped_count: 0, total_count: 0 }
    }

    pub fn completed_count(&self) -> (r: u32)
        ensures
            r == self.completed_spec(),
    {
        self.completed_count
    }

    pub fn running(&self) -> (r: bool)
        ensures
            r == self.running_spec(),
    {
        self.running
    }

    pub fn skipped_count(&self) -> (r: u32)
        ensures
            r == self.skipped_spec(),
    {
        self.skipped_count
    }

    pub fn total_count(&self) -> (r: u32)
        ensures
            r == self.total_spec(),
    {
        self.total_count
    }

    /// Records the length of the enumerated work list; done once, before any
    /// record is processed.
    pub fn set_total(&mut self, total: u32)
        requires
            old(self).completed_spec() == 0,
            old(self).skipped_spec() == 0,
        ensures
            final(self).wf(),
            final(self).total_spec() == total,
            final(self).completed_spec() == 0,
            final(self).skipped_spec() == 0,
            final(self).running_spec() == old(self).running_spec(),
    {
        self.total_count = total;
    }

    /// Accounts for one record: a success counts as completed, a failure as
    /// skipped.
    pub fn record_outcome(&mut self, ok: bool)
        requires
            old(self).wf(),
            old(self).completed_spec() + old(self).skipped_spec() < old(self).total_spec(),
        ensures
            final(self).wf(),
            final(self).total_spec() == old(self).total_spec(),
            final(self).running_spec() == old(self).running_spec(),
            final(self).completed_spec() == old(self).completed_spec() + if ok { 1nat } else { 0nat },
            final(self).skipped_spec() == old(self).skipped_spec() + if ok { 0nat } else { 1nat },
    {
        if ok {
            self.completed_count = self.completed_count + 1;
        } else {
            self.skipped_count = self.skipped_count + 1;
        }
    }

    /// Marks the job as no longer running; the counters stay as they are.
    pub fn finish(&mut self)
        ensures
            !final(self).running_spec(),
            final(self).completed_spec() == old(self).completed_spec(),
            final(self).skipped_spec() == old(self).skipped_spec(),
            final(self).total_spec() == old(self).total_spec(),
            final(self).wf() == old(self).wf(),
    {
        self.running = false;
    }

    /// The handle of a job whose enumeration of records failed: it stops at
    /// once, with no record processed.
    pub fn enumeration_failed() -> (r: TaskHandle)
        ensures
            r.wf(),
            !r.running_spec(),
            r.completed_spec() == 0,
            r.skipped_spec() == 0,
            r.total_spec() == 0,
    {
        let mut h = TaskHandle::new();
        h.finish();
        h
    }

    /// The bookkeeping of a whole job, given whether each enumerated record
    /// was processed successfully: the total is set to the number of records,
    /// each outcome is counted, and the job is then marked finished.
    pub fn from_outcomes(outcomes: &Vec<bool>) -> (r: TaskHandle)
        requires
            outcomes@.len() <= u32::MAX,
        ensures
            r.wf(),
            !r.running_spec(),
            r.total_spec() == outcomes@.len(),
            r.completed_spec() == count_ok(outcomes@),
            r.skipped_spec() == count_failed(outcomes@),
    {
        let mut h = TaskHandle::new();
        h.set_total(outcomes.len() as u32);
        let mut i: usize = 0;
        while i < outcomes.len()
            invariant
                i <= outcomes@.len(),
                outcomes@.len() <= u32::MAX,
                h.wf(),
                h.running_spec(),
                h.total_spec() == outcomes@.len(),
                h.completed_spec() == count_ok(outcomes@.subrange(0, i as int)),
                h.skipped_spec() == count_failed(outcomes@.subrange(0, i as int)),
            decreases outcomes@.len() - i,
        {
            proof {
                lemma_outcomes_partition(outcomes@.subrange(0, i as int));
                assert(outcomes@.subrange(0, i + 1).drop_last() =~= outcomes@.subrange(0, i as int));
            }
            h.record_outcome(outcomes[i]);
            i = i + 1;
        }
        proof {
            assert(outcomes@.subrange(0, i as int) =~= outcomes@);
        }
        h.finish();
        h
    }
}

/// Once a job whose enumeration succeeded has stopped running, every record
/// has been counted exactly once, as completed or as skipped.
pub proof fn lemma_finished_counts_sum(outcomes: Seq<bool>, h: TaskHandle)
    requires
        h.total_spec() == outcomes.len(),
        h.completed_spec() == count_ok(outcomes),
        h.skipped_spec() == count_failed(outcomes),
        !h.running_spec(),
    ensures
        h.completed_spec() + h.skipped_spec() == h.total_spec(),
{
    lemma_outcomes_partition(outcomes);
}

} // verus!
