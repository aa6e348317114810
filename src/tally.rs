use vstd::prelude::*;
use vstd::multiset::Multiset;
use crate::job::{Job, JobOutcome, TargetState, planned};

verus! {

broadcast use vstd::seq_lib::group_seq_properties;

/// The largest exit status that the process reports.
pub const MAX_EXIT_STATUS: u8 = 255;

/// The number of failed outcomes in a sequence of outcomes.
pub open spec fn failures_in(s: Seq<JobOutcome>) -> nat
    decreases s.len(),
{
    if s.len() == 0 {
        0
    } else {
        failures_in(s.drop_last()) + if s.last().failed() { 1nat } else { 0nat }
    }
}

/// What one worker has accumulated: how many jobs it handled, how many of
/// them failed, and (as a ghost record) their outcomes in order.
pub struct WorkerTally {
    pub jobs: u64,
    pub failures: u64,
    pub outcomes: Ghost<Seq<JobOutcome>>,
}

impl WorkerTally {
    pub open spec fn wf(&self) -> bool {
        &&& self.jobs == self.outcomes@.len()
        &&& self.failures == failures_in(self.outcomes@)
    }

    pub fn new() -> (r: WorkerTally)
        ensures
            r.wf(),
            r.jobs == 0,
            r.failures == 0,
            r.outcomes@ == Seq::<JobOutcome>::empty(),
    {
        WorkerTally { jobs: 0, failures: 0, outcomes: Ghost(Seq::empty()) }
    }

    /// Counts one finished job; its failure count grows by one exactly when
    /// the outcome is a failure.
    pub fn record(&mut self, outcome: JobOutcome)
        requires
            old(self).wf(),
            old(self).jobs < u64::MAX,
        ensures
            final(self).wf(),
            final(self).outcomes@ == old(self).outcomes@.push(outcome),
            final(self).jobs == old(self).jobs + 1,
            final(self).failures == old(self).failures + if outcome.failed() { 1u64 } else { 0u64 },
    {
        proof {
            lemma_failures_at_most_len(self.outcomes@);
            assert(self.outcomes@.push(outcome).drop_last() =~= self.outcomes@);
        }
        self.jobs = self.jobs + 1;
        if outcome.is_failure() {
            self.failures = self.failures + 1;
        }
        self.outcomes = Ghost(self.outcomes@.push(outcome));
    }
}

proof fn lemma_failures_at_most_len(s: Seq<JobOutcome>)
    ensures
        failures_in(s) <= s.len(),
    decreases s.len(),
{
    if s.len() > 0 {
        lemma_failures_at_most_len(s.drop_last());
    }
}

/// The sum of the failure counts of a set of workers.
pub open spec fn total_failures(ts: Seq<WorkerTally>) -> nat
    decreases ts.len(),
{
    if ts.len() == 0 {
        0
    } else {
        total_failures(ts.drop_last()) + ts.last().failures as nat
    }
}

/// The sum of the job counts of a set of workers.
pub open spec fn total_jobs(ts: Seq<WorkerTally>) -> nat
    decreases ts.len(),
{
    if ts.len() == 0 {
        0
    } else {
        total_jobs(ts.drop_last()) + ts.last().jobs as nat
    }
}

pub open spec fn all_wf(ts: Seq<WorkerTally>) -> bool {
    forall|i: int| 0 <= i < ts.len() ==> (#[trigger] ts[i]).wf()
}

pub open spec fn clamped_status(total: nat) -> nat {
    if total < 255 { total } else { 255 }
}

/// Sums the failure counts of all workers into the process exit status,
/// clamped to 255; zero means that every job succeeded.
pub fn aggregate_exit_status(tallies: &Vec<WorkerTally>) -> (r: u8)
    requires
        all_wf(tallies@),
    ensures
        r == clamped_status(total_failures(tallies@)),
        total_jobs(tallies@) == 0 ==> r == 0,
{
    let mut acc: u8 = 0;
    let mut i: usize = 0;
    while i < tallies.len()
        invariant
            i <= tallies.len(),
            acc as nat == clamped_status(total_failures(tallies@.take(i as int))),
        decreases tallies.len() - i,
    {
        proof {
            assert(tallies@.take(i as int + 1).drop_last() =~= tallies@.take(i as int));
        }
        let f = tallies[i].failures;
        if f >= (MAX_EXIT_STATUS - acc) as u64 {
            acc = MAX_EXIT_STATUS;
        } else {
            acc = acc + f as u8;
        }
        i = i + 1;
    }
    proof {
        assert(tallies@.take(i as int) =~= tallies@);
        lemma_failures_at_most_jobs(tallies@);
    }
    acc
}

/// Workers never count more failures than jobs they handled.
pub proof fn lemma_failures_at_most_jobs(ts: Seq<WorkerTally>)
    requires
        all_wf(ts),
    ensures
        total_failures(ts) <= total_jobs(ts),
    decreases ts.len(),
{
    if ts.len() > 0 {
        lemma_failures_at_most_jobs(ts.drop_last());
        lemma_failures_at_most_len(ts.last().outcomes@);
    }
}

/// The outcome of a job whose target is not a directory, or is absent with
/// no remote: no command runs, and recording the outcome adds one failure.
pub proof fn lemma_skipped_jobs_fail(job: Job, target: TargetState)
    requires
        target == TargetState::NotDirectory || (target == TargetState::Absent
            && job.source_url is None),
    ensures
        !planned(job, target).runs_command(),
        planned(job, target).skip_outcome_spec() matches Some(o) && o.failed(),
{
}

proof fn lemma_failures_concat(a: Seq<JobOutcome>, b: Seq<JobOutcome>)
    ensures
        failures_in(a + b) == failures_in(a) + failures_in(b),
    decreases b.len(),
{
    if b.len() == 0 {
        assert(a + b =~= a);
    } else {
        lemma_failures_concat(a, b.drop_last());
        assert((a + b).drop_last() =~= a + b.drop_last());
    }
}

proof fn lemma_failures_by_count(s: Seq<JobOutcome>)
    ensures
        failures_in(s) + s.to_multiset().count(JobOutcome::Synced) == s.len(),
    decreases s.len(),
{
    broadcast use Seq::to_multiset_ensures;

    if s.len() == 0 {
        assert(s.to_multiset() =~= Multiset::empty());
    } else {
        lemma_failures_by_count(s.drop_last());
        assert(s.drop_last().push(s.last()) =~= s);
    }
}

pub open spec fn outcomes_of(ts: Seq<WorkerTally>) -> Seq<Seq<JobOutcome>> {
    ts.map_values(|t: WorkerTally| t.outcomes@)
}

proof fn lemma_total_is_flat_count(ts: Seq<WorkerTally>)
    requires
        all_wf(ts),
    ensures
        total_failures(ts) == failures_in(outcomes_of(ts).flatten()),
    decreases ts.len(),
{
    if ts.len() > 0 {
        let init = ts.drop_last();
        lemma_total_is_flat_count(init);
        assert(outcomes_of(ts) =~= outcomes_of(init).push(ts.last().outcomes@));
        outcomes_of(init).lemma_flatten_push(ts.last().outcomes@);
        lemma_failures_concat(outcomes_of(init).flatten(), ts.last().outcomes@);
    }
}

/// The total failure count depends only on which outcomes were produced, not
/// on how many workers there were or which worker handled which job: two
/// pools whose outcomes form the same multiset report the same total.
pub proof fn lemma_total_independent_of_split(a: Seq<WorkerTally>, b: Seq<WorkerTally>)
    requires
        all_wf(a),
        all_wf(b),
        outcomes_of(a).flatten().to_multiset() == outcomes_of(b).flatten().to_multiset(),
    ensures
        total_failures(a) == total_failures(b),
        clamped_status(total_failures(a)) == clamped_status(total_failures(b)),
{
    broadcast use Seq::to_multiset_ensures;

    lemma_total_is_flat_count(a);
    lemma_total_is_flat_count(b);
    lemma_failures_by_count(outcomes_of(a).flatten());
    lemma_failures_by_count(outcomes_of(b).flatten());
    outcomes_of(a).flatten().to_multiset_ensures();
    outcomes_of(b).flatten().to_multiset_ensures();
}

} // verus!
