use vstd::prelude::*;
use std::collections::VecDeque;
use crate::job::Job;

verus! {

broadcast use vstd::seq_lib::group_seq_properties;

/// What a consumer gets from the queue.
pub enum Dequeued {
    /// The oldest job not yet handed out.
    Ready(Job),
    /// Nothing is waiting, but more may come: the consumer waits.
    Empty,
    /// The queue was closed and everything in it has been handed out.
    EndOfStream,
}

/// The abstract state of a queue.
pub struct QueueView {
    /// Jobs enqueued and not yet handed out, oldest first.
    pub pending: Seq<Job>,
    pub closed: bool,
    /// How many jobs each consumer has taken.
    pub taken: Seq<u64>,
    /// Every job ever enqueued, in order.
    pub enqueued: Seq<Job>,
    /// Every job handed out, in order.
    pub delivered: Seq<Job>,
}

/// A single-producer, multi-consumer job queue that is drained to the end
/// once its producer closes it.
pub struct JobQueue {
    pending: VecDeque<Job>,
    closed: bool,
    taken: Vec<u64>,
    total: u64,
    enqueued: Ghost<Seq<Job>>,
    delivered: Ghost<Seq<Job>>,
}

pub open spec fn sum_counts(s: Seq<u64>) -> nat
    decreases s.len(),
{
    if s.len() == 0 {
        0
    } else {
        sum_counts(s.drop_last()) + s.last() as nat
    }
}

proof fn lemma_count_le_sum(s: Seq<u64>, i: int)
    requires
        0 <= i < s.len(),
    ensures
        s[i] <= sum_counts(s),
    decreases s.len(),
{
    if i < s.len() - 1 {
        lemma_count_le_sum(s.drop_last(), i);
    }
}

proof fn lemma_sum_increment(s: Seq<u64>, i: int)
    requires
        0 <= i < s.len(),
        s[i] < u64::MAX,
    ensures
        sum_counts(s.update(i, (s[i] + 1) as u64)) == sum_counts(s) + 1,
    decreases s.len(),
{
    let t = s.update(i, (s[i] + 1) as u64);
    if i < s.len() - 1 {
        lemma_sum_increment(s.drop_last(), i);
        assert(t.drop_last() =~= s.drop_last().update(i, (s[i] + 1) as u64));
    } else {
        assert(t.drop_last() =~= s.drop_last());
    }
}

proof fn lemma_sum_zeros(s: Seq<u64>)
    requires
        forall|i: int| 0 <= i < s.len() ==> s[i] == 0,
    ensures
        sum_counts(s) == 0,
    decreases s.len(),
{
    if s.len() > 0 {
        lemma_sum_zeros(s.drop_last());
    }
}

impl View for JobQueue {
    type V = QueueView;

    closed spec fn view(&self) -> QueueView {
        QueueView {
            pending: self.pending@,
            closed: self.closed,
            taken: self.taken@,
            enqueued: self.enqueued@,
            delivered: self.delivered@,
        }
    }
}

impl JobQueue {
    /// Every enqueued job has either been handed out once or is still
    /// pending, in order, and the consumers' counts add up to what was
    /// handed out.
    pub closed spec fn wf(&self) -> bool {
        &&& self.total == self.enqueued@.len()
        &&& self@.enqueued == self@.delivered + self@.pending
        &&& sum_counts(self@.taken) == self@.delivered.len()
        &&& self@.taken.len() >= 1
        &&& self@.enqueued.len() <= u64::MAX
    }

    pub fn new(consumers: usize) -> (r: JobQueue)
        requires
            consumers >= 1,
        ensures
            r.wf(),
            r@.pending.len() == 0,
            !r@.closed,
            r@.taken.len() == consumers,
            forall|i: int| 0 <= i < consumers ==> r@.taken[i] == 0,
            r@.enqueued.len() == 0,
            r@.delivered.len() == 0,
    {
        let mut taken: Vec<u64> = Vec::new();
        while taken.len() < consumers
            invariant
                taken.len() <= consumers,
                forall|i: int| 0 <= i < taken.len() ==> taken@[i] == 0,
            decreases consumers - taken.len(),
        {
            taken.push(0);
        }
        proof {
            lemma_sum_zeros(taken@);
        }
        let q = JobQueue {
            pending: VecDeque::new(),
            closed: false,
            taken,
            total: 0,
            enqueued: Ghost(Seq::empty()),
            delivered: Ghost(Seq::empty()),
        };
        assert(q@.delivered + q@.pending =~= q@.enqueued);
        q
    }

    pub fn is_closed(&self) -> (r: bool)
        ensures
            r == self@.closed,
    {
        self.closed
    }

    /// How many jobs have been enqueued in all.
    pub fn enqueued_count(&self) -> (r: u64)
        requires
            self.wf(),
        ensures
            r == self@.enqueued.len(),
    {
        self.total
    }

    /// How many jobs the given consumer has taken.
    pub fn taken_by(&self, consumer: usize) -> (r: u64)
        requires
            consumer < self@.taken.len(),
        ensures
            r == self@.taken[consumer as int],
    {
        self.taken[consumer]
    }

    /// Offers a job after all those enqueued before it.
    pub fn enqueue(&mut self, job: Job)
        requires
            old(self).wf(),
            !old(self)@.closed,
            old(self)@.enqueued.len() < u64::MAX,
        ensures
            final(self).wf(),
            final(self)@.pending == old(self)@.pending.push(job),
            final(self)@.enqueued == old(self)@.enqueued.push(job),
            final(self)@.delivered == old(self)@.delivered,
            final(self)@.taken == old(self)@.taken,
            !final(self)@.closed,
    {
        self.pending.push_back(job);
        self.total = self.total + 1;
        self.enqueued = Ghost(self.enqueued@.push(job));
        assert(self@.delivered + self@.pending =~= self@.enqueued);
    }

    /// Marks the end of the jobs: consumers drain what is left and then see
    /// the end of the stream.
    pub fn close(&mut self)
        requires
            old(self).wf(),
            !old(self)@.closed,
        ensures
            final(self).wf(),
            final(self)@ == (QueueView { closed: true, ..old(self)@ }),
    {
        self.closed = true;
    }

    /// Hands the oldest pending job to the given consumer; where none is
    /// pending, tells it to wait while the queue is open and that the stream
    /// has ended once it is closed.
    pub fn dequeue(&mut self, consumer: usize) -> (r: Dequeued)
        requires
            old(self).wf(),
            consumer < old(self)@.taken.len(),
        ensures
            final(self).wf(),
            final(self)@.closed == old(self)@.closed,
            final(self)@.enqueued == old(self)@.enqueued,
            old(self)@.pending.len() > 0 ==> {
                &&& r == Dequeued::Ready(old(self)@.pending[0])
                &&& final(self)@.pending == old(self)@.pending.drop_first()
                &&& final(self)@.delivered == old(self)@.delivered.push(old(self)@.pending[0])
                &&& final(self)@.taken == old(self)@.taken.update(
                    consumer as int,
                    (old(self)@.taken[consumer as int] + 1) as u64,
                )
            },
            old(self)@.pending.len() == 0 ==> {
                &&& final(self)@ == old(self)@
                &&& r == if old(self)@.closed {
                    Dequeued::EndOfStream
                } else {
                    Dequeued::Empty
                }
            },
    {
        match self.pending.pop_front() {
            Some(job) => {
                proof {
                    lemma_count_le_sum(self.taken@, consumer as int);
                    lemma_sum_increment(self.taken@, consumer as int);
                    assert(self.delivered@.push(job) + self.pending@ =~= self.enqueued@);
                }
                let n = self.taken[consumer];
                self.taken.set(consumer, n + 1);
                self.delivered = Ghost(self.delivered@.push(job));
                Dequeued::Ready(job)
            },
            None => {
                if self.closed {
                    Dequeued::EndOfStream
                } else {
                    Dequeued::Empty
                }
            },
        }
    }
}

/// No job is lost or handed out twice: at every moment the jobs handed out,
/// followed by those still pending, are exactly the jobs enqueued, in order,
/// and the consumers' counts add up to the number handed out. Once the queue
/// is drained, those counts add up to the number of jobs enqueued, whatever
/// the number of consumers.
pub proof fn lemma_no_job_lost_or_repeated(q: &JobQueue)
    requires
        q.wf(),
    ensures
        q@.enqueued == q@.delivered + q@.pending,
        sum_counts(q@.taken) == q@.delivered.len(),
        q@.taken.len() >= 1,
        q@.pending.len() == 0 ==> q@.delivered == q@.enqueued,
        q@.pending.len() == 0 ==> sum_counts(q@.taken) == q@.enqueued.len(),
{
    assert(q@.delivered + Seq::<Job>::empty() =~= q@.delivered);
}

} // verus!
