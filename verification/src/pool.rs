use std::collections::VecDeque;
use vstd::prelude::*;

verus! {

/// What a worker that asks for work is told.
#[derive(Debug, PartialEq, Eq)]
pub enum Claim<T> {
    /// Run this job, then report that it is finished.
    Job(T),
    /// Nothing can be handed out now: ask again after the next change.
    Wait,
    /// The queue is closed and empty: no job will come.
    Stop,
}

/// The queue of a pool with a fixed number of workers: the jobs that wait, oldest first,
/// and the number of jobs that are being run.
pub struct JobQueue<T> {
    pending: VecDeque<T>,
    workers: usize,
    running: usize,
    closed: bool,
}

/// The state of a job queue.
pub struct JobQueueView<T> {
    /// The jobs that wait for a worker, oldest first.
    pub pending: Seq<T>,
    /// The number of workers.
    pub workers: nat,
    /// The number of jobs handed out and not yet reported as finished.
    pub running: nat,
    /// No further job is accepted.
    pub closed: bool,
}

/// What happens to a job queue.
pub enum Event<T> {
    /// The listener submits a job.
    Submit(T),
    /// A worker asks for work.
    Claim,
    /// A worker reports that its job is finished.
    Finish,
    /// The pool shuts down.
    Close,
}

impl<T> JobQueueView<T> {
    /// There is at least one worker, and no more jobs are being run than there are workers.
    pub open spec fn wf(self) -> bool {
        1 <= self.workers && self.running <= self.workers
    }

    /// The queue of a new pool.
    pub open spec fn start(workers: nat) -> Self {
        JobQueueView { pending: Seq::empty(), workers, running: 0, closed: false }
    }

    /// A job can be handed out: one waits, and a worker is free.
    pub open spec fn can_claim(self) -> bool {
        self.pending.len() > 0 && self.running < self.workers
    }

    /// The queue after a job was submitted: the job waits behind all others, unless the queue
    /// is closed.
    pub open spec fn submit(self, job: T) -> Self {
        if self.closed {
            self
        } else {
            JobQueueView { pending: self.pending.push(job), ..self }
        }
    }

    /// What a worker that asks for work is told: the oldest waiting job where one can be
    /// handed out.
    pub open spec fn claim_answer(self) -> Claim<T> {
        if self.can_claim() {
            Claim::Job(self.pending[0])
        } else if self.closed && self.pending.len() == 0 {
            Claim::Stop
        } else {
            Claim::Wait
        }
    }

    /// The queue after a worker asked for work.
    pub open spec fn claim(self) -> Self {
        if self.can_claim() {
            JobQueueView {
                pending: self.pending.drop_first(),
                running: self.running + 1,
                ..self
            }
        } else {
            self
        }
    }

    /// The queue after a worker reported that its job is finished.
    pub open spec fn finish(self) -> Self {
        if self.running > 0 {
            JobQueueView { running: (self.running - 1) as nat, ..self }
        } else {
            self
        }
    }

    /// The queue after it was closed: the jobs that wait stay.
    pub open spec fn close(self) -> Self {
        JobQueueView { closed: true, ..self }
    }

    /// The queue after an event.
    pub open spec fn step(self, event: Event<T>) -> Self {
        match event {
            Event::Submit(job) => self.submit(job),
            Event::Claim => self.claim(),
            Event::Finish => self.finish(),
            Event::Close => self.close(),
        }
    }

    /// The jobs that an event adds to the queue.
    pub open spec fn taken_in(self, event: Event<T>) -> Seq<T> {
        match event {
            Event::Submit(job) => if self.closed {
                Seq::empty()
            } else {
                seq![job]
            },
            _ => Seq::empty(),
        }
    }

    /// The jobs that an event hands to a worker.
    pub open spec fn handed_out(self, event: Event<T>) -> Seq<T> {
        match event {
            Event::Claim => if self.can_claim() {
                seq![self.pending[0]]
            } else {
                Seq::empty()
            },
            _ => Seq::empty(),
        }
    }

    /// The queue after a sequence of events.
    pub open spec fn run(self, events: Seq<Event<T>>) -> Self
        decreases events.len(),
    {
        if events.len() == 0 {
            self
        } else {
            self.run(events.drop_last()).step(events.last())
        }
    }

    /// The jobs that a sequence of events adds to the queue, in the order in which they come.
    pub open spec fn taken_in_during(self, events: Seq<Event<T>>) -> Seq<T>
        decreases events.len(),
    {
        if events.len() == 0 {
            Seq::empty()
        } else {
            self.taken_in_during(events.drop_last()) + self.run(events.drop_last()).taken_in(
                events.last(),
            )
        }
    }

    /// The jobs that a sequence of events hands to workers, in the order in which they leave.
    pub open spec fn handed_out_during(self, events: Seq<Event<T>>) -> Seq<T>
        decreases events.len(),
    {
        if events.len() == 0 {
            Seq::empty()
        } else {
            self.handed_out_during(events.drop_last()) + self.run(
                events.drop_last(),
            ).handed_out(events.last())
        }
    }
}

impl<T> View for JobQueue<T> {
    type V = JobQueueView<T>;

    closed spec fn view(&self) -> JobQueueView<T> {
        JobQueueView {
            pending: self.pending@,
            workers: self.workers as nat,
            running: self.running as nat,
            closed: self.closed,
        }
    }
}

impl<T> JobQueue<T> {
    /// The queue of a new pool of `workers` workers. A pool has at least one worker.
    pub fn new(workers: usize) -> (queue: Option<JobQueue<T>>)
        ensures
            match queue {
                Some(q) => {
                    &&& workers >= 1
                    &&& q@ == JobQueueView::<T>::start(workers as nat)
                    &&& q@.wf()
                },
                None => workers == 0,
            },
    {
        if workers == 0 {
            None
        } else {
            Some(JobQueue { pending: VecDeque::new(), workers, running: 0, closed: false })
        }
    }

    /// Puts a job behind all that wait. A closed queue hands the job back.
    pub fn submit(&mut self, job: T) -> (outcome: Result<(), T>)
        ensures
            final(self)@ == old(self)@.submit(job),
            old(self)@.wf() ==> final(self)@.wf(),
            match outcome {
                Ok(_) => !old(self)@.closed,
                Err(back) => old(self)@.closed && back == job,
            },
    {
        if self.closed {
            Err(job)
        } else {
            self.pending.push_back(job);
            Ok(())
        }
    }

    /// Asks for work on behalf of a worker that runs no job.
    pub fn claim(&mut self) -> (answer: Claim<T>)
        ensures
            answer == old(self)@.claim_answer(),
            final(self)@ == old(self)@.claim(),
            old(self)@.wf() ==> final(self)@.wf(),
    {
        if self.running < self.workers {
            match self.pending.pop_front() {
                Some(job) => {
                    self.running = self.running + 1;
                    assert(self.pending@ =~= old(self).pending@.drop_first());
                    return Claim::Job(job);
                },
                None => {},
            }
        }
        if self.closed && self.pending.len() == 0 {
            Claim::Stop
        } else {
            Claim::Wait
        }
    }

    /// Reports that a worker has finished its job.
    pub fn finish(&mut self)
        ensures
            final(self)@ == old(self)@.finish(),
            old(self)@.wf() ==> final(self)@.wf(),
    {
        if self.running > 0 {
            self.running = self.running - 1;
        }
    }

    /// Closes the queue: no further job is accepted, and the jobs that wait are still handed
    /// out.
    pub fn close(&mut self)
        ensures
            final(self)@ == old(self)@.close(),
            old(self)@.wf() ==> final(self)@.wf(),
    {
        self.closed = true;
    }

    /// The number of workers.
    pub fn workers(&self) -> (n: usize)
        ensures
            n == self@.workers,
    {
        self.workers
    }

    /// The number of jobs that are being run.
    pub fn running(&self) -> (n: usize)
        ensures
            n == self@.running,
    {
        self.running
    }

    /// The number of jobs that wait.
    pub fn pending(&self) -> (n: usize)
        ensures
            n == self@.pending.len(),
    {
        self.pending.len()
    }

    /// Whether the queue is closed.
    pub fn is_closed(&self) -> (closed: bool)
        ensures
            closed == self@.closed,
    {
        self.closed
    }
}

/// No event leads out of the well-formed states: whatever happens, no more jobs are being
/// run than there are workers, and the number of workers stays.
pub proof fn at_most_workers_running<T>(queue: JobQueueView<T>, events: Seq<Event<T>>)
    requires
        queue.wf(),
    ensures
        queue.run(events).wf(),
        queue.run(events).running <= queue.workers,
        queue.run(events).workers == queue.workers,
    decreases events.len(),
{
    if events.len() > 0 {
        at_most_workers_running(queue, events.drop_last());
    }
}

/// No job is lost and none is handed out twice: the jobs that waited at first, followed by
/// those that came in, are those that were handed to workers, followed by those that still
/// wait, in the same order.
pub proof fn no_job_dropped<T>(queue: JobQueueView<T>, events: Seq<Event<T>>)
    ensures
        queue.pending + queue.taken_in_during(events) == queue.handed_out_during(events)
            + queue.run(events).pending,
    decreases events.len(),
{
    if events.len() == 0 {
        assert(queue.pending + Seq::<T>::empty() =~= Seq::<T>::empty() + queue.pending);
    } else {
        no_job_dropped(queue, events.drop_last());
        let before = queue.run(events.drop_last());
        let came = queue.taken_in_during(events.drop_last());
        let left = queue.handed_out_during(events.drop_last());
        assert(queue.pending + came == left + before.pending);
        assert(queue.pending + (came + before.taken_in(events.last())) =~= (queue.pending + came)
            + before.taken_in(events.last()));
        assert((left + before.handed_out(events.last())) + before.step(events.last()).pending
            =~= (left + before.pending) + before.taken_in(events.last()));
    }
}

/// A job that waits is handed out as soon as a worker is free: when a worker reports that
/// its job is finished and then asks for work, it is told to run the oldest waiting job.
pub proof fn freed_worker_takes_oldest<T>(queue: JobQueueView<T>)
    requires
        queue.wf(),
        queue.running > 0,
        queue.pending.len() > 0,
    ensures
        queue.finish().claim_answer() == Claim::Job(queue.pending[0]),
{
}

/// While every worker runs a job, none is handed out, however many wait: the queue stays
/// as it is, and a worker that asks is given no job.
pub proof fn saturated_pool_hands_out_nothing<T>(queue: JobQueueView<T>)
    requires
        queue.wf(),
        queue.running == queue.workers,
    ensures
        queue.claim() == queue,
        !(queue.claim_answer() is Job),
{
}

} // verus!
