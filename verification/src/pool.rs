//! Coordination core of a fixed-size worker pool.
//!
//! A `Pool` owns a bounded set of workers that share one FIFO job queue.
//! Jobs are modeled by identity tokens (`u64`); running a job's closure is
//! the embedding program's work, while everything the pool decides — when a
//! submission is accepted, which job a worker retrieves next, when a worker
//! may exit, and when the pool counts as terminated — is verified here.
//!
//! Lifecycle: `Accepting` (submissions allowed) → `ShuttingDown` (the
//! producer handle is gone, workers drain the queue) → `Terminated` (every
//! worker has exited). A worker may exit only once the queue is empty and
//! the pool is shutting down, so no queued job is ever dropped.

use vstd::prelude::*;

verus! {

use vstd::pervasive::VecAdditionalExecFns;

/// Why a pool operation was refused.
#[derive(PartialEq, Eq, Structural, Debug, Clone, Copy)]
pub enum PoolError {
    /// `Pool::new` was given a worker count of zero.
    ZeroWorkers,
    /// `execute` was called after shutdown had begun.
    ShutDown,
}

/// Lifecycle phase of a `Pool`.
#[derive(PartialEq, Eq, Structural, Debug, Clone, Copy)]
pub enum Phase {
    /// Submissions are accepted; every worker is live.
    Accepting,
    /// The producer handle has been relinquished; workers drain the queue.
    ShuttingDown,
    /// Every worker has exited; the queue is empty.
    Terminated,
}

/// What a single scheduling step did for one worker.
#[derive(PartialEq, Eq, Structural, Debug, Clone, Copy)]
pub enum WorkerEvent {
    /// The worker retrieved the job with this identity and ran it.
    Ran(u64),
    /// The worker observed permanent closure of the job source and exited.
    Exited,
    /// The queue is empty but more jobs may still arrive: the worker blocks.
    Idle,
}

/// One worker: a small integer identity (diagnostics only) and whether its
/// background thread is still running.
pub struct Worker {
    /// Index of this worker within the pool, fixed at construction.
    pub id: usize,
    /// True until the worker observes closure of the job source and exits.
    pub running: bool,
}

/// A fixed-size worker pool: `size` workers wired to one shared FIFO queue.
pub struct Pool {
    workers: Vec<Worker>,
    phase: Phase,
    queue: Vec<u64>,
    completed: Vec<u64>,
    submitted: Ghost<Seq<u64>>,
}

impl Pool {
    /// Number of workers, fixed at construction.
    pub closed spec fn spec_size(&self) -> nat {
        self.workers@.len()
    }

    /// Current lifecycle phase.
    pub closed spec fn spec_phase(&self) -> Phase {
        self.phase
    }

    /// Identities of the jobs accepted but not yet retrieved, oldest first.
    pub closed spec fn spec_queue(&self) -> Seq<u64> {
        self.queue@
    }

    /// Identities of the jobs already retrieved and run, in retrieval order.
    pub closed spec fn spec_completed(&self) -> Seq<u64> {
        self.completed@
    }

    /// Identities of every job ever accepted, in submission order.
    pub closed spec fn spec_submitted(&self) -> Seq<u64> {
        self.submitted@
    }

    /// Whether worker `i` is still live.
    pub closed spec fn worker_running(&self, i: int) -> bool {
        self.workers@[i].running
    }

    /// Identity of worker `i`: its index within the pool.
    pub closed spec fn worker_id(&self, i: int) -> usize {
        self.workers@[i].id
    }

    /// Well-formedness: what every reachable pool state satisfies.
    ///
    /// The last clause is the conservation law: every accepted job is either
    /// already run or still queued, with nothing duplicated and nothing lost.
    pub open spec fn wf(&self) -> bool {
        &&& self.spec_size() > 0
        &&& forall|i: int| 0 <= i < self.spec_size() ==> self.worker_id(i) == i
        &&& (self.spec_phase() == Phase::Accepting ==> forall|i: int|
            0 <= i < self.spec_size() ==> self.worker_running(i))
        &&& ((exists|i: int| 0 <= i < self.spec_size() && !self.worker_running(i))
            ==> self.spec_phase() != Phase::Accepting && self.spec_queue().len() == 0)
        &&& (self.spec_phase() == Phase::Terminated <==> forall|i: int|
            0 <= i < self.spec_size() ==> !self.worker_running(i))
        &&& self.spec_submitted() == self.spec_completed() + self.spec_queue()
    }

    /// Creates a pool with `size` live workers sharing one job queue.
    ///
    /// A worker count of zero is a contract violation and is rejected before
    /// anything is created: a pool with no workers would accept jobs and
    /// never run them.
    pub fn new(size: usize) -> (r: Result<Pool, PoolError>)
        ensures
            size == 0 ==> r == Result::<Pool, PoolError>::Err(PoolError::ZeroWorkers),
            size > 0 ==> {
                &&& r is Ok
                &&& r->Ok_0.wf()
                &&& r->Ok_0.spec_size() == size
                &&& r->Ok_0.spec_phase() == Phase::Accepting
                &&& forall|i: int| 0 <= i < size ==> r->Ok_0.worker_running(i)
                &&& r->Ok_0.spec_queue() == Seq::<u64>::empty()
                &&& r->Ok_0.spec_completed() == Seq::<u64>::empty()
                &&& r->Ok_0.spec_submitted() == Seq::<u64>::empty()
            },
    {
        if size == 0 {
            return Err(PoolError::ZeroWorkers);
        }
        let mut workers: Vec<Worker> = Vec::new();
        let mut id: usize = 0;
        while id < size
            invariant
                id <= size,
                workers@.len() == id,
                forall|i: int| 0 <= i < id ==> workers@[i].id == i && workers@[i].running,
            decreases size - id,
        {
            workers.push(Worker { id, running: true });
            id = id + 1;
        }
        let pool = Pool {
            workers,
            phase: Phase::Accepting,
            queue: Vec::new(),
            completed: Vec::new(),
            submitted: Ghost(Seq::empty()),
        };
        proof {
            assert(pool.submitted@ =~= pool.completed@ + pool.queue@);
            assert forall|i: int| 0 <= i < pool.spec_size() implies
                pool.worker_running(i) && pool.worker_id(i) == i by {}
            assert(pool.worker_running(0));
        }
        Ok(pool)
    }

    /// Enqueues a job for later pickup by some worker.
    ///
    /// Returns once the job is queued, not once it is run. After shutdown
    /// has begun the submission is refused and the pool is left unchanged.
    pub fn execute(&mut self, job: u64) -> (r: Result<(), PoolError>)
        requires
            old(self).wf(),
        ensures
            final(self).wf(),
            old(self).spec_phase() == Phase::Accepting ==> {
                &&& r == Result::<(), PoolError>::Ok(())
                &&& final(self).spec_queue() == old(self).spec_queue().push(job)
                &&& final(self).spec_submitted() == old(self).spec_submitted().push(job)
                &&& final(self).spec_completed() == old(self).spec_completed()
                &&& final(self).spec_phase() == old(self).spec_phase()
                &&& final(self).spec_size() == old(self).spec_size()
                &&& forall|i: int| 0 <= i < final(self).spec_size()
                    ==> final(self).worker_running(i) == old(self).worker_running(i)
            },
            old(self).spec_phase() != Phase::Accepting ==> {
                &&& r == Result::<(), PoolError>::Err(PoolError::ShutDown)
                &&& *final(self) == *old(self)
            },
    {
        match self.phase {
            Phase::Accepting => {
                self.queue.push(job);
                proof {
                    self.submitted@ = self.submitted@.push(job);
                    assert(self.submitted@ =~= self.completed@ + self.queue@);
                    assert forall|i: int| 0 <= i < self.spec_size() implies
                        self.worker_running(i) && self.worker_id(i) == i by {
                        assert(old(self).worker_running(i));
                        assert(old(self).worker_id(i) == i);
                    }
                    assert(self.worker_running(0));
                }
                Ok(())
            },
            _ => Err(PoolError::ShutDown),
        }
    }

    /// Relinquishes the producer handle: the sole shutdown signal.
    ///
    /// No job is dropped — queued jobs remain for the workers to drain.
    pub fn begin_shutdown(&mut self)
        requires
            old(self).wf(),
            old(self).spec_phase() == Phase::Accepting,
        ensures
            final(self).wf(),
            final(self).spec_phase() == Phase::ShuttingDown,
            final(self).spec_queue() == old(self).spec_queue(),
            final(self).spec_completed() == old(self).spec_completed(),
            final(self).spec_submitted() == old(self).spec_submitted(),
            final(self).spec_size() == old(self).spec_size(),
            forall|i: int| 0 <= i < final(self).spec_size() ==> final(self).worker_running(i),
    {
        self.phase = Phase::ShuttingDown;
        proof {
            assert forall|i: int| 0 <= i < self.spec_size() implies
                self.worker_running(i) && self.worker_id(i) == i by {
                assert(old(self).worker_running(i));
                assert(old(self).worker_id(i) == i);
            }
            assert(self.worker_running(0));
        }
    }

    /// One scheduling step of a live worker: retrieve and run the oldest
    /// queued job, or exit if the source is closed, or block if more jobs
    /// may still arrive.
    ///
    /// A worker exits only when the queue is empty and shutdown has begun,
    /// so teardown never abandons a queued job.
    pub fn worker_step(&mut self, id: usize) -> (ev: WorkerEvent)
        requires
            old(self).wf(),
            id < old(self).spec_size(),
            old(self).worker_running(id as int),
        ensures
            final(self).wf(),
            final(self).spec_size() == old(self).spec_size(),
            final(self).spec_submitted() == old(self).spec_submitted(),
            match ev {
                WorkerEvent::Ran(j) => {
                    &&& old(self).spec_queue().len() > 0
                    &&& j == old(self).spec_queue()[0]
                    &&& final(self).spec_queue() == old(self).spec_queue().drop_first()
                    &&& final(self).spec_completed() == old(self).spec_completed().push(j)
                    &&& final(self).spec_phase() == old(self).spec_phase()
                    &&& forall|i: int| 0 <= i < final(self).spec_size()
                        ==> final(self).worker_running(i) == old(self).worker_running(i)
                },
                WorkerEvent::Exited => {
                    &&& old(self).spec_queue().len() == 0
                    &&& old(self).spec_phase() == Phase::ShuttingDown
                    &&& final(self).spec_queue() == old(self).spec_queue()
                    &&& final(self).spec_completed() == old(self).spec_completed()
                    &&& !final(self).worker_running(id as int)
                    &&& (forall|i: int| 0 <= i < final(self).spec_size() && i != id
                        ==> final(self).worker_running(i) == old(self).worker_running(i))
                    &&& (final(self).spec_phase() == Phase::Terminated <==> forall|i: int|
                        0 <= i < final(self).spec_size() ==> !final(self).worker_running(i))
                },
                WorkerEvent::Idle => {
                    &&& old(self).spec_phase() == Phase::Accepting
                    &&& old(self).spec_queue().len() == 0
                    &&& *final(self) == *old(self)
                },
            },
    {
        proof {
            assert(old(self).worker_running(id as int));
            assert(old(self).spec_phase() != Phase::Terminated);
        }
        if self.queue.len() > 0 {
            let job = self.queue.remove(0);
            self.completed.push(job);
            proof {
                assert(self.queue@ =~= old(self).spec_queue().drop_first());
                assert(self.submitted@ =~= self.completed@ + self.queue@);
                assert forall|i: int| 0 <= i < self.spec_size() implies
                    self.worker_running(i) == old(self).worker_running(i)
                    && self.worker_id(i) == i by {
                    assert(old(self).worker_id(i) == i);
                }
                assert forall|i: int| 0 <= i < self.spec_size() implies
                    self.worker_running(i) by {
                    if !old(self).worker_running(i) {
                        assert(old(self).spec_queue().len() == 0);
                    }
                }
                assert(self.worker_running(id as int));
            }
            WorkerEvent::Ran(job)
        } else {
            match self.phase {
                Phase::Accepting => WorkerEvent::Idle,
                _ => {
                    proof {
                        assert(old(self).worker_id(id as int) == id);
                    }
                    let worker_id = self.workers[id].id;
                    self.workers.set(id, Worker { id: worker_id, running: false });
                    let none = self.none_running();
                    let ghost mid = *self;
                    if none {
                        self.phase = Phase::Terminated;
                    }
                    proof {
                        assert(self.workers@ == mid.workers@);
                        assert forall|i: int| 0 <= i < self.spec_size() && i != id implies
                            self.worker_running(i) == old(self).worker_running(i)
                            && self.worker_id(i) == i by {
                            assert(old(self).worker_id(i) == i);
                            assert(mid.worker_running(i) == old(self).worker_running(i));
                        }
                        assert(!mid.worker_running(id as int));
                        assert(!self.worker_running(id as int));
                        assert(self.worker_id(id as int) == id);
                        if none {
                            assert forall|i: int| 0 <= i < self.spec_size() implies
                                !self.worker_running(i) by {
                                assert(!mid.worker_running(i));
                            }
                        } else {
                            assert(exists|i: int|
                                0 <= i < mid.spec_size() && mid.worker_running(i));
                            let i = choose|i: int|
                                0 <= i < mid.spec_size() && mid.worker_running(i);
                            assert(self.worker_running(i));
                            assert(self.spec_phase() != Phase::Terminated);
                        }
                    }
                    WorkerEvent::Exited
                },
            }
        }
    }

    /// Whether no worker is live any more.
    fn none_running(&self) -> (r: bool)
        ensures
            r == forall|i: int| 0 <= i < self.spec_size() ==> !self.worker_running(i),
    {
        let mut i: usize = 0;
        while i < self.workers.len()
            invariant
                i <= self.workers@.len(),
                forall|k: int| 0 <= k < i ==> !self.worker_running(k),
            decreases self.workers@.len() - i,
        {
            if self.workers[i].running {
                proof {
                    assert(self.worker_running(i as int));
                }
                return false;
            }
            i = i + 1;
        }
        true
    }

    /// Tears the pool down: relinquishes the producer handle, then joins
    /// every worker in construction order. Each worker first drains the
    /// queue, so every job accepted before teardown is still run, and only
    /// then exits; the call returns once all workers have exited.
    pub fn shutdown(&mut self)
        requires
            old(self).wf(),
            old(self).spec_phase() == Phase::Accepting,
        ensures
            final(self).wf(),
            final(self).spec_phase() == Phase::Terminated,
            final(self).spec_size() == old(self).spec_size(),
            final(self).spec_queue() == Seq::<u64>::empty(),
            final(self).spec_completed() == old(self).spec_completed() + old(self).spec_queue(),
            final(self).spec_submitted() == old(self).spec_submitted(),
            forall|i: int| 0 <= i < final(self).spec_size() ==> !final(self).worker_running(i),
    {
        self.begin_shutdown();
        proof {
            assert(self.spec_completed() + self.spec_queue()
                =~= old(self).spec_completed() + old(self).spec_queue());
        }
        let size = self.workers.len();
        let mut id: usize = 0;
        while id < size
            invariant
                id <= size,
                size == self.spec_size(),
                self.wf(),
                self.spec_submitted() == old(self).spec_submitted(),
                self.spec_completed() + self.spec_queue()
                    == old(self).spec_completed() + old(self).spec_queue(),
                id > 0 ==> self.spec_queue().len() == 0,
                id < size ==> self.spec_phase() == Phase::ShuttingDown,
                forall|i: int| 0 <= i < id ==> !self.worker_running(i),
                forall|i: int| id <= i < size ==> self.worker_running(i),
                id == size ==> self.spec_phase() == Phase::Terminated,
            decreases size - id,
        {
            loop
                invariant_except_break
                    id < size,
                    size == self.spec_size(),
                    self.wf(),
                    self.spec_phase() == Phase::ShuttingDown,
                    self.worker_running(id as int),
                    self.spec_submitted() == old(self).spec_submitted(),
                    self.spec_completed() + self.spec_queue()
                        == old(self).spec_completed() + old(self).spec_queue(),
                    forall|i: int| 0 <= i < id ==> !self.worker_running(i),
                    forall|i: int| id <= i < size ==> self.worker_running(i),
                ensures
                    size == self.spec_size(),
                    self.wf(),
                    self.spec_queue().len() == 0,
                    self.spec_submitted() == old(self).spec_submitted(),
                    self.spec_completed() == old(self).spec_completed() + old(self).spec_queue(),
                    !self.worker_running(id as int),
                    forall|i: int| 0 <= i < id ==> !self.worker_running(i),
                    forall|i: int| id < i < size ==> self.worker_running(i),
                    self.spec_phase() == Phase::Terminated <==> id == size - 1,
                decreases self.spec_queue().len() + 1,
            {
                match self.worker_step(id) {
                    WorkerEvent::Ran(_) => {},
                    WorkerEvent::Exited => {
                        proof {
                            assert(self.spec_completed() + self.spec_queue()
                                =~= self.spec_completed());
                            if id + 1 < size {
                                assert(self.worker_running(id as int + 1));
                                assert(self.spec_phase() != Phase::Terminated);
                            } else {
                                assert forall|i: int| 0 <= i < self.spec_size() implies
                                    !self.worker_running(i) by {
                                    assert(i == id || !self.worker_running(i));
                                }
                                assert(self.spec_phase() == Phase::Terminated);
                            }
                        }
                        break;
                    },
                    WorkerEvent::Idle => {
                        proof {
                            assert(false);
                        }
                    },
                }
            }
            id = id + 1;
        }
        proof {
            assert(self.spec_queue().len() == 0);
            assert(self.spec_queue() =~= Seq::<u64>::empty());
            assert(self.spec_completed() + self.spec_queue() =~= self.spec_completed());
        }
    }

    /// Number of workers, for callers outside ghost code.
    pub fn size(&self) -> (r: usize)
        ensures
            r == self.spec_size(),
    {
        self.workers.len()
    }

    /// Current lifecycle phase, for callers outside ghost code.
    pub fn phase(&self) -> (r: Phase)
        ensures
            r == self.spec_phase(),
    {
        self.phase
    }

    /// Number of jobs accepted but not yet retrieved.
    pub fn queued_count(&self) -> (r: usize)
        ensures
            r == self.spec_queue().len(),
    {
        self.queue.len()
    }

    /// The jobs already retrieved and run, in retrieval order.
    pub fn completed_jobs(&self) -> (r: &Vec<u64>)
        ensures
            r@ == self.spec_completed(),
    {
        &self.completed
    }

    /// Whether every worker is still live.
    pub fn all_running(&self) -> (r: bool)
        ensures
            r == forall|i: int| 0 <= i < self.spec_size() ==> self.worker_running(i),
    {
        let mut i: usize = 0;
        while i < self.workers.len()
            invariant
                i <= self.workers@.len(),
                forall|k: int| 0 <= k < i ==> self.worker_running(k),
            decreases self.workers@.len() - i,
        {
            if !self.workers[i].running {
                proof {
                    assert(!self.worker_running(i as int));
                }
                return false;
            }
            proof {
                assert(self.worker_running(i as int));
            }
            i = i + 1;
        }
        true
    }

    /// Whether the pool has fully terminated: every worker has exited.
    pub fn is_terminated(&self) -> (r: bool)
        ensures
            r == (self.spec_phase() == Phase::Terminated),
    {
        match self.phase {
            Phase::Terminated => true,
            _ => false,
        }
    }
}

/// Conservation of jobs: in every reachable pool state, the jobs accepted so
/// far are exactly the jobs already run followed by the jobs still queued —
/// no job is dropped, duplicated or invented.
pub proof fn lemma_job_conservation(p: &Pool)
    requires
        p.wf(),
    ensures
        p.spec_submitted() == p.spec_completed() + p.spec_queue(),
{
}

/// Retrieval is FIFO: at any point, the jobs run so far are exactly the
/// earliest-submitted ones, in submission order, and the queue holds the
/// rest in submission order.
pub proof fn lemma_fifo_retrieval(p: &Pool)
    requires
        p.wf(),
    ensures
        p.spec_completed() == p.spec_submitted().take(p.spec_completed().len() as int),
        p.spec_queue() == p.spec_submitted().skip(p.spec_completed().len() as int),
{
    assert(p.spec_submitted().take(p.spec_completed().len() as int) =~= p.spec_completed());
    assert(p.spec_submitted().skip(p.spec_completed().len() as int) =~= p.spec_queue());
}

/// A terminated pool has run every job it ever accepted, exactly once each,
/// in submission order: for N submitted jobs, N executions occurred.
pub proof fn lemma_terminated_ran_all(p: &Pool)
    requires
        p.wf(),
        p.spec_phase() == Phase::Terminated,
    ensures
        p.spec_completed() == p.spec_submitted(),
        p.spec_queue().len() == 0,
{
    assert(!p.worker_running(0));
    assert(p.spec_queue().len() == 0);
    assert(p.spec_completed() + p.spec_queue() =~= p.spec_completed());
}

/// A job whose execution records its identity lands in the record exactly
/// once: after teardown, jobs submitted under distinct identities have been
/// recorded without duplicates, as the same multiset, order unconstrained.
pub proof fn lemma_each_job_exactly_once(p: &Pool)
    requires
        p.wf(),
        p.spec_phase() == Phase::Terminated,
        p.spec_submitted().no_duplicates(),
    ensures
        p.spec_completed().no_duplicates(),
        p.spec_completed().to_multiset() == p.spec_submitted().to_multiset(),
{
    lemma_terminated_ran_all(p);
}

/// No worker exits while jobs are still queued: teardown drains the whole
/// backlog before any worker thread is allowed to finish.
pub proof fn lemma_no_exit_before_drain(p: &Pool, i: int)
    requires
        p.wf(),
        0 <= i < p.spec_size(),
        !p.worker_running(i),
    ensures
        p.spec_queue().len() == 0,
        p.spec_phase() != Phase::Accepting,
{
}

} // verus!
