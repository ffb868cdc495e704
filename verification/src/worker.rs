//! The bookkeeping of a pool of worker threads that send requests in the
//! background: when a request is queued, an idle worker is woken or a new
//! one is started; a worker with nothing to do waits, unless enough workers
//! wait already, in which case it quits.
use vstd::prelude::*;

verus! {

/// How many idle workers a pool keeps by default.
pub const MAX_IDLE_WORKERS: usize = 1;

/// What a pool is, abstractly.
pub struct WorkerPoolModel {
    /// How many idle workers the pool keeps at most.
    pub max_idle: nat,
    /// How many workers wait for a request.
    pub idle: nat,
    /// How many requests wait for a worker.
    pub queued: nat,
}

/// What the thread that queued a request does next.
#[derive(Clone, Copy, Debug, PartialEq, Eq, Structural)]
pub enum PushAction {
    /// Wakes one idle worker.
    WakeIdleWorker,
    /// Starts a new worker.
    SpawnWorker,
}

/// What a worker does next.
#[derive(Clone, Copy, Debug, PartialEq, Eq, Structural)]
pub enum WorkerAction {
    /// Takes the first queued request and sends it.
    RunTask,
    /// Waits for a request.
    Wait,
    /// Ends, as enough workers wait already.
    Quit,
}

/// The counts of a pool of workers.
#[derive(Debug)]
pub struct WorkerPool {
    max_idle_workers: usize,
    n_idle_workers: usize,
    n_queued: usize,
}

impl View for WorkerPool {
    type V = WorkerPoolModel;

    closed spec fn view(&self) -> WorkerPoolModel {
        WorkerPoolModel {
            max_idle: self.max_idle_workers as nat,
            idle: self.n_idle_workers as nat,
            queued: self.n_queued as nat,
        }
    }
}

/// Whether a pool counts no more idle workers than it keeps.
pub open spec fn keeps_few_idle(m: WorkerPoolModel) -> bool {
    m.idle <= m.max_idle
}

/// What a worker does next in a pool: takes a queued request if there is
/// one; else quits if as many workers as the pool keeps wait already, and
/// waits otherwise.
pub open spec fn worker_decision(m: WorkerPoolModel) -> WorkerAction {
    if m.queued > 0 {
        WorkerAction::RunTask
    } else if m.idle >= m.max_idle {
        WorkerAction::Quit
    } else {
        WorkerAction::Wait
    }
}

impl WorkerPool {
    /// Makes a pool of no workers and no requests, that keeps at most the
    /// given number of idle workers.
    pub fn new(max_idle_workers: usize) -> (r: Self)
        ensures
            r@ == (WorkerPoolModel { max_idle: max_idle_workers as nat, idle: 0, queued: 0 }),
            keeps_few_idle(r@),
    {
        WorkerPool { max_idle_workers, n_idle_workers: 0, n_queued: 0 }
    }

    /// Returns how many workers wait for a request.
    pub fn idle_workers(&self) -> (r: usize)
        ensures
            r == self@.idle,
    {
        self.n_idle_workers
    }

    /// Returns how many requests wait for a worker.
    pub fn queued(&self) -> (r: usize)
        ensures
            r == self@.queued,
    {
        self.n_queued
    }

    /// Queues a request, and says who is to send it: an idle worker if there
    /// is one, else a new worker.
    pub fn push(&mut self) -> (a: PushAction)
        requires
            old(self)@.queued < usize::MAX,
        ensures
            final(self)@ == (WorkerPoolModel { queued: old(self)@.queued + 1, ..old(self)@ }),
            a == if old(self)@.idle > 0 {
                PushAction::WakeIdleWorker
            } else {
                PushAction::SpawnWorker
            },
    {
        self.n_queued = self.n_queued + 1;
        if self.n_idle_workers > 0 {
            PushAction::WakeIdleWorker
        } else {
            PushAction::SpawnWorker
        }
    }

    /// Says what a worker that holds the pool does next: takes a queued
    /// request if there is one; else waits, counted as idle, unless as many
    /// workers as the pool keeps wait already, in which case it quits.
    pub fn next_step(&mut self) -> (a: WorkerAction)
        ensures
            old(self)@.queued > 0 ==> a == WorkerAction::RunTask && final(self)@ == (WorkerPoolModel {
                queued: (old(self)@.queued - 1) as nat,
                ..old(self)@
            }),
            old(self)@.queued == 0 && old(self)@.idle >= old(self)@.max_idle ==> a == WorkerAction::Quit
                && final(self)@ == old(self)@,
            old(self)@.queued == 0 && old(self)@.idle < old(self)@.max_idle ==> a == WorkerAction::Wait
                && final(self)@ == (WorkerPoolModel { idle: old(self)@.idle + 1, ..old(self)@ }),
            a == worker_decision(old(self)@),
            keeps_few_idle(old(self)@) ==> keeps_few_idle(final(self)@),
    {
        if self.n_queued > 0 {
            self.n_queued = self.n_queued - 1;
            WorkerAction::RunTask
        } else if self.n_idle_workers >= self.max_idle_workers {
            WorkerAction::Quit
        } else {
            self.n_idle_workers = self.n_idle_workers + 1;
            WorkerAction::Wait
        }
    }

    /// Counts a waiting worker as woken: no longer idle.
    pub fn woken(&mut self)
        requires
            old(self)@.idle > 0,
        ensures
            final(self)@ == (WorkerPoolModel { idle: (old(self)@.idle - 1) as nat, ..old(self)@ }),
            keeps_few_idle(old(self)@) ==> keeps_few_idle(final(self)@),
    {
        self.n_idle_workers = self.n_idle_workers - 1;
    }

    /// Lets the pool keep no idle worker, so that every worker quits once
    /// the queue is empty.
    pub fn signal_shutdown(&mut self)
        ensures
            final(self)@ == (WorkerPoolModel { max_idle: 0, ..old(self)@ }),
    {
        self.max_idle_workers = 0;
    }
}

/// Once a pool is shut down, a worker that finds no queued request quits,
/// and a shut-down pool never makes a worker wait.
pub proof fn lemma_shutdown_quits(m: WorkerPoolModel)
    requires
        m.max_idle == 0,
    ensures
        m.queued == 0 ==> worker_decision(m) == WorkerAction::Quit,
        worker_decision(m) != WorkerAction::Wait,
{
}

} // verus!
