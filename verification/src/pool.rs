//! Dispatch and lifecycle state machine of the worker pool.
//!
//! A pool owns a fixed number of workers. Each worker has a dedicated
//! inbound queue (the buffer of its private channel), at most one job it is
//! currently executing, and a log of the jobs it has finished, in the order
//! it finished them. A job is identified by a caller-chosen token; the pool
//! never inspects it.
//!
//! Submission scans the workers in id order and routes the job to the first
//! one whose busy flag reads idle; when every flag reads busy the submission
//! is refused at once. A worker's busy flag is raised only while it executes
//! a job, so a job that has been routed but not yet picked up leaves the
//! flag down: two submissions in quick succession may land on one worker
//! while another sits idle. That window is deliberate — the flag read and
//! the routing are two separate steps, never one atomic transaction — and
//! the queue absorbs the extra job without losing it.

use vstd::prelude::*;

verus! {

/// The failure a submission can report.
#[derive(Clone, Copy, Debug, PartialEq, Eq, Structural)]
pub enum PoolError {
    /// Every worker's busy flag read busy at scan time.
    NoAvailableWorker,
}

/// One worker's share of the pool state.
struct WorkerState {
    /// Jobs routed to this worker and not yet picked up, in send order.
    pending: Vec<u64>,
    /// The job this worker is executing now, if any; its busy flag.
    running: Option<u64>,
    /// Jobs this worker finished, in the order it finished them.
    done: Vec<u64>,
}

/// A fixed-size pool of workers, each with its inbound queue, busy flag and
/// finish log. The number of workers is set at construction and never
/// changes.
pub struct ThreadPool {
    workers: Vec<WorkerState>,
}

impl ThreadPool {
    /// The number of workers, fixed at construction.
    pub closed spec fn size(self) -> nat {
        self.workers@.len()
    }

    /// Jobs routed to worker `i` and not yet picked up, in send order.
    pub closed spec fn pending_of(self, i: int) -> Seq<u64> {
        self.workers@[i].pending@
    }

    /// The job worker `i` is executing now, if any.
    pub closed spec fn running_of(self, i: int) -> Option<u64> {
        self.workers@[i].running
    }

    /// Jobs worker `i` finished, in the order it finished them.
    pub closed spec fn done_of(self, i: int) -> Seq<u64> {
        self.workers@[i].done@
    }

    /// Worker `i`'s busy flag: raised exactly while it executes a job.
    pub open spec fn busy(self, i: int) -> bool {
        self.running_of(i) is Some
    }

    /// Worker `i` exists and its busy flag reads idle.
    pub open spec fn idle(self, i: int) -> bool {
        0 <= i < self.size() && !self.busy(i)
    }

    /// The job worker `i` is executing, as a sequence: empty when idle.
    pub open spec fn run_seq_of(self, i: int) -> Seq<u64> {
        match self.running_of(i) {
            Some(j) => seq![j],
            None => Seq::<u64>::empty(),
        }
    }

    /// Every job ever routed to worker `i`, in send order: first the ones it
    /// finished, then the one in hand, then the ones still queued.
    pub open spec fn submitted_of(self, i: int) -> Seq<u64> {
        self.done_of(i) + self.run_seq_of(i) + self.pending_of(i)
    }

    /// A well-formed pool holds at least one worker.
    pub open spec fn wf(self) -> bool {
        self.size() >= 1
    }

    /// Builds a pool of `size` idle workers with empty queues and logs.
    /// A pool of size zero is a programmer error and is ruled out here.
    pub fn new(size: usize) -> (p: ThreadPool)
        requires
            size >= 1,
        ensures
            p.wf(),
            p.size() == size,
            forall|i: int| 0 <= i < size ==> p.pending_of(i) == Seq::<u64>::empty(),
            forall|i: int| 0 <= i < size ==> p.running_of(i) is None,
            forall|i: int| 0 <= i < size ==> p.done_of(i) == Seq::<u64>::empty(),
            forall|i: int| 0 <= i < size ==> #[trigger] p.idle(i),
    {
        let mut workers: Vec<WorkerState> = Vec::new();
        let mut k: usize = 0;
        while k < size
            invariant
                k <= size,
                workers@.len() == k,
                forall|i: int| 0 <= i < k ==> {
                    &&& workers@[i].pending@ == Seq::<u64>::empty()
                    &&& workers@[i].running is None
                    &&& workers@[i].done@ == Seq::<u64>::empty()
                },
            decreases size - k,
        {
            workers.push(WorkerState { pending: Vec::new(), running: None, done: Vec::new() });
            k = k + 1;
        }
        ThreadPool { workers }
    }

    /// A snapshot of every worker's busy flag, in id order.
    fn busy_flags(&self) -> (flags: Vec<bool>)
        ensures
            flags@.len() == self.size(),
            forall|i: int| 0 <= i < self.size() ==> flags@[i] == self.busy(i),
    {
        let n = self.workers.len();
        let mut flags: Vec<bool> = Vec::new();
        let mut k: usize = 0;
        while k < n
            invariant
                k <= n,
                n == self.size(),
                flags@.len() == k,
                forall|i: int| 0 <= i < k ==> flags@[i] == self.busy(i),
            decreases n - k,
        {
            flags.push(self.workers[k].running.is_some());
            k = k + 1;
        }
        flags
    }
}

/// What a successful submission does: `job` lands at the end of worker `i`'s
/// queue, `i` is the lowest id whose flag read idle at scan time, and no
/// other worker changes. Routing appends to the worker's submission history
/// and touches nothing it has finished or has in hand.
pub open spec fn dispatched_to(pre: ThreadPool, post: ThreadPool, i: int, job: u64) -> bool {
    &&& pre.idle(i)
    &&& (forall|j: int| 0 <= j < i ==> pre.busy(j))
    &&& post.size() == pre.size()
    &&& post.pending_of(i) == pre.pending_of(i).push(job)
    &&& post.running_of(i) == pre.running_of(i)
    &&& post.done_of(i) == pre.done_of(i)
    &&& post.submitted_of(i) == pre.submitted_of(i).push(job)
    &&& (forall|k: int| 0 <= k < pre.size() && k != i ==> post.pending_of(k) == pre.pending_of(k))
    &&& (forall|k: int| 0 <= k < pre.size() && k != i ==> post.running_of(k) == pre.running_of(k))
    &&& (forall|k: int| 0 <= k < pre.size() && k != i ==> post.done_of(k) == pre.done_of(k))
}

impl ThreadPool {
    /// Submission: scans the busy flags in id order and routes `job` to the
    /// first worker whose flag reads idle; when every flag reads busy it
    /// refuses at once, leaving the pool untouched. It succeeds if and only
    /// if some flag read idle, and success means the job has been handed
    /// off, not that it has started or finished.
    pub fn execute(&mut self, job: u64) -> (r: Result<(), PoolError>)
        ensures
            final(self).size() == old(self).size(),
            r is Ok <==> exists|i: int| old(self).idle(i),
            r is Ok ==> exists|i: int| #[trigger] dispatched_to(*old(self), *final(self), i, job),
            r is Err ==> {
                &&& r == Err::<(), PoolError>(PoolError::NoAvailableWorker)
                &&& *final(self) == *old(self)
                &&& forall|i: int| 0 <= i < old(self).size() ==> old(self).busy(i)
            },
    {
        let flags = self.busy_flags();
        match select_idle_worker(&flags) {
            Some(i) => {
                self.workers[i].pending.push(job);
                proof {
                    assert(old(self).idle(i as int));
                    assert(self.submitted_of(i as int)
                        =~= old(self).submitted_of(i as int).push(job));
                    assert(dispatched_to(*old(self), *self, i as int, job));
                }
                Ok(())
            },
            None => {
                proof {
                    assert(forall|i: int| 0 <= i < old(self).size() ==> old(self).busy(i));
                    assert(!(exists|i: int| old(self).idle(i)));
                }
                Err(PoolError::NoAvailableWorker)
            },
        }
    }
}

impl ThreadPool {
    /// Worker `i` picks up the oldest job in its queue: the flag rises, the
    /// job moves from the head of the queue into the worker's hands. Jobs are
    /// picked up strictly in send order, and no worker's submission history
    /// changes.
    pub fn begin_job(&mut self, i: usize)
        requires
            i < old(self).size(),
            old(self).running_of(i as int) is None,
            old(self).pending_of(i as int).len() > 0,
        ensures
            final(self).size() == old(self).size(),
            final(self).busy(i as int),
            final(self).running_of(i as int) == Some(old(self).pending_of(i as int)[0]),
            final(self).pending_of(i as int) == old(self).pending_of(i as int).drop_first(),
            final(self).done_of(i as int) == old(self).done_of(i as int),
            forall|k: int|
                0 <= k < old(self).size() && k != i ==> final(self).pending_of(k) == old(
                    self,
                ).pending_of(k),
            forall|k: int|
                0 <= k < old(self).size() && k != i ==> final(self).running_of(k) == old(
                    self,
                ).running_of(k),
            forall|k: int|
                0 <= k < old(self).size() && k != i ==> final(self).done_of(k) == old(
                    self,
                ).done_of(k),
            forall|k: int|
                0 <= k < old(self).size() ==> final(self).submitted_of(k) == old(
                    self,
                ).submitted_of(k),
    {
        let job = self.workers[i].pending.remove(0);
        self.workers[i].running = Some(job);
        proof {
            assert(self.pending_of(i as int) =~= old(self).pending_of(i as int).drop_first());
            assert(self.submitted_of(i as int) =~= old(self).submitted_of(i as int));
        }
    }

    /// Worker `i` finishes the job in hand: the job moves to the end of its
    /// finish log and the flag falls, making the worker eligible for the
    /// next submission. No worker's submission history changes.
    pub fn finish_job(&mut self, i: usize)
        requires
            i < old(self).size(),
            old(self).running_of(i as int) is Some,
        ensures
            final(self).size() == old(self).size(),
            final(self).running_of(i as int) is None,
            !final(self).busy(i as int),
            final(self).done_of(i as int) == old(self).done_of(i as int).push(
                old(self).running_of(i as int)->Some_0,
            ),
            final(self).pending_of(i as int) == old(self).pending_of(i as int),
            forall|k: int|
                0 <= k < old(self).size() && k != i ==> final(self).pending_of(k) == old(
                    self,
                ).pending_of(k),
            forall|k: int|
                0 <= k < old(self).size() && k != i ==> final(self).running_of(k) == old(
                    self,
                ).running_of(k),
            forall|k: int|
                0 <= k < old(self).size() && k != i ==> final(self).done_of(k) == old(
                    self,
                ).done_of(k),
            forall|k: int|
                0 <= k < old(self).size() ==> final(self).submitted_of(k) == old(
                    self,
                ).submitted_of(k),
    {
        let job = self.workers[i].running.unwrap();
        self.workers[i].running = None;
        self.workers[i].done.push(job);
        proof {
            assert(self.submitted_of(i as int) =~= old(self).submitted_of(i as int));
        }
    }
}

/// Every job ever routed to a worker, in send order: its finish log, then
/// the job in hand, then its queue.
spec fn worker_submitted(w: WorkerState) -> Seq<u64> {
    w.done@ + (match w.running {
        Some(j) => seq![j],
        None => Seq::<u64>::empty(),
    }) + w.pending@
}

/// Retires one worker: it finishes the job in hand, then drains its queue in
/// send order, and only then stops. The log returned is everything ever
/// routed to it, finished, in send order.
fn drain_worker(w: WorkerState) -> (log: Vec<u64>)
    ensures
        log@ == worker_submitted(w),
{
    let ghost head = w.done@ + (match w.running {
        Some(j) => seq![j],
        None => Seq::<u64>::empty(),
    });
    let WorkerState { pending, running, mut done } = w;
    if let Some(job) = running {
        done.push(job);
    }
    proof {
        assert(done@ =~= head + pending@.take(0));
    }
    let n = pending.len();
    let mut k: usize = 0;
    while k < n
        invariant
            k <= n,
            n == pending@.len(),
            done@ == head + pending@.take(k as int),
        decreases n - k,
    {
        done.push(pending[k]);
        proof {
            assert(done@ =~= head + pending@.take(k as int + 1));
        }
        k = k + 1;
    }
    proof {
        assert(done@ =~= worker_submitted(w));
    }
    done
}

impl ThreadPool {
    /// Teardown: consumes the pool and returns only once every worker has
    /// finished every job ever routed to it and retired. The log returned
    /// for each worker is exactly its submission history, in send order —
    /// no job is dropped or left half-done. Workers retire in id order.
    pub fn teardown(self) -> (logs: Vec<Vec<u64>>)
        ensures
            logs@.len() == self.size(),
            forall|i: int| 0 <= i < self.size() ==> logs@[i]@ == self.submitted_of(i),
    {
        let ghost orig = self;
        let ThreadPool { mut workers } = self;
        let mut logs: Vec<Vec<u64>> = Vec::new();
        while workers.len() > 0
            invariant
                logs@.len() + workers@.len() == orig.size(),
                forall|k: int|
                    0 <= k < workers@.len() ==> workers@[k] == orig.workers@[logs@.len() + k],
                forall|i: int| 0 <= i < logs@.len() ==> logs@[i]@ == orig.submitted_of(i),
            decreases workers@.len(),
        {
            let w = workers.remove(0);
            proof {
                assert(worker_submitted(w) == orig.submitted_of(logs@.len() as int));
            }
            let log = drain_worker(w);
            logs.push(log);
        }
        logs
    }
}

impl ThreadPool {
    /// How many of the first `n` workers hold a job in hand.
    pub open spec fn busy_count_upto(self, n: int) -> nat
        decreases n,
    {
        if n <= 0 {
            0
        } else {
            self.busy_count_upto(n - 1) + (if self.busy(n - 1) {
                1nat
            } else {
                0nat
            })
        }
    }

    /// How many jobs are executing at this instant: one per busy worker.
    pub open spec fn executing_count(self) -> nat {
        self.busy_count_upto(self.size() as int)
    }
}

proof fn lemma_busy_count_upto_bound(p: ThreadPool, n: int)
    requires
        n >= 0,
    ensures
        p.busy_count_upto(n) <= n,
    decreases n,
{
    if n > 0 {
        lemma_busy_count_upto_bound(p, n - 1);
    }
}

/// At most as many jobs execute at any instant as the pool has workers:
/// each worker holds at most one job in hand, and there are `size` workers.
pub proof fn lemma_bounded_concurrency(p: ThreadPool)
    ensures
        p.executing_count() <= p.size(),
{
    lemma_busy_count_upto_bound(p, p.size() as int);
}

/// A pool with an idle worker admits a submission: read together with the
/// contract of [`ThreadPool::execute`], whose result is `Ok` exactly when
/// some worker is idle, a submission made in this state succeeds. In
/// particular, once [`ThreadPool::finish_job`] lowers a worker's flag, that
/// worker makes the next submission succeed.
pub proof fn lemma_idle_enables_submit(p: ThreadPool, i: int)
    requires
        p.idle(i),
    ensures
        exists|j: int| p.idle(j),
{
}

/// Per-worker FIFO: at every instant, what a worker has finished is exactly
/// the first finished-many jobs of its submission history, in send order,
/// and what is still queued is exactly the tail of that history. A worker
/// never finishes jobs out of the order they were sent to it.
pub proof fn lemma_per_worker_fifo(p: ThreadPool, i: int)
    ensures
        p.done_of(i) == p.submitted_of(i).take(p.done_of(i).len() as int),
        p.pending_of(i) == p.submitted_of(i).skip(
            p.submitted_of(i).len() - p.pending_of(i).len(),
        ),
{
    assert(p.done_of(i) =~= p.submitted_of(i).take(p.done_of(i).len() as int));
    assert(p.pending_of(i) =~= p.submitted_of(i).skip(
        p.submitted_of(i).len() - p.pending_of(i).len(),
    ));
}

impl ThreadPool {
    /// The number of workers.
    pub fn worker_count(&self) -> (n: usize)
        ensures
            n == self.size(),
    {
        self.workers.len()
    }

    /// Whether worker `i`'s busy flag reads busy.
    pub fn is_busy(&self, i: usize) -> (b: bool)
        requires
            i < self.size(),
        ensures
            b == self.busy(i as int),
    {
        self.workers[i].running.is_some()
    }

    /// How many jobs are queued at worker `i`, routed but not yet picked up.
    pub fn pending_count(&self, i: usize) -> (n: usize)
        requires
            i < self.size(),
        ensures
            n == self.pending_of(i as int).len(),
    {
        self.workers[i].pending.len()
    }

    /// How many jobs worker `i` has finished.
    pub fn done_count(&self, i: usize) -> (n: usize)
        requires
            i < self.size(),
        ensures
            n == self.done_of(i as int).len(),
    {
        self.workers[i].done.len()
    }

    /// The `k`th job worker `i` finished, counting from its first.
    pub fn done_at(&self, i: usize, k: usize) -> (job: u64)
        requires
            i < self.size(),
            k < self.done_of(i as int).len(),
        ensures
            job == self.done_of(i as int)[k as int],
    {
        self.workers[i].done[k]
    }

    /// How many jobs are executing at this instant: counts the busy flags.
    pub fn executing_now(&self) -> (n: usize)
        ensures
            n == self.executing_count(),
            n <= self.size(),
    {
        proof {
            lemma_bounded_concurrency(*self);
        }
        let len = self.workers.len();
        let mut n: usize = 0;
        let mut k: usize = 0;
        while k < len
            invariant
                k <= len,
                len == self.size(),
                n == self.busy_count_upto(k as int),
                n <= k,
            decreases len - k,
        {
            if self.workers[k].running.is_some() {
                n = n + 1;
            }
            k = k + 1;
        }
        n
    }
}

/// Picks the worker a job is routed to: the lowest index whose flag reads
/// idle (`false`), or `None` when every flag reads busy.
pub fn select_idle_worker(flags: &Vec<bool>) -> (r: Option<usize>)
    ensures
        match r {
            Some(i) => {
                &&& i < flags@.len()
                &&& !flags@[i as int]
                &&& forall|j: int| 0 <= j < i ==> flags@[j]
            },
            None => forall|j: int| 0 <= j < flags@.len() ==> flags@[j],
        },
{
    let n = flags.len();
    let mut i: usize = 0;
    while i < n
        invariant
            i <= n,
            n == flags@.len(),
            forall|j: int| 0 <= j < i ==> flags@[j],
        decreases n - i,
    {
        if !flags[i] {
            return Some(i);
        }
        i = i + 1;
    }
    None
}

} // verus!
