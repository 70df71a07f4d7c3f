//! Verified model of the fixed-size task-dispatch pool.
//!
//! The pool owns a fixed set of worker slots and the producing side of an
//! unbounded queue of jobs. A job is an opaque callable owned by whichever
//! worker claims it; the model identifies each job by a `u64` token and
//! records which tokens were accepted, which are queued, which are being run,
//! and which have finished. The unverified runtime that owns the real OS
//! threads drives one model transition for every event of the real pool:
//! a submission, a worker claiming a job from the queue, a worker finishing
//! a job, and the two halves of teardown.
//!
//! The contracts pin down the lifecycle the pool guarantees its callers:
//! construction rejects a zero size before anything is created; submission
//! never waits on worker availability and is refused exactly when the
//! producing handle is gone; teardown closes the queue and then drains it,
//! so that on completion every accepted job has run exactly once.
//!
//! A job that faults and brings its worker thread down is not modelled: a
//! worker here never dies mid-run, so the exactly-once guarantee speaks of
//! runs in which every job returns. Submission acceptance is stated to be
//! independent of the worker states either way, which is also what a pool
//! whose workers have all died would do: accept jobs that nobody consumes.

use vstd::multiset::Multiset;
use vstd::prelude::*;
use vstd::seq_lib::group_to_multiset_ensures;

verus! {

broadcast use {group_to_multiset_ensures, vstd::multiset::group_multiset_axioms};

/// The errors the dispatcher reports to its callers.
#[derive(Debug, PartialEq, Eq, Structural)]
pub enum ThError {
    /// Construction was asked for a pool of zero workers.
    InvalidSize,
    /// Submission after the producing handle was released.
    PoolShutdown,
    /// The queue was found disconnected although the producing handle still
    /// exists; an internal-invariant violation, never seen from a
    /// well-formed pool.
    SendFailed,
}

/// The lifecycle of one worker slot. A worker waits for a job, runs the job
/// it claimed, and terminates once it has observed the queue closed and
/// empty; it never leaves `Terminated`.
#[derive(Debug, Clone, Copy, PartialEq, Eq, Structural)]
pub enum WorkerState {
    Idle,
    Running(u64),
    Terminated,
}

/// What a worker observes when it polls the consuming side of the queue.
#[derive(Debug, PartialEq, Eq, Structural)]
pub enum WorkerRecv {
    /// A queued job was handed to this worker alone.
    Job(u64),
    /// The queue is open but momentarily empty; the real worker blocks here.
    Empty,
    /// The queue is closed and drained; the worker terminates.
    Disconnected,
}

/// One worker slot: its index in the pool and its lifecycle state.
pub struct Worker {
    pub id: usize,
    pub state: WorkerState,
}

/// The job tokens held by a single worker state: one for a running worker,
/// none otherwise.
pub open spec fn state_tokens(s: WorkerState) -> Multiset<u64> {
    match s {
        WorkerState::Running(j) => Multiset::empty().insert(j),
        _ => Multiset::empty(),
    }
}

/// The job tokens held by the running workers of `ws`, as a multiset.
pub open spec fn running_tokens(ws: Seq<WorkerState>) -> Multiset<u64>
    decreases ws.len(),
{
    if ws.len() == 0 {
        Multiset::empty()
    } else {
        running_tokens(ws.drop_last()).add(state_tokens(ws.last()))
    }
}

/// A worker set in which nobody runs holds no tokens.
proof fn lemma_running_tokens_none(ws: Seq<WorkerState>)
    requires
        forall|i: int| 0 <= i < ws.len() ==> !((#[trigger] ws[i]) is Running),
    ensures
        running_tokens(ws) == Multiset::<u64>::empty(),
    decreases ws.len(),
{
    if ws.len() > 0 {
        assert(forall|i: int|
            0 <= i < ws.drop_last().len() ==> !((#[trigger] ws.drop_last()[i]) is Running));
        lemma_running_tokens_none(ws.drop_last());
        assert(!(ws.last() is Running));
        assert(running_tokens(ws) =~= Multiset::<u64>::empty());
    } else {
        assert(running_tokens(ws) =~= Multiset::<u64>::empty());
    }
}

/// Changing the state of one worker exchanges exactly that worker's tokens.
proof fn lemma_running_tokens_update(ws: Seq<WorkerState>, i: int, s: WorkerState)
    requires
        0 <= i < ws.len(),
    ensures
        running_tokens(ws.update(i, s)).add(state_tokens(ws[i])) == running_tokens(ws).add(
            state_tokens(s),
        ),
    decreases ws.len(),
{
    let ws2 = ws.update(i, s);
    assert(ws2.len() == ws.len());
    if i == ws.len() - 1 {
        assert(ws2.drop_last() =~= ws.drop_last());
        assert(ws2.last() == s);
        assert(running_tokens(ws2) == running_tokens(ws2.drop_last()).add(
            state_tokens(ws2.last()),
        ));
        assert(running_tokens(ws) == running_tokens(ws.drop_last()).add(state_tokens(ws.last())));
        assert(running_tokens(ws2).add(state_tokens(ws[i])) =~= running_tokens(ws).add(
            state_tokens(s),
        ));
    } else {
        lemma_running_tokens_update(ws.drop_last(), i, s);
        assert(ws.drop_last()[i] == ws[i]);
        assert(ws2.drop_last() =~= ws.drop_last().update(i, s));
        assert(ws2.last() == ws.last());
        assert(running_tokens(ws2) == running_tokens(ws2.drop_last()).add(
            state_tokens(ws2.last()),
        ));
        assert(running_tokens(ws) == running_tokens(ws.drop_last()).add(state_tokens(ws.last())));
        assert forall|v: u64|
            running_tokens(ws2).add(state_tokens(ws[i])).count(v) == running_tokens(ws).add(
                state_tokens(s),
            ).count(v) by {
            assert(running_tokens(ws.drop_last().update(i, s)).add(
                state_tokens(ws.drop_last()[i]),
            ).count(v) == running_tokens(ws.drop_last()).add(state_tokens(s)).count(v));
        }
        assert(running_tokens(ws2).add(state_tokens(ws[i])) =~= running_tokens(ws).add(
            state_tokens(s),
        ));
    }
}

/// The dispatcher: a fixed set of workers consuming one shared queue.
pub struct ThreadPool {
    workers: Vec<Worker>,
    /// Whether the producing handle of the queue still exists; releasing it
    /// is the sole shutdown trigger.
    sender_alive: bool,
    /// Whether the queue still accepts pushes. Closing is one-way.
    queue_open: bool,
    /// The queued job tokens, oldest first.
    pending: Vec<u64>,
    /// Every token the pool has accepted, in acceptance order.
    submitted: Ghost<Seq<u64>>,
    /// Every token whose run has completed, in completion order.
    executed: Ghost<Seq<u64>>,
    /// Executable mirror of `executed`'s length.
    completed: u64,
}

impl ThreadPool {
    /// The number of worker slots, fixed at construction.
    pub closed spec fn size(&self) -> nat {
        self.workers@.len()
    }

    /// The lifecycle states of the workers, by worker id.
    pub closed spec fn worker_states(&self) -> Seq<WorkerState> {
        self.workers@.map_values(|w: Worker| w.state)
    }

    /// Whether the producing handle still exists (the pool is `Active`).
    pub closed spec fn is_active(&self) -> bool {
        self.sender_alive
    }

    /// Whether the queue still accepts pushes.
    pub closed spec fn queue_is_open(&self) -> bool {
        self.queue_open
    }

    /// The queued job tokens, oldest first.
    pub closed spec fn pending_jobs(&self) -> Seq<u64> {
        self.pending@
    }

    /// Every token accepted by `execute`, in acceptance order.
    pub closed spec fn submitted_jobs(&self) -> Seq<u64> {
        self.submitted@
    }

    /// Every token whose run has completed, in completion order.
    pub closed spec fn executed_jobs(&self) -> Seq<u64> {
        self.executed@
    }

    /// Whether every worker has terminated.
    pub open spec fn is_terminated(&self) -> bool {
        forall|i: int|
            0 <= i < self.size() ==> (#[trigger] self.worker_states()[i]) is Terminated
    }

    /// Whether a submission would be accepted: the producing handle exists
    /// and the queue is open. Worker availability and queue length play no
    /// part, which is why submitting never waits.
    pub open spec fn accepts_submissions(&self) -> bool {
        self.is_active() && self.queue_is_open()
    }

    /// Well-formedness: the invariant every transition preserves.
    ///
    /// The central clause is conservation: the accepted tokens are exactly
    /// the queued ones, the ones being run, and the finished ones. Each job
    /// is in one place at a time — no duplication, no loss.
    pub closed spec fn wf(&self) -> bool {
        &&& self.workers@.len() >= 1
        &&& forall|i: int| 0 <= i < self.workers@.len() ==> (#[trigger] self.workers@[i]).id == i
        &&& (self.sender_alive ==> self.queue_open)
        &&& forall|i: int|
            0 <= i < self.workers@.len() ==> ((#[trigger] self.workers@[i]).state is Terminated
                ==> !self.queue_open)
        &&& (self.is_terminated() ==> self.pending@.len() == 0)
        &&& self.completed == self.executed@.len()
        &&& self.submitted@.to_multiset() == self.pending@.to_multiset().add(
            running_tokens(self.worker_states()),
        ).add(self.executed@.to_multiset())
    }

    /// One accepted submission: the job is appended to the queue and to the
    /// record of accepted jobs; nothing else moves.
    pub open spec fn submit_step(pre: ThreadPool, job: u64, post: ThreadPool) -> bool {
        &&& pre.accepts_submissions()
        &&& post.pending_jobs() == pre.pending_jobs().push(job)
        &&& post.submitted_jobs() == pre.submitted_jobs().push(job)
        &&& post.worker_states() == pre.worker_states()
        &&& post.size() == pre.size()
        &&& post.executed_jobs() == pre.executed_jobs()
        &&& post.is_active() == pre.is_active()
        &&& post.queue_is_open() == pre.queue_is_open()
    }

    /// Creates a pool of `size` workers bound to a fresh open queue.
    ///
    /// A zero size is rejected before any worker exists; otherwise every
    /// worker starts idle and the pool is active with nothing queued.
    pub fn new(size: usize) -> (r: Result<ThreadPool, ThError>)
        ensures
            size == 0 ==> r == Err::<ThreadPool, ThError>(ThError::InvalidSize),
            size >= 1 ==> {
                &&& r is Ok
                &&& r->Ok_0.wf()
                &&& r->Ok_0.size() == size
                &&& r->Ok_0.is_active()
                &&& r->Ok_0.queue_is_open()
                &&& r->Ok_0.pending_jobs() == Seq::<u64>::empty()
                &&& r->Ok_0.submitted_jobs() == Seq::<u64>::empty()
                &&& r->Ok_0.executed_jobs() == Seq::<u64>::empty()
                &&& forall|i: int|
                    0 <= i < size ==> (#[trigger] r->Ok_0.worker_states()[i]) is Idle
            },
    {
        if size < 1 {
            return Err(ThError::InvalidSize);
        }
        let mut workers: Vec<Worker> = Vec::with_capacity(size);
        for id in 0..size
            invariant
                workers@.len() == id,
                forall|i: int|
                    0 <= i < id ==> (#[trigger] workers@[i]).id == i && workers@[i].state
                        is Idle,
        {
            workers.push(Worker { id, state: WorkerState::Idle });
        }
        let pool = ThreadPool {
            workers,
            sender_alive: true,
            queue_open: true,
            pending: Vec::new(),
            submitted: Ghost(Seq::empty()),
            executed: Ghost(Seq::empty()),
            completed: 0,
        };
        proof {
            lemma_running_tokens_none(pool.worker_states());
            assert forall|v: u64|
                pool.submitted@.to_multiset().count(v) == pool.pending@.to_multiset().add(
                    running_tokens(pool.worker_states()),
                ).add(pool.executed@.to_multiset()).count(v) by {
                assert(pool.submitted@.to_multiset().len() == 0);
                assert(pool.pending@.to_multiset().len() == 0);
                assert(pool.executed@.to_multiset().len() == 0);
                assert(pool.submitted@.to_multiset().count(v) <= 0);
                assert(pool.pending@.to_multiset().count(v) <= 0);
                assert(pool.executed@.to_multiset().count(v) <= 0);
                assert(Multiset::<u64>::empty().count(v) == 0);
            }
            assert(pool.submitted@.to_multiset() =~= pool.pending@.to_multiset().add(
                running_tokens(pool.worker_states()),
            ).add(pool.executed@.to_multiset()));
            assert(!pool.is_terminated());
        }
        Ok(pool)
    }

    /// Submits a job for execution by whichever worker next becomes free.
    ///
    /// The outcome depends on the pool's lifecycle alone: an active pool
    /// accepts, a released pool answers `PoolShutdown`, and a disconnected
    /// queue under a live handle — impossible while well-formed — would
    /// answer `SendFailed`. Submission never waits on worker availability,
    /// so a running job may submit into its own pool.
    pub fn execute(&mut self, job: u64) -> (r: Result<(), ThError>)
        ensures
            r is Ok <==> old(self).accepts_submissions(),
            old(self).accepts_submissions() ==> Self::submit_step(*old(self), job, *final(self)),
            !old(self).is_active() ==> r == Err::<(), ThError>(ThError::PoolShutdown)
                && *final(self) == *old(self),
            old(self).is_active() && !old(self).queue_is_open() ==> r == Err::<(), ThError>(
                ThError::SendFailed,
            ) && *final(self) == *old(self),
            old(self).wf() ==> final(self).wf(),
            old(self).wf() && old(self).is_active() ==> r is Ok,
    {
        if !self.sender_alive {
            return Err(ThError::PoolShutdown);
        }
        if !self.queue_open {
            return Err(ThError::SendFailed);
        }
        self.pending.push(job);
        proof {
            self.submitted@ = self.submitted@.push(job);
        }
        proof {
            if old(self).wf() {
                assert forall|v: u64|
                    self.submitted@.to_multiset().count(v) == self.pending@.to_multiset().add(
                        running_tokens(self.worker_states()),
                    ).add(self.executed@.to_multiset()).count(v) by {
                    assert(old(self).submitted@.to_multiset().count(v) == old(
                        self,
                    ).pending@.to_multiset().add(running_tokens(old(self).worker_states())).add(
                        old(self).executed@.to_multiset(),
                    ).count(v));
                    assert(old(self).submitted@.push(job).to_multiset() == old(
                        self,
                    ).submitted@.to_multiset().insert(job));
                    assert(old(self).pending@.push(job).to_multiset() == old(
                        self,
                    ).pending@.to_multiset().insert(job));
                }
                assert(self.submitted@.to_multiset() =~= self.pending@.to_multiset().add(
                    running_tokens(self.worker_states()),
                ).add(self.executed@.to_multiset()));
                assert(!self.is_terminated()) by {
                    assert(!(self.workers@[0].state is Terminated));
                    assert(self.worker_states()[0] == self.workers@[0].state);
                }
            }
        }
        Ok(())
    }

    /// One poll of the queue by idle worker `wid`: claim the oldest queued
    /// job, find the open queue momentarily empty, or observe the queue
    /// closed and drained and terminate.
    pub fn worker_recv(&mut self, wid: usize) -> (r: WorkerRecv)
        requires
            old(self).wf(),
            wid < old(self).size(),
            old(self).worker_states()[wid as int] is Idle,
        ensures
            final(self).wf(),
            final(self).size() == old(self).size(),
            final(self).is_active() == old(self).is_active(),
            final(self).queue_is_open() == old(self).queue_is_open(),
            final(self).submitted_jobs() == old(self).submitted_jobs(),
            final(self).executed_jobs() == old(self).executed_jobs(),
            old(self).pending_jobs().len() > 0 ==> {
                &&& r == WorkerRecv::Job(old(self).pending_jobs()[0])
                &&& final(self).pending_jobs() == old(self).pending_jobs().drop_first()
                &&& final(self).worker_states() == old(self).worker_states().update(
                    wid as int,
                    WorkerState::Running(old(self).pending_jobs()[0]),
                )
            },
            old(self).pending_jobs().len() == 0 && old(self).queue_is_open() ==> r
                == WorkerRecv::Empty && *final(self) == *old(self),
            old(self).pending_jobs().len() == 0 && !old(self).queue_is_open() ==> {
                &&& r == WorkerRecv::Disconnected
                &&& final(self).pending_jobs() == old(self).pending_jobs()
                &&& final(self).worker_states() == old(self).worker_states().update(
                    wid as int,
                    WorkerState::Terminated,
                )
            },
    {
        proof {
            assert(self.workers@[wid as int].state == self.worker_states()[wid as int]);
        }
        if self.pending.len() > 0 {
            let job = self.pending.remove(0);
            self.workers[wid] = Worker { id: wid, state: WorkerState::Running(job) };
            proof {
                self.lemma_after_worker_update(*old(self), wid as int);
                assert(!self.is_terminated()) by {
                    assert(self.worker_states()[wid as int] is Running);
                }
                assert(old(self).pending@.to_multiset().count(job) > 0) by {
                    assert(old(self).pending@.contains(job));
                }
                assert(old(self).pending@.remove(0).to_multiset() == old(
                    self,
                ).pending@.to_multiset().remove(job));
                assert forall|v: u64|
                    self.submitted@.to_multiset().count(v) == self.pending@.to_multiset().add(
                        running_tokens(self.worker_states()),
                    ).add(self.executed@.to_multiset()).count(v) by {
                    assert(old(self).submitted@.to_multiset().count(v) == old(
                        self,
                    ).pending@.to_multiset().add(running_tokens(old(self).worker_states())).add(
                        old(self).executed@.to_multiset(),
                    ).count(v));
                    assert(running_tokens(self.worker_states()).add(
                        state_tokens(old(self).worker_states()[wid as int]),
                    ).count(v) == running_tokens(old(self).worker_states()).add(
                        state_tokens(WorkerState::Running(job)),
                    ).count(v));
                    assert(old(self).pending@.to_multiset().remove(job).count(v) == old(
                        self,
                    ).pending@.to_multiset().sub(Multiset::singleton(job)).count(v));
                }
                assert(self.submitted@.to_multiset() =~= self.pending@.to_multiset().add(
                    running_tokens(self.worker_states()),
                ).add(self.executed@.to_multiset()));
            }
            WorkerRecv::Job(job)
        } else if self.queue_open {
            WorkerRecv::Empty
        } else {
            self.workers[wid] = Worker { id: wid, state: WorkerState::Terminated };
            proof {
                self.lemma_after_worker_update(*old(self), wid as int);
                assert forall|v: u64|
                    self.submitted@.to_multiset().count(v) == self.pending@.to_multiset().add(
                        running_tokens(self.worker_states()),
                    ).add(self.executed@.to_multiset()).count(v) by {
                    assert(old(self).submitted@.to_multiset().count(v) == old(
                        self,
                    ).pending@.to_multiset().add(running_tokens(old(self).worker_states())).add(
                        old(self).executed@.to_multiset(),
                    ).count(v));
                    assert(running_tokens(self.worker_states()).add(
                        state_tokens(old(self).worker_states()[wid as int]),
                    ).count(v) == running_tokens(old(self).worker_states()).add(
                        state_tokens(WorkerState::Terminated),
                    ).count(v));
                }
                assert(self.submitted@.to_multiset() =~= self.pending@.to_multiset().add(
                    running_tokens(self.worker_states()),
                ).add(self.executed@.to_multiset()));
            }
            WorkerRecv::Disconnected
        }
    }

    /// Records that worker `wid` finished the job it was running and went
    /// back to waiting on the queue.
    pub fn worker_finish(&mut self, wid: usize)
        requires
            old(self).wf(),
            wid < old(self).size(),
            old(self).worker_states()[wid as int] is Running,
            old(self).executed_jobs().len() < u64::MAX,
        ensures
            final(self).wf(),
            final(self).size() == old(self).size(),
            final(self).is_active() == old(self).is_active(),
            final(self).queue_is_open() == old(self).queue_is_open(),
            final(self).pending_jobs() == old(self).pending_jobs(),
            final(self).submitted_jobs() == old(self).submitted_jobs(),
            final(self).worker_states() == old(self).worker_states().update(
                wid as int,
                WorkerState::Idle,
            ),
            final(self).executed_jobs() == old(self).executed_jobs().push(
                old(self).worker_states()[wid as int]->Running_0,
            ),
    {
        proof {
            assert(self.workers@[wid as int].state == self.worker_states()[wid as int]);
        }
        let st = self.workers[wid].state;
        if let WorkerState::Running(job) = st {
            self.workers[wid] = Worker { id: wid, state: WorkerState::Idle };
            proof {
                self.executed@ = self.executed@.push(job);
            }
            self.completed = self.completed + 1;
            proof {
                self.lemma_after_worker_update(*old(self), wid as int);
                assert(!self.is_terminated()) by {
                    assert(self.worker_states()[wid as int] is Idle);
                }
                assert(old(self).executed@.push(job).to_multiset() == old(
                    self,
                ).executed@.to_multiset().insert(job));
                assert forall|v: u64|
                    self.submitted@.to_multiset().count(v) == self.pending@.to_multiset().add(
                        running_tokens(self.worker_states()),
                    ).add(self.executed@.to_multiset()).count(v) by {
                    assert(old(self).submitted@.to_multiset().count(v) == old(
                        self,
                    ).pending@.to_multiset().add(running_tokens(old(self).worker_states())).add(
                        old(self).executed@.to_multiset(),
                    ).count(v));
                    assert(running_tokens(self.worker_states()).add(
                        state_tokens(old(self).worker_states()[wid as int]),
                    ).count(v) == running_tokens(old(self).worker_states()).add(
                        state_tokens(WorkerState::Idle),
                    ).count(v));
                }
                assert(self.submitted@.to_multiset() =~= self.pending@.to_multiset().add(
                    running_tokens(self.worker_states()),
                ).add(self.executed@.to_multiset()));
            }
        } else {
            proof {
                assert(false);
            }
        }
    }

    /// Relates the worker-state sequence and its token multiset before and
    /// after replacing the entry at `wid`.
    proof fn lemma_after_worker_update(&self, pre: ThreadPool, wid: int)
        requires
            0 <= wid < pre.workers@.len(),
            self.workers@ == pre.workers@.update(wid, self.workers@[wid]),
        ensures
            self.worker_states() == pre.worker_states().update(wid, self.workers@[wid].state),
            running_tokens(self.worker_states()).add(
                state_tokens(pre.worker_states()[wid]),
            ) == running_tokens(pre.worker_states()).add(
                state_tokens(self.workers@[wid].state),
            ),
    {
        assert(self.worker_states() =~= pre.worker_states().update(
            wid,
            self.workers@[wid].state,
        ));
        lemma_running_tokens_update(pre.worker_states(), wid, self.workers@[wid].state);
    }

    /// Releases the producing handle, closing the queue. No further job will
    /// be accepted; the workers drain what is already queued.
    pub fn begin_shutdown(&mut self)
        ensures
            !final(self).is_active(),
            !final(self).queue_is_open(),
            final(self).size() == old(self).size(),
            final(self).worker_states() == old(self).worker_states(),
            final(self).pending_jobs() == old(self).pending_jobs(),
            final(self).submitted_jobs() == old(self).submitted_jobs(),
            final(self).executed_jobs() == old(self).executed_jobs(),
            old(self).wf() ==> final(self).wf(),
    {
        self.sender_alive = false;
        self.queue_open = false;
        proof {
            if old(self).wf() {
                assert(self.worker_states() =~= old(self).worker_states());
                assert(self.submitted@.to_multiset() == self.pending@.to_multiset().add(
                    running_tokens(self.worker_states()),
                ).add(self.executed@.to_multiset()));
            }
        }
    }

    /// Blocks (in the real pool) until every worker has drained the queue,
    /// observed closure and terminated. On return every job that was queued
    /// or running has finished.
    pub fn join_workers(&mut self)
        requires
            old(self).wf(),
            !old(self).is_active(),
            !old(self).queue_is_open(),
            old(self).submitted_jobs().len() <= u64::MAX,
        ensures
            final(self).wf(),
            final(self).is_terminated(),
            !final(self).is_active(),
            !final(self).queue_is_open(),
            final(self).size() == old(self).size(),
            final(self).pending_jobs().len() == 0,
            final(self).submitted_jobs() == old(self).submitted_jobs(),
            old(self).executed_jobs().is_prefix_of(final(self).executed_jobs()),
            final(self).executed_jobs().to_multiset() == old(self).submitted_jobs().to_multiset(),
            final(self).executed_jobs().len() == old(self).submitted_jobs().len(),
    {
        let n = self.workers.len();
        for wid in 0..n
            invariant
                self.wf(),
                !self.is_active(),
                !self.queue_is_open(),
                n == self.size(),
                self.submitted_jobs() == old(self).submitted_jobs(),
                old(self).submitted_jobs().len() <= u64::MAX,
                old(self).executed_jobs().is_prefix_of(self.executed_jobs()),
                forall|k: int| 0 <= k < wid ==> (#[trigger] self.worker_states()[k]) is Terminated,
        {
            loop
                invariant
                    self.wf(),
                    !self.is_active(),
                    !self.queue_is_open(),
                    wid < n,
                    n == self.size(),
                    self.submitted_jobs() == old(self).submitted_jobs(),
                    old(self).submitted_jobs().len() <= u64::MAX,
                    old(self).executed_jobs().is_prefix_of(self.executed_jobs()),
                    forall|k: int|
                        0 <= k < wid ==> (#[trigger] self.worker_states()[k]) is Terminated,
                ensures
                    self.worker_states()[wid as int] is Terminated,
                decreases 2 * self.pending_jobs().len() + (if self.worker_states()[wid as int]
                    is Running {
                    1int
                } else {
                    0int
                }) + (if self.worker_states()[wid as int] is Terminated {
                    0int
                } else {
                    1int
                }),
            {
                proof {
                    assert(self.workers@[wid as int].state == self.worker_states()[wid as int]);
                }
                let ghost prev = *self;
                let st = self.workers[wid].state;
                match st {
                    WorkerState::Terminated => {
                        break ;
                    },
                    WorkerState::Running(_job) => {
                        proof {
                            self.lemma_executed_below_submitted();
                        }
                        self.worker_finish(wid);
                        proof {
                            self.lemma_prefix_extends(
                                old(self).executed_jobs(),
                                prev.executed_jobs(),
                            );
                        }
                    },
                    WorkerState::Idle => {
                        match self.worker_recv(wid) {
                            WorkerRecv::Job(_job) => {},
                            WorkerRecv::Empty => {
                                proof {
                                    assert(false);
                                }
                            },
                            WorkerRecv::Disconnected => {
                                break ;
                            },
                        }
                    },
                }
            }
        }
        proof {
            assert(self.is_terminated());
            self.lemma_terminated_accounts();
        }
    }

    /// While a worker is running a job, strictly fewer jobs have finished
    /// than were accepted.
    proof fn lemma_executed_below_submitted(&self)
        requires
            self.wf(),
            exists|i: int|
                0 <= i < self.size() && (#[trigger] self.worker_states()[i]) is Running,
        ensures
            self.executed_jobs().len() < self.submitted_jobs().len(),
    {
        let i = choose|i: int|
            0 <= i < self.size() && (#[trigger] self.worker_states()[i]) is Running;
        let j = self.worker_states()[i]->Running_0;
        self.lemma_running_worker_token(self.worker_states(), i);
        let p = self.pending@.to_multiset();
        let r = running_tokens(self.worker_states());
        let e = self.executed@.to_multiset();
        assert(self.submitted@.to_multiset().len() == p.add(r).add(e).len());
        assert(p.add(r).add(e).len() == p.add(r).len() + e.len());
        assert(p.add(r).len() == p.len() + r.len());
        assert(r.count(j) <= r.len());
        assert(self.submitted@.to_multiset().len() == self.submitted@.len());
        assert(self.executed@.to_multiset().len() == self.executed@.len());
    }

    /// A running worker's token is among the running tokens.
    proof fn lemma_running_worker_token(&self, ws: Seq<WorkerState>, i: int)
        requires
            0 <= i < ws.len(),
            ws[i] is Running,
        ensures
            running_tokens(ws).count(ws[i]->Running_0) > 0,
        decreases ws.len(),
    {
        if i == ws.len() - 1 {
        } else {
            self.lemma_running_worker_token(ws.drop_last(), i);
        }
    }

    /// Extending a sequence keeps every earlier prefix a prefix.
    proof fn lemma_prefix_extends(&self, base: Seq<u64>, mid: Seq<u64>)
        requires
            base.is_prefix_of(mid),
            mid.is_prefix_of(self.executed_jobs()),
        ensures
            base.is_prefix_of(self.executed_jobs()),
    {
    }

    /// Tears the pool down: releases the producing handle, then waits for
    /// every worker to drain the queue and terminate. When it returns, every
    /// accepted job has run exactly once — teardown discards nothing.
    pub fn shutdown(&mut self)
        requires
            old(self).wf(),
            old(self).submitted_jobs().len() <= u64::MAX,
        ensures
            final(self).wf(),
            final(self).is_terminated(),
            !final(self).is_active(),
            final(self).size() == old(self).size(),
            final(self).submitted_jobs() == old(self).submitted_jobs(),
            old(self).executed_jobs().is_prefix_of(final(self).executed_jobs()),
            final(self).executed_jobs().to_multiset() == old(self).submitted_jobs().to_multiset(),
            final(self).executed_jobs().len() == old(self).submitted_jobs().len(),
    {
        self.begin_shutdown();
        self.join_workers();
    }

    /// The number of worker slots.
    pub fn worker_count(&self) -> (n: usize)
        ensures
            n == self.size(),
    {
        self.workers.len()
    }

    /// The number of jobs waiting in the queue.
    pub fn queued_count(&self) -> (n: usize)
        ensures
            n == self.pending_jobs().len(),
    {
        self.pending.len()
    }

    /// The number of jobs that have finished running.
    pub fn completed_count(&self) -> (n: u64)
        requires
            self.wf(),
        ensures
            n == self.executed_jobs().len(),
    {
        self.completed
    }

    /// The lifecycle state of worker `wid`.
    pub fn worker_state(&self, wid: usize) -> (s: WorkerState)
        requires
            wid < self.size(),
        ensures
            s == self.worker_states()[wid as int],
    {
        proof {
            assert(self.workers@[wid as int].state == self.worker_states()[wid as int]);
        }
        self.workers[wid].state
    }
}

/// Exactly-once delivery: once every worker of a well-formed pool has
/// terminated, the finished jobs are exactly the accepted ones — the same
/// tokens, with the same multiplicities, and in particular the same count.
pub proof fn lemma_exactly_once(p: ThreadPool)
    requires
        p.wf(),
        p.is_terminated(),
    ensures
        p.executed_jobs().to_multiset() == p.submitted_jobs().to_multiset(),
        p.executed_jobs().len() == p.submitted_jobs().len(),
{
    p.lemma_terminated_accounts();
}

impl ThreadPool {
    /// Conservation specialised to a fully terminated pool.
    proof fn lemma_terminated_accounts(&self)
        requires
            self.wf(),
            self.is_terminated(),
        ensures
            self.executed_jobs().to_multiset() == self.submitted_jobs().to_multiset(),
            self.executed_jobs().len() == self.submitted_jobs().len(),
    {
        lemma_running_tokens_none(self.worker_states());
        assert(self.pending_jobs().len() == 0);
        assert forall|v: u64|
            self.submitted@.to_multiset().count(v) == self.executed@.to_multiset().count(v) by {
            assert(self.submitted@.to_multiset().count(v) == self.pending@.to_multiset().add(
                running_tokens(self.worker_states()),
            ).add(self.executed@.to_multiset()).count(v));
            assert(self.pending@.to_multiset().len() == self.pending@.len());
            assert(self.pending@.to_multiset().count(v) <= self.pending@.to_multiset().len());
            assert(Multiset::<u64>::empty().count(v) == 0);
        }
        assert(self.submitted_jobs().to_multiset() =~= self.executed_jobs().to_multiset());
        assert(self.submitted@.to_multiset().len() == self.executed@.to_multiset().len());
        assert(self.submitted@.to_multiset().len() == self.submitted@.len());
        assert(self.executed@.to_multiset().len() == self.executed@.len());
    }
}

/// Submission never waits: a well-formed active pool accepts a job whatever
/// its workers are doing and however long the queue already is. Together
/// with `execute`'s contract this is what makes submission from inside a
/// running job safe — a worker never blocks on its own pool.
pub proof fn lemma_active_pool_accepts(p: ThreadPool)
    requires
        p.wf(),
        p.is_active(),
    ensures
        p.accepts_submissions(),
{
}

/// Two producers may interleave their submissions in either order: both
/// orders accept both jobs and leave the same queued and accepted tokens,
/// with two more accepted jobs than before — nothing duplicated, nothing
/// lost.
pub proof fn lemma_interleaved_submissions_agree(
    p: ThreadPool,
    a: u64,
    b: u64,
    p_a: ThreadPool,
    p_ab: ThreadPool,
    p_b: ThreadPool,
    p_ba: ThreadPool,
)
    requires
        ThreadPool::submit_step(p, a, p_a),
        ThreadPool::submit_step(p_a, b, p_ab),
        ThreadPool::submit_step(p, b, p_b),
        ThreadPool::submit_step(p_b, a, p_ba),
    ensures
        p_ab.pending_jobs().to_multiset() == p_ba.pending_jobs().to_multiset(),
        p_ab.submitted_jobs().to_multiset() == p_ba.submitted_jobs().to_multiset(),
        p_ab.submitted_jobs().len() == p.submitted_jobs().len() + 2,
        p_ba.submitted_jobs().len() == p.submitted_jobs().len() + 2,
{
    broadcast use group_to_multiset_ensures;

    assert(p_ab.pending_jobs().to_multiset() =~= p_ba.pending_jobs().to_multiset());
    assert(p_ab.submitted_jobs().to_multiset() =~= p_ba.submitted_jobs().to_multiset());
}

} // verus!
