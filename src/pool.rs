//! The worker pool's shared queue, and a model of the pool that shows it drains.
use vstd::prelude::*;
use std::collections::VecDeque;

verus! {

/// A unit of work for the pool, or the signal that ends one worker.
pub enum Message<T> {
    NewJob(T),
    Terminate,
}

/// The queue that the workers take from, first in first out.
pub struct WorkQueue<T> {
    messages: VecDeque<Message<T>>,
}

impl<T> View for WorkQueue<T> {
    type V = Seq<Message<T>>;

    closed spec fn view(&self) -> Seq<Message<T>> {
        self.messages@
    }
}

/// `n` termination signals.
pub open spec fn terminations<T>(n: nat) -> Seq<Message<T>> {
    Seq::new(n, |i: int| Message::<T>::Terminate)
}

impl<T> WorkQueue<T> {
    pub fn new() -> (r: WorkQueue<T>)
        ensures
            r@ == Seq::<Message<T>>::empty(),
    {
        WorkQueue { messages: VecDeque::new() }
    }

    pub fn len(&self) -> (r: usize)
        ensures
            r == self@.len(),
    {
        self.messages.len()
    }

    /// Queues a job behind everything already queued.
    pub fn submit(&mut self, job: T)
        ensures
            final(self)@ == old(self)@.push(Message::NewJob(job)),
    {
        self.messages.push_back(Message::NewJob(job));
    }

    /// Queues one termination signal per worker, behind every queued job.
    pub fn shutdown(&mut self, workers: usize)
        ensures
            final(self)@ == old(self)@ + terminations::<T>(workers as nat),
    {
        let mut i: usize = 0;
        while i < workers
            invariant
                i <= workers,
                self@ == old(self)@ + terminations::<T>(i as nat),
            decreases workers - i,
        {
            self.messages.push_back(Message::Terminate);
            proof {
                assert(old(self)@ + terminations::<T>((i + 1) as nat) =~= (old(self)@
                    + terminations::<T>(i as nat)).push(Message::Terminate));
            }
            i += 1;
        }
    }

    /// The oldest message, taken off the queue; none when it is empty.
    pub fn next(&mut self) -> (r: Option<Message<T>>)
        ensures
            old(self)@.len() == 0 ==> r is None && final(self)@ == old(self)@,
            old(self)@.len() > 0 ==> r == Some(old(self)@[0]) && final(self)@ == old(self)@.drop_first(),
    {
        self.messages.pop_front()
    }
}

/// What a worker of the model is doing.
pub enum WorkerState<T> {
    Waiting,
    Running(T),
    Stopped,
}

/// The pool as a whole: its queue, its workers, the jobs in the order they
/// were taken from the queue, and the jobs finished so far.
pub struct PoolModel<T> {
    pub queue: Seq<Message<T>>,
    pub workers: Seq<WorkerState<T>>,
    pub started: Seq<T>,
    pub finished: Seq<T>,
}

/// The pool after `jobs` were submitted to `n` fresh workers and shutdown was requested.
pub open spec fn submitted<T>(jobs: Seq<T>, n: nat) -> PoolModel<T> {
    PoolModel {
        queue: jobs.map_values(|j: T| Message::NewJob(j)) + terminations::<T>(n),
        workers: Seq::new(n, |i: int| WorkerState::<T>::Waiting),
        started: Seq::empty(),
        finished: Seq::empty(),
    }
}

/// Worker `w` acts once: a waiting worker takes the oldest message (a job to
/// run, or the signal to stop); a running worker finishes its job; a stopped
/// worker does nothing.
pub open spec fn step<T>(s: PoolModel<T>, w: int) -> PoolModel<T> {
    match s.workers[w] {
        WorkerState::Waiting => if s.queue.len() == 0 {
            s
        } else {
            match s.queue[0] {
                Message::NewJob(j) => PoolModel {
                    queue: s.queue.drop_first(),
                    workers: s.workers.update(w, WorkerState::Running(j)),
                    started: s.started.push(j),
                    finished: s.finished,
                },
                Message::Terminate => PoolModel {
                    queue: s.queue.drop_first(),
                    workers: s.workers.update(w, WorkerState::Stopped),
                    started: s.started,
                    finished: s.finished,
                },
            }
        },
        WorkerState::Running(j) => PoolModel {
            queue: s.queue,
            workers: s.workers.update(w, WorkerState::Waiting),
            started: s.started,
            finished: s.finished.push(j),
        },
        WorkerState::Stopped => s,
    }
}

/// The pool after its workers act in the order `schedule` names them.
pub open spec fn run<T>(s: PoolModel<T>, schedule: Seq<int>) -> PoolModel<T>
    decreases schedule.len(),
{
    if schedule.len() == 0 {
        s
    } else {
        run(step(s, schedule[0]), schedule.drop_first())
    }
}

pub open spec fn stopped_count<T>(ws: Seq<WorkerState<T>>) -> nat
    decreases ws.len(),
{
    if ws.len() == 0 {
        0
    } else {
        stopped_count(ws.drop_last()) + if ws.last() is Stopped {
            1nat
        } else {
            0nat
        }
    }
}

pub open spec fn running_count<T>(ws: Seq<WorkerState<T>>) -> nat
    decreases ws.len(),
{
    if ws.len() == 0 {
        0
    } else {
        running_count(ws.drop_last()) + if ws.last() is Running {
            1nat
        } else {
            0nat
        }
    }
}

proof fn lemma_counts_update<T>(ws: Seq<WorkerState<T>>, w: int, v: WorkerState<T>)
    requires
        0 <= w < ws.len(),
    ensures
        stopped_count(ws.update(w, v)) + (if ws[w] is Stopped { 1int } else { 0int })
            == stopped_count(ws) + (if v is Stopped { 1int } else { 0int }),
        running_count(ws.update(w, v)) + (if ws[w] is Running { 1int } else { 0int })
            == running_count(ws) + (if v is Running { 1int } else { 0int }),
    decreases ws.len(),
{
    let u = ws.update(w, v);
    if w == ws.len() - 1 {
        assert(u.drop_last() =~= ws.drop_last());
    } else {
        assert(u.drop_last() =~= ws.drop_last().update(w, v));
        lemma_counts_update(ws.drop_last(), w, v);
    }
}

proof fn lemma_counts_bound<T>(ws: Seq<WorkerState<T>>)
    ensures
        stopped_count(ws) + running_count(ws) <= ws.len(),
        stopped_count(ws) == ws.len() ==> forall|i: int| 0 <= i < ws.len() ==> #[trigger] ws[i] is Stopped,
    decreases ws.len(),
{
    if ws.len() > 0 {
        lemma_counts_bound(ws.drop_last());
        if stopped_count(ws) == ws.len() {
            assert forall|i: int| 0 <= i < ws.len() implies #[trigger] ws[i] is Stopped by {
                if i < ws.len() - 1 {
                    assert(ws.drop_last()[i] == ws[i]);
                }
            }
        }
    }
}

proof fn lemma_all_waiting<T>(n: nat)
    ensures
        stopped_count(Seq::new(n, |i: int| WorkerState::<T>::Waiting)) == 0,
        running_count(Seq::new(n, |i: int| WorkerState::<T>::Waiting)) == 0,
    decreases n,
{
    if n > 0 {
        lemma_all_waiting::<T>((n - 1) as nat);
        assert(Seq::new(n, |i: int| WorkerState::<T>::Waiting).drop_last() =~= Seq::new(
            (n - 1) as nat,
            |i: int| WorkerState::<T>::Waiting,
        ));
    }
}

/// What holds of the pool at every point of a run: `t` messages have been
/// taken, the jobs among them in submission order, each stopped worker took
/// one of the termination signals, and each job taken is finished or running.
pub open spec fn drain_inv<T>(s: PoolModel<T>, jobs: Seq<T>, n: nat) -> bool {
    let all = jobs.map_values(|j: T| Message::NewJob(j)) + terminations::<T>(n);
    let t = all.len() - s.queue.len();
    &&& 0 <= t <= all.len()
    &&& s.queue == all.subrange(t, all.len() as int)
    &&& s.workers.len() == n
    &&& s.started == jobs.subrange(0, if t < jobs.len() { t } else { jobs.len() as int })
    &&& stopped_count(s.workers) == if t > jobs.len() { t - jobs.len() } else { 0 }
    &&& s.finished.len() + running_count(s.workers) == s.started.len()
}

proof fn lemma_step_inv<T>(s: PoolModel<T>, jobs: Seq<T>, n: nat, w: int)
    requires
        drain_inv(s, jobs, n),
        0 <= w < n,
    ensures
        drain_inv(step(s, w), jobs, n),
{
    let all = jobs.map_values(|j: T| Message::NewJob(j)) + terminations::<T>(n);
    let t = all.len() - s.queue.len();
    let s2 = step(s, w);
    match s.workers[w] {
        WorkerState::Waiting => {
            if s.queue.len() > 0 {
                assert(s.queue[0] == all[t]);
                assert(s.queue.drop_first() =~= all.subrange(t + 1, all.len() as int));
                match s.queue[0] {
                    Message::NewJob(j) => {
                        lemma_counts_update(s.workers, w, WorkerState::Running(j));
                        if t >= jobs.len() {
                            assert(all[t] == terminations::<T>(n)[t - jobs.len()]);
                            assert(false);
                        }
                        assert(all[t] == Message::NewJob(jobs[t]));
                        assert(s2.started =~= jobs.subrange(0, t + 1));
                    },
                    Message::Terminate => {
                        lemma_counts_update(s.workers, w, WorkerState::<T>::Stopped);
                        if t < jobs.len() {
                            assert(all[t] == Message::<T>::NewJob(jobs[t]));
                        }
                    },
                }
            }
        },
        WorkerState::Running(j) => {
            lemma_counts_update(s.workers, w, WorkerState::<T>::Waiting);
        },
        WorkerState::Stopped => {},
    }
}

proof fn lemma_run_inv<T>(s: PoolModel<T>, jobs: Seq<T>, n: nat, schedule: Seq<int>)
    requires
        drain_inv(s, jobs, n),
        forall|i: int| 0 <= i < schedule.len() ==> 0 <= #[trigger] schedule[i] < n,
    ensures
        drain_inv(run(s, schedule), jobs, n),
    decreases schedule.len(),
{
    if schedule.len() > 0 {
        lemma_step_inv(s, jobs, n, schedule[0]);
        assert forall|i: int| 0 <= i < schedule.drop_first().len() implies 0
            <= #[trigger] schedule.drop_first()[i] < n by {
            assert(schedule.drop_first()[i] == schedule[i + 1]);
        }
        lemma_run_inv(step(s, schedule[0]), jobs, n, schedule.drop_first());
    }
}

/// A pool of `n` workers given `jobs` and then shut down, run in any order:
/// once every worker has stopped, every job was taken from the queue exactly
/// once and in submission order, every job taken has finished, and the queue
/// is empty. A worker stops only on its termination signal, and those come
/// after every job.
pub proof fn lemma_pool_drains<T>(jobs: Seq<T>, n: nat, schedule: Seq<int>)
    requires
        n >= 1,
        forall|i: int| 0 <= i < schedule.len() ==> 0 <= #[trigger] schedule[i] < n,
    ensures
        ({
            let s = run(submitted(jobs, n), schedule);
            (forall|w: int| 0 <= w < n ==> #[trigger] s.workers[w] is Stopped) ==> {
                &&& s.started == jobs
                &&& s.finished.len() == jobs.len()
                &&& s.queue.len() == 0
            }
        }),
{
    let s0 = submitted(jobs, n);
    let all = jobs.map_values(|j: T| Message::NewJob(j)) + terminations::<T>(n);
    lemma_all_waiting::<T>(n);
    assert(s0.queue =~= all.subrange(0, all.len() as int));
    assert(s0.started =~= jobs.subrange(0, 0));
    lemma_run_inv(s0, jobs, n, schedule);
    let s = run(s0, schedule);
    if forall|w: int| 0 <= w < n ==> #[trigger] s.workers[w] is Stopped {
        lemma_all_stopped(s.workers);
        lemma_counts_bound(s.workers);
        assert(jobs.subrange(0, jobs.len() as int) =~= jobs);
    }
}

proof fn lemma_all_stopped<T>(ws: Seq<WorkerState<T>>)
    requires
        forall|w: int| 0 <= w < ws.len() ==> #[trigger] ws[w] is Stopped,
    ensures
        stopped_count(ws) == ws.len(),
        running_count(ws) == 0,
    decreases ws.len(),
{
    if ws.len() > 0 {
        assert forall|w: int| 0 <= w < ws.drop_last().len() implies #[trigger] ws.drop_last()[w] is Stopped by {
            assert(ws.drop_last()[w] == ws[w]);
        }
        lemma_all_stopped(ws.drop_last());
        assert(ws.last() == ws[ws.len() - 1]);
    }
}

} // verus!
