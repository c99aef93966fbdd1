//! The scheduler: the collection of task records, the task that currently
//! holds the processor, and the round-robin rotation among the ready tasks.

use vstd::prelude::*;
use crate::task::{TaskInfo, TaskStatus, TaskView};
use crate::config::MAX_SYSCALL_NUM;

verus! {

/// The mathematical content of a [`Scheduler`].
pub struct SchedulerView {
    /// The task records in the order of registration.
    pub tasks: Seq<TaskView>,
    /// The number of the task that holds the processor, if any does.
    pub current: Option<int>,
    /// The place in the rotation at which the search for the next ready task
    /// starts: one past the task that got the processor last.
    pub cursor: int,
    /// The timestamp of the latest scheduling boundary.
    pub clock: int,
}

/// The task number reached from position `p` of a rotation over `n` tasks,
/// where `p` may run once past the end.
pub open spec fn wrap(p: int, n: int) -> int {
    if p < n {
        p
    } else {
        p - n
    }
}

/// How many steps the rotation over `n` tasks takes from `cursor` to task `i`.
pub open spec fn rank(cursor: int, i: int, n: int) -> int {
    if i >= cursor {
        i - cursor
    } else {
        i + n - cursor
    }
}

/// The first ready task among those that the rotation visits at steps `k`,
/// `k + 1`, ... counted from `cursor`, before it comes round.
pub open spec fn scan(tasks: Seq<TaskView>, cursor: int, k: int) -> Option<int>
    decreases tasks.len() - k,
{
    if k < 0 || k >= tasks.len() {
        None
    } else if tasks[wrap(cursor + k, tasks.len() as int)].status == TaskStatus::Ready {
        Some(wrap(cursor + k, tasks.len() as int))
    } else {
        scan(tasks, cursor, k + 1)
    }
}

impl SchedulerView {
    /// The state with no task at all.
    pub open spec fn empty() -> SchedulerView {
        SchedulerView { tasks: Seq::empty(), current: None, cursor: 0, clock: 0 }
    }

    /// What holds of every state that the scheduler can be in.
    pub open spec fn wf(self) -> bool {
        &&& 0 <= self.cursor <= self.tasks.len()
        &&& 0 <= self.clock
        &&& forall|i: int|
            0 <= i < self.tasks.len() ==> {
                &&& (#[trigger] self.tasks[i]).current == i
                &&& self.tasks[i].syscall_times.len() == MAX_SYSCALL_NUM
                &&& self.tasks[i].status != TaskStatus::UnInit
                &&& (self.tasks[i].status == TaskStatus::Running <==> self.current == Some(i))
                &&& 0 <= self.tasks[i].time <= self.clock
                &&& 0 <= self.tasks[i].last <= self.clock
                &&& (self.tasks[i].status == TaskStatus::Running ==> self.tasks[i].time
                    <= self.tasks[i].last)
                &&& (self.tasks[i].is_first_run ==> self.tasks[i].status == TaskStatus::Ready
                    && self.tasks[i].time == 0)
            }
        &&& (self.current matches Some(c) ==> 0 <= c < self.tasks.len() && self.cursor == c + 1)
    }

    /// The state after one more task was loaded and registered.
    pub open spec fn registered(self) -> SchedulerView {
        SchedulerView { tasks: self.tasks.push(TaskView::fresh(self.tasks.len() as int)), ..self }
    }

    /// The ready task whose turn is next in the rotation, if any is ready.
    pub open spec fn next_ready(self) -> Option<int> {
        scan(self.tasks, self.cursor, 0)
    }

    /// Whether the running task, if there is one, can count one more
    /// invocation of system call `id`.
    pub open spec fn can_count(self, id: int) -> bool {
        self.current matches Some(c) ==> self.tasks[c].can_count(id)
    }

    /// The state after the running task, if there is one, made system call
    /// `id`: its counter of `id` is one higher, all else is as before.
    pub open spec fn counted(self, id: int) -> SchedulerView {
        match self.current {
            Some(c) => SchedulerView { tasks: self.tasks.update(c, self.tasks[c].counted(id)), ..self },
            None => self,
        }
    }

    /// The state after the running task, if there is one, left the processor
    /// at `now` to wait for its next turn.
    pub open spec fn parked(self, now: int) -> SchedulerView {
        match self.current {
            Some(c) => SchedulerView {
                tasks: self.tasks.update(c, self.tasks[c].suspended(now)),
                current: None,
                clock: now,
                ..self
            },
            None => SchedulerView { clock: now, ..self },
        }
    }

    /// The state after the running task, if there is one, ended at `now`.
    pub open spec fn retired(self, now: int) -> SchedulerView {
        match self.current {
            Some(c) => SchedulerView {
                tasks: self.tasks.update(c, self.tasks[c].exited(now)),
                current: None,
                clock: now,
                ..self
            },
            None => SchedulerView { clock: now, ..self },
        }
    }

    /// The state after the idle processor was given to task `next` at `now`.
    pub open spec fn resumed(self, next: int, now: int) -> SchedulerView {
        SchedulerView {
            tasks: self.tasks.update(next, self.tasks[next].resumed(now)),
            current: Some(next),
            cursor: next + 1,
            clock: now,
        }
    }

    /// The state after the idle processor was given, at `now`, to the ready
    /// task whose turn is next; the state itself where no task is ready.
    pub open spec fn dispatched(self, now: int) -> SchedulerView {
        match self.next_ready() {
            Some(next) => self.resumed(next, now),
            None => self,
        }
    }

    /// The state after a switch to task `next` at `now`: the running task, if
    /// there is one, goes back to waiting, and `next` gets the processor.
    pub open spec fn switched_to(self, next: int, now: int) -> SchedulerView {
        self.parked(now).resumed(next, now)
    }

    /// The state after the running task yielded at `now`: it goes to the back
    /// of the rotation, and the ready task whose turn is next runs.
    pub open spec fn yielded(self, now: int) -> SchedulerView {
        self.parked(now).dispatched(now)
    }

    /// The state after the running task exited at `now`: it is out of the
    /// rotation for good, and the ready task whose turn is next runs.
    pub open spec fn exited(self, now: int) -> SchedulerView {
        self.retired(now).dispatched(now)
    }
}

/// What the search of the rotation finds: a ready task that no other ready
/// task precedes in the rotation, or nothing exactly when no task among those
/// still to be visited is ready.
pub proof fn lemma_scan(tasks: Seq<TaskView>, cursor: int, k: int)
    requires
        0 <= cursor <= tasks.len(),
        0 <= k <= tasks.len(),
    ensures
        match scan(tasks, cursor, k) {
            Some(i) => {
                &&& 0 <= i < tasks.len()
                &&& tasks[i].status == TaskStatus::Ready
                &&& k <= rank(cursor, i, tasks.len() as int) < tasks.len()
                &&& forall|j: int|
                    0 <= j < tasks.len() && k <= rank(cursor, j, tasks.len() as int) < rank(
                        cursor,
                        i,
                        tasks.len() as int,
                    ) ==> (#[trigger] tasks[j]).status != TaskStatus::Ready
            },
            None => forall|j: int|
                0 <= j < tasks.len() && k <= rank(cursor, j, tasks.len() as int) ==> (
                #[trigger] tasks[j]).status != TaskStatus::Ready,
        },
    decreases tasks.len() - k,
{
    let n = tasks.len() as int;
    if k < n {
        let here = wrap(cursor + k, n);
        assert(rank(cursor, here, n) == k);
        assert(forall|j: int| 0 <= j < n && rank(cursor, j, n) == k ==> j == here);
        if tasks[here].status != TaskStatus::Ready {
            lemma_scan(tasks, cursor, k + 1);
        }
    }
}


/// Registering a task keeps the scheduler's state sound.
pub proof fn lemma_registered_wf(s: SchedulerView)
    requires
        s.wf(),
    ensures
        s.registered().wf(),
{
}

/// Counting a system call keeps the scheduler's state sound.
pub proof fn lemma_counted_wf(s: SchedulerView, id: int)
    requires
        s.wf(),
        0 <= id < MAX_SYSCALL_NUM,
    ensures
        s.counted(id).wf(),
{
}

/// Taking the processor from the running task keeps the state sound and
/// leaves the processor idle.
pub proof fn lemma_parked_wf(s: SchedulerView, now: int)
    requires
        s.wf(),
        s.clock <= now,
    ensures
        s.parked(now).wf(),
        s.parked(now).current is None,
{
}

/// Ending the running task keeps the state sound and leaves the processor
/// idle.
pub proof fn lemma_retired_wf(s: SchedulerView, now: int)
    requires
        s.wf(),
        s.clock <= now,
    ensures
        s.retired(now).wf(),
        s.retired(now).current is None,
{
}

/// Giving the idle processor to a ready task keeps the state sound.
pub proof fn lemma_resumed_wf(s: SchedulerView, next: int, now: int)
    requires
        s.wf(),
        s.current is None,
        s.clock <= now,
        0 <= next < s.tasks.len(),
        s.tasks[next].status == TaskStatus::Ready,
    ensures
        s.resumed(next, now).wf(),
{
}

/// Giving the idle processor to the next ready task keeps the state sound.
pub proof fn lemma_dispatched_wf(s: SchedulerView, now: int)
    requires
        s.wf(),
        s.current is None,
        s.clock <= now,
    ensures
        s.dispatched(now).wf(),
{
    lemma_scan(s.tasks, s.cursor, 0);
    if let Some(next) = s.next_ready() {
        lemma_resumed_wf(s, next, now);
    }
}

/// A yield keeps the state sound.
pub proof fn lemma_yielded_wf(s: SchedulerView, now: int)
    requires
        s.wf(),
        s.clock <= now,
    ensures
        s.yielded(now).wf(),
{
    lemma_parked_wf(s, now);
    lemma_dispatched_wf(s.parked(now), now);
}

/// An exit keeps the state sound.
pub proof fn lemma_exited_wf(s: SchedulerView, now: int)
    requires
        s.wf(),
        s.clock <= now,
    ensures
        s.exited(now).wf(),
{
    lemma_retired_wf(s, now);
    lemma_dispatched_wf(s.retired(now), now);
}


/// The number behind an optional task handle, as a mathematical integer.
pub open spec fn number_of(handle: Option<usize>) -> Option<int> {
    match handle {
        Some(i) => Some(i as int),
        None => None,
    }
}

/// The scheduler of a single processor. It owns the task records; nothing
/// outside it changes a task's status, counters or timing.
pub struct Scheduler {
    tasks: Vec<TaskInfo>,
    current: Option<usize>,
    cursor: usize,
    clock: usize,
}

impl View for Scheduler {
    type V = SchedulerView;

    closed spec fn view(&self) -> SchedulerView {
        SchedulerView {
            tasks: Seq::new(self.tasks@.len(), |i: int| self.tasks@[i]@),
            current: number_of(self.current),
            cursor: self.cursor as int,
            clock: self.clock as int,
        }
    }
}

impl Scheduler {
    /// Whether the scheduler is in a sound state. Every constructor
    /// establishes this and every operation keeps it.
    pub open spec fn wf(&self) -> bool {
        self@.wf()
    }

    /// A scheduler without tasks, its clock at zero.
    pub fn new() -> (s: Scheduler)
        ensures
            s.wf(),
            s@ == SchedulerView::empty(),
    {
        let s = Scheduler { tasks: Vec::new(), current: None, cursor: 0, clock: 0 };
        assert(s@.tasks =~= SchedulerView::empty().tasks);
        s
    }

    /// Takes ownership of a freshly loaded task and returns its number. The
    /// task is ready and joins the rotation behind every task registered
    /// before it.
    pub fn register(&mut self) -> (id: usize)
        requires
            old(self).wf(),
        ensures
            final(self).wf(),
            final(self)@ == old(self)@.registered(),
            id == old(self)@.tasks.len(),
    {
        let id: usize = self.tasks.len();
        let mut task = TaskInfo::init();
        task.current = id;
        self.tasks.push(task);
        proof {
            assert(task@ == TaskView::fresh(id as int));
            assert(self@.tasks =~= old(self)@.registered().tasks);
            lemma_registered_wf(old(self)@);
        }
        id
    }

    /// The number of tasks registered so far, exited ones included.
    pub fn len(&self) -> (n: usize)
        ensures
            n == self@.tasks.len(),
    {
        self.tasks.len()
    }

    /// The task that holds the processor, or `None` outside of any task.
    pub fn current(&self) -> (c: Option<usize>)
        ensures
            number_of(c) == self@.current,
    {
        self.current
    }

    /// The timestamp of the latest scheduling boundary.
    pub fn clock(&self) -> (t: usize)
        ensures
            t == self@.clock,
    {
        self.clock
    }

    /// A copy of the record of task `id`, exited or not.
    pub fn task(&self, id: usize) -> (t: Option<TaskInfo>)
        ensures
            id < self@.tasks.len() ==> t is Some && t->0@ == self@.tasks[id as int],
            id >= self@.tasks.len() ==> t is None,
    {
        if id < self.tasks.len() {
            Some(self.tasks[id])
        } else {
            None
        }
    }

    /// The ready task whose turn is next in the rotation, or `None` when no
    /// task is ready. The search starts one past the task that got the
    /// processor last and visits every task once, in the order of
    /// registration, so the task that ran last is the last to be asked.
    pub fn pick_next(&self) -> (next: Option<usize>)
        requires
            self.wf(),
        ensures
            number_of(next) == self@.next_ready(),
            match next {
                Some(i) => {
                    &&& i < self@.tasks.len()
                    &&& self@.tasks[i as int].status == TaskStatus::Ready
                    &&& forall|j: int|
                        0 <= j < self@.tasks.len() && rank(
                            self@.cursor,
                            j,
                            self@.tasks.len() as int,
                        ) < rank(self@.cursor, i as int, self@.tasks.len() as int) ==> (
                        #[trigger] self@.tasks[j]).status != TaskStatus::Ready
                },
                None => forall|j: int|
                    0 <= j < self@.tasks.len() ==> (#[trigger] self@.tasks[j]).status
                        != TaskStatus::Ready,
            },
    {
        let n: usize = self.tasks.len();
        let mut k: usize = 0;
        while k < n
            invariant
                self.wf(),
                n == self.tasks.len(),
                k <= n,
                scan(self@.tasks, self@.cursor, k as int) == self@.next_ready(),
            decreases n - k,
        {
            let i: usize = if k < n - self.cursor {
                self.cursor + k
            } else {
                k - (n - self.cursor)
            };
            assert(i == wrap(self@.cursor + k, n as int));
            match self.tasks[i].status {
                TaskStatus::Ready => {
                    proof {
                        lemma_scan(self@.tasks, self@.cursor, 0);
                    }
                    return Some(i);
                },
                _ => {},
            }
            k += 1;
        }
        proof {
            lemma_scan(self@.tasks, self@.cursor, 0);
        }
        None
    }

    /// Counts one invocation of system call `id` for the running task. With
    /// no task running nothing is counted.
    pub fn count_syscall(&mut self, id: usize)
        requires
            old(self).wf(),
            id < MAX_SYSCALL_NUM,
            old(self)@.can_count(id as int),
        ensures
            final(self).wf(),
            final(self)@ == old(self)@.counted(id as int),
    {
        if let Some(c) = self.current {
            self.tasks[c].count_syscall(id);
            proof {
                assert(self@.tasks =~= old(self)@.counted(id as int).tasks);
                lemma_counted_wf(old(self)@, id as int);
            }
        }
    }

    /// Takes the processor from the running task at `now_us` and makes it
    /// ready again; with no task running only the clock moves.
    fn park(&mut self, now_us: usize)
        requires
            old(self).wf(),
            old(self)@.clock <= now_us,
        ensures
            final(self).wf(),
            final(self)@ == old(self)@.parked(now_us as int),
            final(self)@.current is None,
    {
        if let Some(c) = self.current {
            self.tasks[c].suspend(now_us);
        }
        self.current = None;
        self.clock = now_us;
        proof {
            assert(self@.tasks =~= old(self)@.parked(now_us as int).tasks);
            lemma_parked_wf(old(self)@, now_us as int);
        }
    }

    /// Ends the running task at `now_us` and leaves the processor idle.
    fn retire(&mut self, now_us: usize)
        requires
            old(self).wf(),
            old(self)@.clock <= now_us,
            old(self)@.current is Some,
        ensures
            final(self).wf(),
            final(self)@ == old(self)@.retired(now_us as int),
            final(self)@.current is None,
    {
        if let Some(c) = self.current {
            self.tasks[c].exit(now_us);
        }
        self.current = None;
        self.clock = now_us;
        proof {
            assert(self@.tasks =~= old(self)@.retired(now_us as int).tasks);
            lemma_retired_wf(old(self)@, now_us as int);
        }
    }

    /// Gives the idle processor to the ready task `next` at `now_us`.
    fn resume(&mut self, next: usize, now_us: usize)
        requires
            old(self).wf(),
            old(self)@.current is None,
            old(self)@.clock <= now_us,
            next < old(self)@.tasks.len(),
            old(self)@.tasks[next as int].status == TaskStatus::Ready,
        ensures
            final(self).wf(),
            final(self)@ == old(self)@.resumed(next as int, now_us as int),
    {
        assert(next < self.tasks.len());
        self.tasks[next].resume(now_us);
        self.current = Some(next);
        self.cursor = next + 1;
        self.clock = now_us;
        proof {
            assert(self@.tasks =~= old(self)@.resumed(next as int, now_us as int).tasks);
            lemma_resumed_wf(old(self)@, next as int, now_us as int);
        }
    }

    /// Gives the idle processor, at `now_us`, to the ready task whose turn is
    /// next, and returns its number; with no ready task nothing changes.
    fn dispatch(&mut self, now_us: usize) -> (next: Option<usize>)
        requires
            old(self).wf(),
            old(self)@.current is None,
            old(self)@.clock <= now_us,
        ensures
            final(self).wf(),
            final(self)@ == old(self)@.dispatched(now_us as int),
            number_of(next) == final(self)@.current,
    {
        let next = self.pick_next();
        if let Some(i) = next {
            self.resume(i, now_us);
        }
        next
    }

    /// Switches to task `next` at `now_us`. The task that was running, if
    /// any, gets the interval that ends here added to its running time and
    /// becomes ready; `next` becomes the running task, with `now_us` as the
    /// start of its interval. `next` must be ready, or be the running task
    /// itself: an exited task never runs again.
    pub fn switch_to(&mut self, next: usize, now_us: usize)
        requires
            old(self).wf(),
            old(self)@.clock <= now_us,
            next < old(self)@.tasks.len(),
            old(self)@.tasks[next as int].status == TaskStatus::Ready || old(self)@.current
                == Some(next as int),
        ensures
            final(self).wf(),
            final(self)@ == old(self)@.switched_to(next as int, now_us as int),
            final(self)@.current == Some(next as int),
    {
        self.park(now_us);
        self.resume(next, now_us);
    }

    /// The running task gives up the processor at `now_us`: its interval is
    /// added to its running time, it becomes ready at the back of the
    /// rotation, and the ready task whose turn is next (the same task, when
    /// no other is ready) gets the processor. Returns the task that runs
    /// now, `None` when there is no task to run.
    pub fn yield_current(&mut self, now_us: usize) -> (next: Option<usize>)
        requires
            old(self).wf(),
            old(self)@.clock <= now_us,
        ensures
            final(self).wf(),
            final(self)@ == old(self)@.yielded(now_us as int),
            number_of(next) == final(self)@.current,
    {
        self.park(now_us);
        self.dispatch(now_us)
    }

    /// The running task ends at `now_us`, because it asked to exit or because
    /// the kernel ends it after a fatal error: its interval is added to its
    /// running time, it is marked exited for good, and the ready task whose
    /// turn is next gets the processor. Returns the task that runs now,
    /// `None` when no task is left to run.
    pub fn exit_current(&mut self, now_us: usize) -> (next: Option<usize>)
        requires
            old(self).wf(),
            old(self)@.clock <= now_us,
            old(self)@.current is Some,
        ensures
            final(self).wf(),
            final(self)@ == old(self)@.exited(now_us as int),
            number_of(next) == final(self)@.current,
    {
        self.retire(now_us);
        self.dispatch(now_us)
    }

    /// The record of the task that holds the processor, or `None` outside of
    /// any task.
    pub fn current_task(&self) -> (task: Option<&TaskInfo>)
        requires
            self.wf(),
        ensures
            task is Some <==> self@.current is Some,
            task matches Some(t) ==> t@ == self@.tasks[self@.current->0],
    {
        match self.current {
            Some(c) => Some(&self.tasks[c]),
            None => None,
        }
    }

    /// Whether one more invocation of system call `id` can be counted: the
    /// number is within the table and the running task's counter, if a task
    /// is running, has not reached the top of its range.
    pub fn can_count(&self, id: usize) -> (ok: bool)
        requires
            self.wf(),
        ensures
            ok == (id < MAX_SYSCALL_NUM && self@.can_count(id as int)),
    {
        if id >= MAX_SYSCALL_NUM {
            return false;
        }
        match self.current {
            Some(c) => self.tasks[c].syscall_times[id] < u32::MAX,
            None => true,
        }
    }
}

} // verus!
