//! The per-task record: scheduling status, system call counters and timing.

use vstd::prelude::*;
use crate::config::{MAX_SYSCALL_NUM, MICRO_PER_MSEC};

verus! {

/// Where a task stands in its life cycle.
#[derive(Debug, Clone, Copy, PartialEq, Eq, Structural)]
pub enum TaskStatus {
    /// Not yet set up; never seen on a registered task.
    UnInit,
    /// Waiting for its turn on the processor.
    Ready,
    /// Holding the processor.
    Running,
    /// Finished for good.
    Exited,
}

/// Task information: the record kept for each task, and also the shape of the
/// answer that `sys_task_info` fills in (there `time` is in milliseconds).
#[derive(Clone, Copy)]
pub struct TaskInfo {
    /// Task status in its life cycle.
    pub status: TaskStatus,
    /// How often the task has made each system call, by system call number.
    pub syscall_times: [u32; MAX_SYSCALL_NUM],
    /// Total running time of the task, in microseconds, up to the last time
    /// it left the processor.
    pub time: usize,
    /// Timestamp, in microseconds, at which the task last got the processor.
    pub last: usize,
    /// True until the task gets the processor for the first time.
    pub is_first_run: bool,
    /// The task's number: its place in the order of registration, which is
    /// also the order in which the rotation visits the tasks.
    pub current: usize,
}

/// The mathematical content of a [`TaskInfo`].
pub struct TaskView {
    pub status: TaskStatus,
    pub syscall_times: Seq<u32>,
    pub time: int,
    pub last: int,
    pub is_first_run: bool,
    pub current: int,
}

impl View for TaskInfo {
    type V = TaskView;

    open spec fn view(&self) -> TaskView {
        TaskView {
            status: self.status,
            syscall_times: self.syscall_times@,
            time: self.time as int,
            last: self.last as int,
            is_first_run: self.is_first_run,
            current: self.current as int,
        }
    }
}

impl TaskView {
    /// The record of a task that was just loaded and given the number `id`:
    /// ready, never run, every counter at zero.
    pub open spec fn fresh(id: int) -> TaskView {
        TaskView {
            status: TaskStatus::Ready,
            syscall_times: Seq::new(MAX_SYSCALL_NUM as nat, |k: int| 0u32),
            time: 0,
            last: 0,
            is_first_run: true,
            current: id,
        }
    }

    /// Whether the counter of system call `id` can still be raised.
    pub open spec fn can_count(self, id: int) -> bool {
        &&& 0 <= id < self.syscall_times.len()
        &&& self.syscall_times[id] < u32::MAX
    }

    /// The record after one more invocation of system call `id`.
    pub open spec fn counted(self, id: int) -> TaskView {
        TaskView {
            syscall_times: self.syscall_times.update(id, (self.syscall_times[id] + 1) as u32),
            ..self
        }
    }

    /// Microseconds the task has spent running as of `now`: what was
    /// accumulated at earlier scheduling boundaries plus, while the task is
    /// running, the interval in progress.
    pub open spec fn elapsed_us(self, now: int) -> int {
        if self.status == TaskStatus::Running {
            self.time + (now - self.last)
        } else {
            self.time
        }
    }

    /// The running time as of `now` in whole milliseconds.
    pub open spec fn elapsed_ms(self, now: int) -> int {
        self.elapsed_us(now) / 1000
    }

    /// The record after the task gets the processor at `now`.
    pub open spec fn resumed(self, now: int) -> TaskView {
        TaskView { status: TaskStatus::Running, last: now, is_first_run: false, ..self }
    }

    /// The record after the task gives the processor up at `now` and waits
    /// for its next turn.
    pub open spec fn suspended(self, now: int) -> TaskView {
        TaskView { status: TaskStatus::Ready, time: self.elapsed_us(now), ..self }
    }

    /// The record after the task ends at `now`.
    pub open spec fn exited(self, now: int) -> TaskView {
        TaskView { status: TaskStatus::Exited, time: self.elapsed_us(now), ..self }
    }

    /// Whether the timing fields allow the running time to be taken at `now`
    /// without leaving the machine's range.
    pub open spec fn can_clock(self, now: int) -> bool {
        self.status == TaskStatus::Running ==> self.last <= now && self.time <= self.last
    }
}

impl TaskInfo {
    /// The record of a freshly loaded task: ready, never run, all counters
    /// zero. The scheduler gives it its number when it registers it.
    pub fn init() -> (t: TaskInfo)
        ensures
            t@ == TaskView::fresh(0),
    {
        let t = TaskInfo {
            status: TaskStatus::Ready,
            syscall_times: [0; MAX_SYSCALL_NUM],
            time: 0,
            last: 0,
            is_first_run: true,
            current: 0,
        };
        assert(t@.syscall_times =~= TaskView::fresh(0).syscall_times);
        t
    }

    /// Counts one more invocation of system call `id`.
    pub fn count_syscall(&mut self, id: usize)
        requires
            old(self)@.can_count(id as int),
        ensures
            final(self)@ == old(self)@.counted(id as int),
    {
        let n: u32 = self.syscall_times[id];
        self.syscall_times[id] = n + 1;
    }

    /// Microseconds the task has spent running as of `now_us`.
    pub fn elapsed_us(&self, now_us: usize) -> (us: usize)
        requires
            self@.can_clock(now_us as int),
        ensures
            us == self@.elapsed_us(now_us as int),
    {
        match self.status {
            TaskStatus::Running => self.time + (now_us - self.last),
            _ => self.time,
        }
    }

    /// Whole milliseconds the task has spent running as of `now_us`.
    pub fn elapsed_ms(&self, now_us: usize) -> (ms: usize)
        requires
            self@.can_clock(now_us as int),
        ensures
            ms == self@.elapsed_ms(now_us as int),
    {
        self.elapsed_us(now_us) / MICRO_PER_MSEC
    }

    /// Gives the task the processor at `now_us`.
    pub fn resume(&mut self, now_us: usize)
        requires
            old(self).status == TaskStatus::Ready,
        ensures
            final(self)@ == old(self)@.resumed(now_us as int),
    {
        self.status = TaskStatus::Running;
        self.last = now_us;
        self.is_first_run = false;
    }

    /// Takes the processor from the running task at `now_us`, adds the
    /// interval that ends here to its running time, and makes it ready again.
    pub fn suspend(&mut self, now_us: usize)
        requires
            old(self).status == TaskStatus::Running,
            old(self)@.can_clock(now_us as int),
        ensures
            final(self)@ == old(self)@.suspended(now_us as int),
    {
        self.time = self.elapsed_us(now_us);
        self.status = TaskStatus::Ready;
    }

    /// Ends the running task at `now_us`: adds the interval that ends here to
    /// its running time and marks it exited.
    pub fn exit(&mut self, now_us: usize)
        requires
            old(self).status == TaskStatus::Running,
            old(self)@.can_clock(now_us as int),
        ensures
            final(self)@ == old(self)@.exited(now_us as int),
    {
        self.time = self.elapsed_us(now_us);
        self.status = TaskStatus::Exited;
    }
}

/// The running time reported for a task never goes down while the task keeps
/// the processor and the clock moves forward.
pub proof fn lemma_elapsed_ms_non_decreasing(t: TaskView, now1: int, now2: int)
    requires
        now1 <= now2,
    ensures
        t.elapsed_us(now1) <= t.elapsed_us(now2),
        t.elapsed_ms(now1) <= t.elapsed_ms(now2),
{
}

} // verus!
