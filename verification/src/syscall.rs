//! The system calls through which user code reaches the scheduler and the
//! clock, and the dispatcher that counts and routes them.
//!
//! Nothing here reads the timer or moves the processor from one task to
//! another: every entry point takes the current timestamp as an argument,
//! and the kernel around it switches to the task that the scheduler names as
//! running once the call is over.

use vstd::prelude::*;
use crate::config::{
    MAX_SYSCALL_NUM, NO_CURRENT_TASK, SUCCESS, SYSCALL_EXIT, SYSCALL_GET_TIME, SYSCALL_TASK_INFO,
    SYSCALL_YIELD, UNKNOWN_SYSCALL,
};
use crate::scheduler::{number_of, Scheduler, SchedulerView};
use crate::task::{TaskInfo, TaskView};
use crate::timer::{sec_usec_of, to_sec_usec, TimeVal};

verus! {

/// Whether `id` is the number of one of the four system calls.
pub open spec fn recognized(id: int) -> bool {
    id == SYSCALL_EXIT || id == SYSCALL_YIELD || id == SYSCALL_GET_TIME || id == SYSCALL_TASK_INFO
}

/// What `sys_task_info` leaves in the caller's record `out` when it reports
/// on `task` at `now`: the task's status, a copy of all its counters and its
/// running time in milliseconds, the interval in progress included. The
/// other fields of `out` stay as the caller had them.
pub open spec fn report(out: TaskView, task: TaskView, now: int) -> TaskView {
    TaskView {
        status: task.status,
        syscall_times: task.syscall_times,
        time: task.elapsed_ms(now),
        ..out
    }
}

/// The scheduler's state after the dispatcher handled system call `id` at
/// `now`. A recognized call is first counted for the running task; `exit`
/// and `yield` then reschedule. An unknown number changes nothing.
pub open spec fn after_syscall(s: SchedulerView, id: int, now: int) -> SchedulerView {
    if id == SYSCALL_EXIT {
        s.counted(id).exited(now)
    } else if id == SYSCALL_YIELD {
        s.counted(id).yielded(now)
    } else if id == SYSCALL_GET_TIME || id == SYSCALL_TASK_INFO {
        s.counted(id)
    } else {
        s
    }
}

/// Whether the dispatcher can handle system call `id` at `now` in state `s`:
/// the clock has not gone back since the latest scheduling boundary, the
/// counter that the call raises has room, and `exit` comes from a task.
pub open spec fn can_dispatch(s: SchedulerView, id: int, now: int) -> bool {
    &&& s.clock <= now
    &&& recognized(id) ==> s.can_count(id)
    &&& id == SYSCALL_EXIT ==> s.current is Some
}

/// The running task exits with `exit_code`. It never gets the processor
/// again, so nothing is returned to it; the result names the task that runs
/// next, or `None` when no task is left to run. The code is for the
/// diagnostics of the kernel around; the scheduler keeps no record of it.
pub fn sys_exit(sched: &mut Scheduler, exit_code: i32, now_us: usize) -> (next: Option<usize>)
    requires
        old(sched).wf(),
        old(sched)@.clock <= now_us,
        old(sched)@.current is Some,
    ensures
        final(sched).wf(),
        final(sched)@ == old(sched)@.exited(now_us as int),
        number_of(next) == final(sched)@.current,
{
    sched.exit_current(now_us)
}

/// The running task gives up the processor for the other tasks. Always
/// succeeds; the caller runs again when its turn in the rotation comes.
pub fn sys_yield(sched: &mut Scheduler, now_us: usize) -> (ret: isize)
    requires
        old(sched).wf(),
        old(sched)@.clock <= now_us,
    ensures
        ret == SUCCESS,
        final(sched).wf(),
        final(sched)@ == old(sched)@.yielded(now_us as int),
{
    let _ = sched.yield_current(now_us);
    SUCCESS
}

/// Writes the timestamp `now_us` to `ts` as seconds and microseconds. The
/// second argument is reserved and ignored. Always succeeds.
pub fn sys_get_time(ts: &mut TimeVal, _tz: usize, now_us: usize) -> (ret: isize)
    ensures
        ret == SUCCESS,
        final(ts).sec == sec_usec_of(now_us as int).0,
        final(ts).usec == sec_usec_of(now_us as int).1,
        final(ts).micros() == now_us,
{
    let (sec, usec) = to_sec_usec(now_us);
    ts.sec = sec;
    ts.usec = usec;
    SUCCESS
}

/// Reports on the running task at `now_us`. With no task running it fails
/// with -1 and leaves `ti` untouched. Otherwise it writes the task's status,
/// all its counters and its running time in milliseconds to `ti`, leaves the
/// other fields of `ti` alone, and returns 0.
pub fn sys_task_info(sched: &Scheduler, ti: &mut TaskInfo, now_us: usize) -> (ret: isize)
    requires
        sched.wf(),
        sched@.clock <= now_us,
    ensures
        match sched@.current {
            Some(c) => ret == SUCCESS && final(ti)@ == report(
                old(ti)@,
                sched@.tasks[c],
                now_us as int,
            ),
            None => ret == NO_CURRENT_TASK && *final(ti) == *old(ti),
        },
{
    match sched.current_task() {
        Some(task) => {
            ti.status = task.status;
            ti.syscall_times = task.syscall_times;
            ti.time = task.elapsed_ms(now_us);
            SUCCESS
        },
        None => NO_CURRENT_TASK,
    }
}

/// Whether `id` is the number of one of the four system calls.
pub fn is_recognized(id: usize) -> (r: bool)
    ensures
        r == recognized(id as int),
        r ==> id < MAX_SYSCALL_NUM,
{
    id == SYSCALL_EXIT || id == SYSCALL_YIELD || id == SYSCALL_GET_TIME || id == SYSCALL_TASK_INFO
}

/// Whether the dispatcher can handle system call `syscall_id` at `now_us`:
/// the test to make before calling [`syscall`].
pub fn dispatchable(sched: &Scheduler, syscall_id: usize, now_us: usize) -> (ok: bool)
    requires
        sched.wf(),
    ensures
        ok == can_dispatch(sched@, syscall_id as int, now_us as int),
{
    if sched.clock() > now_us {
        return false;
    }
    if !is_recognized(syscall_id) {
        return true;
    }
    if !sched.can_count(syscall_id) {
        return false;
    }
    syscall_id != SYSCALL_EXIT || sched.current().is_some()
}

/// Handles system call `syscall_id`, made at `now_us`.
///
/// A number that is not one of the four system calls is rejected with a
/// negative code: nothing is counted and nothing changes. A recognized call
/// is first counted for the running task and then carried out: `exit` takes
/// its code from `args[0]`, `get_time` fills `ts` (`args[1]` is reserved),
/// `task_info` fills `ti`. The result is the status code for the caller, or
/// `None` after `exit`, which has no caller left to return to.
pub fn syscall(
    sched: &mut Scheduler,
    syscall_id: usize,
    args: [usize; 3],
    now_us: usize,
    ts: &mut TimeVal,
    ti: &mut TaskInfo,
) -> (ret: Option<isize>)
    requires
        old(sched).wf(),
        can_dispatch(old(sched)@, syscall_id as int, now_us as int),
    ensures
        final(sched).wf(),
        final(sched)@ == after_syscall(old(sched)@, syscall_id as int, now_us as int),
        !recognized(syscall_id as int) ==> ret == Some(UNKNOWN_SYSCALL),
        syscall_id == SYSCALL_EXIT ==> ret is None,
        syscall_id == SYSCALL_YIELD ==> ret == Some(SUCCESS),
        syscall_id == SYSCALL_GET_TIME ==> ret == Some(SUCCESS) && final(ts).sec == sec_usec_of(
            now_us as int,
        ).0 && final(ts).usec == sec_usec_of(now_us as int).1,
        syscall_id != SYSCALL_GET_TIME ==> *final(ts) == *old(ts),
        syscall_id == SYSCALL_TASK_INFO ==> match final(sched)@.current {
            Some(c) => ret == Some(SUCCESS) && final(ti)@ == report(
                old(ti)@,
                final(sched)@.tasks[c],
                now_us as int,
            ),
            None => ret == Some(NO_CURRENT_TASK) && *final(ti) == *old(ti),
        },
        syscall_id != SYSCALL_TASK_INFO ==> *final(ti) == *old(ti),
{
    if !is_recognized(syscall_id) {
        return Some(UNKNOWN_SYSCALL);
    }
    sched.count_syscall(syscall_id);
    if syscall_id == SYSCALL_EXIT {
        let exit_code: i32 = #[verifier::truncate] (args[0] as i32);
        let _ = sys_exit(sched, exit_code, now_us);
        None
    } else if syscall_id == SYSCALL_YIELD {
        Some(sys_yield(sched, now_us))
    } else if syscall_id == SYSCALL_GET_TIME {
        Some(sys_get_time(ts, args[1], now_us))
    } else {
        Some(sys_task_info(sched, ti, now_us))
    }
}

} // verus!
