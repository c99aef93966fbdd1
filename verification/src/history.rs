//! What holds of the scheduler over whole histories of operations: counters
//! match invocations, an exited task stays as it was, running time only
//! grows, and the rotation among yielding tasks is fair.

use vstd::prelude::*;
use crate::config::{MAX_SYSCALL_NUM, SYSCALL_EXIT, SYSCALL_YIELD};
use crate::scheduler::{
    lemma_counted_wf, lemma_exited_wf, lemma_parked_wf, lemma_registered_wf, lemma_resumed_wf,
    lemma_retired_wf, lemma_scan, lemma_yielded_wf, scan, wrap, SchedulerView,
};
use crate::syscall::{after_syscall, can_dispatch, recognized};
use crate::task::TaskStatus;

verus! {

/// One operation on the scheduler.
pub enum Event {
    /// A freshly loaded task is registered.
    Register,
    /// One invocation of system call `id` is counted for the running task.
    Count { id: int },
    /// The processor is switched to task `next` at `now`.
    SwitchTo { next: int, now: int },
    /// The running task yields at `now`.
    Yield { now: int },
    /// The running task exits at `now`.
    Exit { now: int },
    /// The dispatcher handles system call `id` at `now`.
    Syscall { id: int, now: int },
}

impl Event {
    /// Whether the operation may be applied in state `s`: what the operation
    /// demands of its caller beyond a sound state.
    pub open spec fn allowed(self, s: SchedulerView) -> bool {
        match self {
            Event::Register => true,
            Event::Count { id } => 0 <= id < MAX_SYSCALL_NUM && s.can_count(id),
            Event::SwitchTo { next, now } => {
                &&& s.clock <= now
                &&& 0 <= next < s.tasks.len()
                &&& (s.tasks[next].status == TaskStatus::Ready || s.current == Some(next))
            },
            Event::Yield { now } => s.clock <= now,
            Event::Exit { now } => s.clock <= now && s.current is Some,
            Event::Syscall { id, now } => can_dispatch(s, id, now),
        }
    }

    /// The state that the operation leaves behind when applied in state `s`.
    pub open spec fn apply(self, s: SchedulerView) -> SchedulerView {
        match self {
            Event::Register => s.registered(),
            Event::Count { id } => s.counted(id),
            Event::SwitchTo { next, now } => s.switched_to(next, now),
            Event::Yield { now } => s.yielded(now),
            Event::Exit { now } => s.exited(now),
            Event::Syscall { id, now } => after_syscall(s, id, now),
        }
    }

    /// Whether the operation, applied in state `s`, is an invocation of
    /// system call `id` by task `t`: `t` holds the processor, and the
    /// operation counts `id` directly or is a dispatch of `id`, a recognized
    /// system call.
    pub open spec fn invokes(self, s: SchedulerView, t: int, id: int) -> bool {
        &&& s.current == Some(t)
        &&& match self {
            Event::Count { id: counted } => counted == id,
            Event::Syscall { id: called, now } => called == id && recognized(id),
            _ => false,
        }
    }
}

/// The state after the operations `events` were applied to `s` one after the
/// other.
pub open spec fn run(s: SchedulerView, events: Seq<Event>) -> SchedulerView
    decreases events.len(),
{
    if events.len() == 0 {
        s
    } else {
        events.last().apply(run(s, events.drop_last()))
    }
}

/// Whether each of the operations `events`, applied one after the other from
/// `s`, is allowed in the state in which it is applied.
pub open spec fn admissible(s: SchedulerView, events: Seq<Event>) -> bool
    decreases events.len(),
{
    if events.len() == 0 {
        true
    } else {
        admissible(s, events.drop_last()) && events.last().allowed(run(s, events.drop_last()))
    }
}

/// How many of the operations `events`, applied one after the other from
/// `s`, are invocations of system call `id` by task `t`.
pub open spec fn invocations(s: SchedulerView, events: Seq<Event>, t: int, id: int) -> nat
    decreases events.len(),
{
    if events.len() == 0 {
        0
    } else {
        let before = invocations(s, events.drop_last(), t, id);
        if events.last().invokes(run(s, events.drop_last()), t, id) {
            before + 1
        } else {
            before
        }
    }
}

/// The counter of system call `id` in the record of task `t`; zero for a
/// task that is not registered yet.
pub open spec fn count_of(s: SchedulerView, t: int, id: int) -> int {
    if 0 <= t < s.tasks.len() {
        s.tasks[t].syscall_times[id] as int
    } else {
        0
    }
}

/// The running time accumulated in the record of task `t`; zero for a task
/// that is not registered yet.
pub open spec fn time_of(s: SchedulerView, t: int) -> int {
    if 0 <= t < s.tasks.len() {
        s.tasks[t].time
    } else {
        0
    }
}

/// Every allowed operation keeps the scheduler's state sound.
pub proof fn lemma_apply_wf(s: SchedulerView, e: Event)
    requires
        s.wf(),
        e.allowed(s),
    ensures
        e.apply(s).wf(),
{
    match e {
        Event::Register => lemma_registered_wf(s),
        Event::Count { id } => lemma_counted_wf(s, id),
        Event::SwitchTo { next, now } => {
            lemma_parked_wf(s, now);
            lemma_resumed_wf(s.parked(now), next, now);
        },
        Event::Yield { now } => lemma_yielded_wf(s, now),
        Event::Exit { now } => lemma_exited_wf(s, now),
        Event::Syscall { id, now } => {
            if recognized(id) {
                lemma_counted_wf(s, id);
                if id == SYSCALL_EXIT {
                    lemma_exited_wf(s.counted(id), now);
                } else if id == SYSCALL_YIELD {
                    lemma_yielded_wf(s.counted(id), now);
                }
            }
        },
    }
}

/// Every history of allowed operations keeps the scheduler's state sound.
pub proof fn lemma_run_wf(s: SchedulerView, events: Seq<Event>)
    requires
        s.wf(),
        admissible(s, events),
    ensures
        run(s, events).wf(),
    decreases events.len(),
{
    if events.len() > 0 {
        lemma_run_wf(s, events.drop_last());
        lemma_apply_wf(run(s, events.drop_last()), events.last());
    }
}


/// One allowed operation leaves every exited task exactly as it was.
pub proof fn lemma_apply_keeps_exited(s: SchedulerView, e: Event, t: int)
    requires
        s.wf(),
        e.allowed(s),
        0 <= t < s.tasks.len(),
        s.tasks[t].status == TaskStatus::Exited,
    ensures
        t < e.apply(s).tasks.len(),
        e.apply(s).tasks[t] == s.tasks[t],
{
    match e {
        Event::Register => {},
        Event::Count { id } => {},
        Event::SwitchTo { next, now } => {},
        Event::Yield { now } => {
            lemma_parked_wf(s, now);
            lemma_scan(s.parked(now).tasks, s.parked(now).cursor, 0);
        },
        Event::Exit { now } => {
            lemma_retired_wf(s, now);
            lemma_scan(s.retired(now).tasks, s.retired(now).cursor, 0);
        },
        Event::Syscall { id, now } => {
            if recognized(id) {
                let c = s.counted(id);
                lemma_counted_wf(s, id);
                if id == SYSCALL_EXIT {
                    lemma_retired_wf(c, now);
                    lemma_scan(c.retired(now).tasks, c.retired(now).cursor, 0);
                } else if id == SYSCALL_YIELD {
                    lemma_parked_wf(c, now);
                    lemma_scan(c.parked(now).tasks, c.parked(now).cursor, 0);
                }
            }
        },
    }
}

/// Once a task has exited, no history of allowed operations changes its
/// record: it is never ready or running again, and its counters and its
/// running time stay as they were when it exited.
pub proof fn lemma_exited_is_final(s: SchedulerView, events: Seq<Event>, t: int)
    requires
        s.wf(),
        admissible(s, events),
        0 <= t < s.tasks.len(),
        s.tasks[t].status == TaskStatus::Exited,
    ensures
        t < run(s, events).tasks.len(),
        run(s, events).tasks[t] == s.tasks[t],
        run(s, events).tasks[t].status == TaskStatus::Exited,
        run(s, events).current != Some(t),
    decreases events.len(),
{
    if events.len() > 0 {
        lemma_exited_is_final(s, events.drop_last(), t);
        lemma_run_wf(s, events.drop_last());
        lemma_apply_keeps_exited(run(s, events.drop_last()), events.last(), t);
    }
    lemma_run_wf(s, events);
}

/// Rescheduling changes no counter.
proof fn lemma_reschedule_keeps_counts(s: SchedulerView, now: int, t: int, id: int)
    requires
        s.wf(),
        s.clock <= now,
    ensures
        count_of(s.yielded(now), t, id) == count_of(s, t, id),
        count_of(s.exited(now), t, id) == count_of(s, t, id),
{
    lemma_parked_wf(s, now);
    lemma_scan(s.parked(now).tasks, s.parked(now).cursor, 0);
    lemma_retired_wf(s, now);
    lemma_scan(s.retired(now).tasks, s.retired(now).cursor, 0);
}

/// One allowed operation raises the counter of system call `id` of task `t`
/// by one if it is an invocation of `id` by `t`, and leaves it alone
/// otherwise.
pub proof fn lemma_apply_counts(s: SchedulerView, e: Event, t: int, id: int)
    requires
        s.wf(),
        e.allowed(s),
        0 <= id < MAX_SYSCALL_NUM,
    ensures
        count_of(e.apply(s), t, id) == count_of(s, t, id) + if e.invokes(s, t, id) {
            1int
        } else {
            0int
        },
{
    match e {
        Event::Register => {},
        Event::Count { id: counted } => {},
        Event::SwitchTo { next, now } => {},
        Event::Yield { now } => lemma_reschedule_keeps_counts(s, now, t, id),
        Event::Exit { now } => lemma_reschedule_keeps_counts(s, now, t, id),
        Event::Syscall { id: called, now } => {
            if recognized(called) {
                lemma_counted_wf(s, called);
                lemma_reschedule_keeps_counts(s.counted(called), now, t, id);
            }
        },
    }
}

/// After any history of allowed operations, the counter of system call `id`
/// in the record of task `t` has grown by exactly the number of invocations
/// of `id` that `t` made in that history. What other tasks invoke, and what
/// `t` invokes under other numbers, does not touch it.
pub proof fn lemma_counts_match_invocations(s: SchedulerView, events: Seq<Event>, t: int, id: int)
    requires
        s.wf(),
        admissible(s, events),
        0 <= id < MAX_SYSCALL_NUM,
    ensures
        count_of(run(s, events), t, id) == count_of(s, t, id) + invocations(s, events, t, id),
    decreases events.len(),
{
    if events.len() > 0 {
        lemma_counts_match_invocations(s, events.drop_last(), t, id);
        lemma_run_wf(s, events.drop_last());
        lemma_apply_counts(run(s, events.drop_last()), events.last(), t, id);
    }
}

/// From a scheduler without tasks, after any history of allowed operations,
/// each counter of each task equals the number of invocations that the task
/// made of that system call.
pub proof fn lemma_counts_from_start(events: Seq<Event>, t: int, id: int)
    requires
        admissible(SchedulerView::empty(), events),
        0 <= id < MAX_SYSCALL_NUM,
        0 <= t < run(SchedulerView::empty(), events).tasks.len(),
    ensures
        run(SchedulerView::empty(), events).tasks[t].syscall_times[id] == invocations(
            SchedulerView::empty(),
            events,
            t,
            id,
        ),
{
    lemma_counts_match_invocations(SchedulerView::empty(), events, t, id);
}


/// One allowed operation never lowers a task's accumulated running time.
pub proof fn lemma_apply_time_grows(s: SchedulerView, e: Event, t: int)
    requires
        s.wf(),
        e.allowed(s),
    ensures
        time_of(s, t) <= time_of(e.apply(s), t),
{
    match e {
        Event::Register => {},
        Event::Count { id } => {},
        Event::SwitchTo { next, now } => {},
        Event::Yield { now } => {
            lemma_parked_wf(s, now);
            lemma_scan(s.parked(now).tasks, s.parked(now).cursor, 0);
        },
        Event::Exit { now } => {
            lemma_retired_wf(s, now);
            lemma_scan(s.retired(now).tasks, s.retired(now).cursor, 0);
        },
        Event::Syscall { id, now } => {
            if recognized(id) {
                let c = s.counted(id);
                lemma_counted_wf(s, id);
                if id == SYSCALL_EXIT {
                    lemma_retired_wf(c, now);
                    lemma_scan(c.retired(now).tasks, c.retired(now).cursor, 0);
                } else if id == SYSCALL_YIELD {
                    lemma_parked_wf(c, now);
                    lemma_scan(c.parked(now).tasks, c.parked(now).cursor, 0);
                }
            }
        },
    }
}

/// Over any history of allowed operations, the accumulated running time of
/// a task never goes down.
pub proof fn lemma_time_never_shrinks(s: SchedulerView, events: Seq<Event>, t: int)
    requires
        s.wf(),
        admissible(s, events),
    ensures
        time_of(s, t) <= time_of(run(s, events), t),
    decreases events.len(),
{
    if events.len() > 0 {
        lemma_time_never_shrinks(s, events.drop_last(), t);
        lemma_run_wf(s, events.drop_last());
        lemma_apply_time_grows(run(s, events.drop_last()), events.last(), t);
    }
}

/// Whether the operation leaves the processor with the task that has it:
/// counting, and dispatching anything but `exit` and `yield`.
pub open spec fn stays(e: Event) -> bool {
    match e {
        Event::Count { id } => true,
        Event::Syscall { id, now } => id != SYSCALL_EXIT && id != SYSCALL_YIELD,
        _ => false,
    }
}

/// Whether the operation is a yield, made directly or through the
/// dispatcher.
pub open spec fn yields(e: Event) -> bool {
    match e {
        Event::Yield { now } => true,
        Event::Syscall { id, now } => id == SYSCALL_YIELD,
        _ => false,
    }
}

/// Whether `events` holds nothing but operations that keep the running task
/// on the processor.
pub open spec fn uninterrupted(events: Seq<Event>) -> bool {
    forall|i: int| 0 <= i < events.len() ==> stays(#[trigger] events[i])
}

/// Whether in `events` the tasks only ever yield, besides operations that
/// keep the running task on the processor: no task exits, none is
/// registered, and the rotation alone decides who runs next.
pub open spec fn only_yielding(events: Seq<Event>) -> bool {
    forall|i: int| 0 <= i < events.len() ==> stays(#[trigger] events[i]) || yields(events[i])
}

/// How many times the scheduler selects a task in `events`: the number of
/// yields.
pub open spec fn selections(events: Seq<Event>) -> nat
    decreases events.len(),
{
    if events.len() == 0 {
        0
    } else if yields(events.last()) {
        selections(events.drop_last()) + 1
    } else {
        selections(events.drop_last())
    }
}

/// Whether no task of `s` has exited.
pub open spec fn all_alive(s: SchedulerView) -> bool {
    forall|i: int| 0 <= i < s.tasks.len() ==> (#[trigger] s.tasks[i]).status != TaskStatus::Exited
}

/// The running time that `task_info` reports for the running task of `s` at
/// `now`, in milliseconds.
pub open spec fn reported_ms(s: SchedulerView, now: int) -> int
    recommends
        s.current is Some,
{
    s.tasks[s.current->0].elapsed_ms(now)
}

/// While a task stays on the processor, whatever it counts or asks of the
/// dispatcher in between, its status and the two fields that its running
/// time is computed from stay as they are.
pub proof fn lemma_uninterrupted_keeps_interval(s: SchedulerView, events: Seq<Event>)
    requires
        s.wf(),
        admissible(s, events),
        uninterrupted(events),
        s.current is Some,
    ensures
        run(s, events).current == s.current,
        run(s, events).clock == s.clock,
        run(s, events).tasks.len() == s.tasks.len(),
        run(s, events).tasks[s.current->0].status == TaskStatus::Running,
        run(s, events).tasks[s.current->0].time == s.tasks[s.current->0].time,
        run(s, events).tasks[s.current->0].last == s.tasks[s.current->0].last,
    decreases events.len(),
{
    if events.len() > 0 {
        assert(stays(events[events.len() - 1]));
        assert forall|i: int| 0 <= i < events.drop_last().len() implies stays(
            #[trigger] events.drop_last()[i],
        ) by {
            assert(stays(events[i]));
        }
        lemma_uninterrupted_keeps_interval(s, events.drop_last());
    }
}

/// The running time that `task_info` reports never goes down across
/// successive calls while the same task stays on the processor: a report
/// taken at `now1`, then any operations that keep the task running, then a
/// report taken at `now2`, no earlier than `now1`.
pub proof fn lemma_reported_time_non_decreasing(
    s: SchedulerView,
    events: Seq<Event>,
    now1: int,
    now2: int,
)
    requires
        s.wf(),
        admissible(s, events),
        uninterrupted(events),
        s.current is Some,
        now1 <= now2,
    ensures
        run(s, events).current == s.current,
        reported_ms(s, now1) <= reported_ms(run(s, events), now2),
{
    lemma_uninterrupted_keeps_interval(s, events);
}

/// The task after `c` in a rotation over `n` tasks, by remainder.
proof fn lemma_wrap_is_mod(c: int, k: int, n: int)
    requires
        0 <= c,
        0 <= k,
        0 < n,
    ensures
        wrap((c + k) % n + 1, n) == (c + k + 1) % n,
{
    let a = c + k;
    vstd::arithmetic::div_mod::lemma_fundamental_div_mod(a, n);
    vstd::arithmetic::div_mod::lemma_mod_bound(a, n);
    let q = a / n;
    let r = a % n;
    assert(q * n == n * q) by (nonlinear_arith);
    if r + 1 < n {
        vstd::arithmetic::div_mod::lemma_fundamental_div_mod_converse_mod(a + 1, n, q, r + 1);
    } else {
        assert(a + 1 == (q + 1) * n + 0) by (nonlinear_arith)
            requires
                a == n * q + r,
                r + 1 == n,
        ;
        vstd::arithmetic::div_mod::lemma_fundamental_div_mod_converse_mod(a + 1, n, q + 1, 0);
    }
}

/// When no task has exited and task `c` yields, the task registered right
/// after `c` runs next, or the first one when `c` is the last.
pub proof fn lemma_yield_passes_on(s: SchedulerView, now: int)
    requires
        s.wf(),
        all_alive(s),
        s.current is Some,
        s.clock <= now,
    ensures
        s.yielded(now).wf(),
        all_alive(s.yielded(now)),
        s.yielded(now).tasks.len() == s.tasks.len(),
        s.yielded(now).current == Some(wrap(s.current->0 + 1, s.tasks.len() as int)),
{
    let p = s.parked(now);
    let n = s.tasks.len() as int;
    let next = wrap(s.current->0 + 1, n);
    lemma_parked_wf(s, now);
    lemma_yielded_wf(s, now);
    assert(p.tasks[next].status == TaskStatus::Ready);
    assert(scan(p.tasks, p.cursor, 0) == Some(next));
}

/// Round-robin fairness. Start with task `c` on the processor and no task
/// exited, and let the tasks only ever yield. Then after `k` selections the
/// task that runs is the one `k` places after `c` in the order of
/// registration, counted round the ring of all `n` tasks. So each task runs
/// again at the `n`-th selection after its turn, and not later.
pub proof fn lemma_round_robin(s: SchedulerView, events: Seq<Event>)
    requires
        s.wf(),
        admissible(s, events),
        only_yielding(events),
        all_alive(s),
        s.current is Some,
    ensures
        run(s, events).wf(),
        all_alive(run(s, events)),
        run(s, events).tasks.len() == s.tasks.len(),
        run(s, events).current == Some(
            (s.current->0 + selections(events)) % (s.tasks.len() as int),
        ),
        selections(events) == s.tasks.len() ==> run(s, events).current == s.current,
    decreases events.len(),
{
    let n = s.tasks.len() as int;
    let c = s.current->0;
    if events.len() == 0 {
        vstd::arithmetic::div_mod::lemma_small_mod(c as nat, n as nat);
    } else {
        let before = events.drop_last();
        let e = events.last();
        assert(stays(events[events.len() - 1]) || yields(events[events.len() - 1]));
        assert forall|i: int| 0 <= i < before.len() implies stays(#[trigger] before[i]) || yields(
            before[i],
        ) by {
            assert(stays(events[i]) || yields(events[i]));
        }
        lemma_round_robin(s, before);
        let mid = run(s, before);
        let k = selections(before) as int;
        lemma_apply_wf(mid, e);
        if yields(e) {
            lemma_wrap_is_mod(c, k, n);
            match e {
                Event::Yield { now } => lemma_yield_passes_on(mid, now),
                Event::Syscall { id, now } => {
                    lemma_counted_wf(mid, id);
                    lemma_yield_passes_on(mid.counted(id), now);
                },
                _ => {},
            }
        }
    }
    if selections(events) == n {
        vstd::arithmetic::div_mod::lemma_mod_add_multiples_vanish(c, n);
        vstd::arithmetic::div_mod::lemma_small_mod(c as nat, n as nat);
    }
}

} // verus!
