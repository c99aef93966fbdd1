use taskcore::config::{
    MAX_SYSCALL_NUM, NO_CURRENT_TASK, SUCCESS, SYSCALL_EXIT, SYSCALL_GET_TIME, SYSCALL_TASK_INFO,
    SYSCALL_YIELD, UNKNOWN_SYSCALL,
};
use taskcore::scheduler::Scheduler;
use taskcore::syscall::{
    dispatchable, is_recognized, sys_exit, sys_task_info, sys_yield, syscall,
};
use taskcore::task::{TaskInfo, TaskStatus};
use taskcore::timer::TimeVal;

fn marked_record() -> TaskInfo {
    let mut ti = TaskInfo::init();
    ti.status = TaskStatus::UnInit;
    ti.syscall_times[3] = 33;
    ti.time = 123_456;
    ti.last = 654_321;
    ti.is_first_run = false;
    ti.current = 42;
    ti
}

fn same_record(a: &TaskInfo, b: &TaskInfo) -> bool {
    a.status == b.status
        && a.syscall_times == b.syscall_times
        && a.time == b.time
        && a.last == b.last
        && a.is_first_run == b.is_first_run
        && a.current == b.current
}

#[test]
fn system_call_numbers() {
    assert_eq!(SYSCALL_EXIT, 93);
    assert_eq!(SYSCALL_YIELD, 124);
    assert_eq!(SYSCALL_GET_TIME, 169);
    assert_eq!(SYSCALL_TASK_INFO, 410);
    assert_eq!(MAX_SYSCALL_NUM, 500);
    assert_eq!(SUCCESS, 0);
    assert_eq!(NO_CURRENT_TASK, -1);
    assert!(UNKNOWN_SYSCALL < 0);
}

#[test]
fn only_the_four_numbers_are_recognized() {
    for id in 0..MAX_SYSCALL_NUM + 10 {
        let expected = id == 93 || id == 124 || id == 169 || id == 410;
        assert_eq!(is_recognized(id), expected);
    }
    assert!(!is_recognized(usize::MAX));
}

#[test]
fn task_info_without_a_task_fails_and_writes_nothing() {
    let s = Scheduler::new();
    let mut ti = marked_record();
    assert_eq!(sys_task_info(&s, &mut ti, 1_000), -1);
    assert!(same_record(&ti, &marked_record()));
}

#[test]
fn task_info_with_tasks_but_none_running_fails() {
    let mut s = Scheduler::new();
    s.register();
    s.register();
    let mut ti = marked_record();
    assert_eq!(sys_task_info(&s, &mut ti, 0), NO_CURRENT_TASK);
    assert!(same_record(&ti, &marked_record()));
}

#[test]
fn task_info_through_the_dispatcher_without_a_task() {
    let mut s = Scheduler::new();
    let mut ti = marked_record();
    let mut ts = TimeVal { sec: 1, usec: 2 };
    let ret = syscall(&mut s, SYSCALL_TASK_INFO, [0, 0, 0], 50, &mut ts, &mut ti);
    assert_eq!(ret, Some(-1));
    assert!(same_record(&ti, &marked_record()));
    assert_eq!(ts, TimeVal { sec: 1, usec: 2 });
}

#[test]
fn task_info_reports_status_counters_and_milliseconds() {
    let mut s = Scheduler::new();
    s.register();
    assert_eq!(sys_yield(&mut s, 1_000), 0);
    s.count_syscall(5);
    s.count_syscall(5);
    let mut ti = marked_record();
    assert_eq!(sys_task_info(&s, &mut ti, 3_500), 0);
    assert_eq!(ti.status, TaskStatus::Running);
    assert_eq!(ti.syscall_times[5], 2);
    assert_eq!(ti.syscall_times[3], 0);
    assert_eq!(ti.syscall_times[SYSCALL_YIELD], 0);
    assert_eq!(ti.time, 2);
}

#[test]
fn task_info_keeps_bookkeeping_fields_to_itself() {
    let mut s = Scheduler::new();
    s.register();
    s.register();
    sys_yield(&mut s, 10);
    sys_yield(&mut s, 20);
    let mut ti = marked_record();
    assert_eq!(sys_task_info(&s, &mut ti, 30), 0);
    assert_eq!(ti.last, 654_321);
    assert!(!ti.is_first_run);
    assert_eq!(ti.current, 42);
    let mut fresh = TaskInfo::init();
    assert_eq!(sys_task_info(&s, &mut fresh, 30), 0);
    assert_eq!(fresh.last, 0);
    assert!(fresh.is_first_run);
    assert_eq!(fresh.current, 0);
}

#[test]
fn task_info_adds_the_interval_in_progress_to_earlier_ones() {
    let mut s = Scheduler::new();
    s.register();
    s.register();
    sys_yield(&mut s, 1_000);
    sys_yield(&mut s, 4_000);
    sys_yield(&mut s, 10_000);
    assert_eq!(s.current(), Some(0));
    assert_eq!(s.task(0).unwrap().time, 3_000);
    let mut ti = TaskInfo::init();
    assert_eq!(sys_task_info(&s, &mut ti, 10_999), 0);
    assert_eq!(ti.time, 3);
    assert_eq!(sys_task_info(&s, &mut ti, 11_000), 0);
    assert_eq!(ti.time, 4);
}

#[test]
fn reported_time_never_goes_down_while_the_task_keeps_running() {
    let mut s = Scheduler::new();
    s.register();
    sys_yield(&mut s, 700);
    let mut ti = TaskInfo::init();
    let mut ts = TimeVal { sec: 0, usec: 0 };
    let mut previous: usize = 0;
    let mut now: usize = 700;
    for round in 0..50usize {
        now += 137 * (round % 4);
        let ret = syscall(&mut s, SYSCALL_TASK_INFO, [0, 0, 0], now, &mut ts, &mut ti);
        assert_eq!(ret, Some(0));
        assert!(ti.time >= previous);
        assert_eq!(ti.time, (now - 700) / 1_000);
        previous = ti.time;
    }
    assert_eq!(ti.syscall_times[SYSCALL_TASK_INFO], 50);
}

#[test]
fn yield_returns_zero_and_reschedules() {
    let mut s = Scheduler::new();
    s.register();
    s.register();
    assert_eq!(sys_yield(&mut s, 5), SUCCESS);
    assert_eq!(s.current(), Some(0));
    assert_eq!(sys_yield(&mut s, 6), 0);
    assert_eq!(s.current(), Some(1));
    assert_eq!(s.task(0).unwrap().status, TaskStatus::Ready);
}

#[test]
fn exit_names_the_next_task() {
    let mut s = Scheduler::new();
    s.register();
    s.register();
    sys_yield(&mut s, 5);
    assert_eq!(sys_exit(&mut s, 0, 6), Some(1));
    assert_eq!(s.task(0).unwrap().status, TaskStatus::Exited);
    assert_eq!(sys_exit(&mut s, -3, 7), None);
    assert_eq!(s.task(1).unwrap().status, TaskStatus::Exited);
    assert_eq!(s.current(), None);
}

#[test]
fn dispatcher_counts_before_it_routes() {
    let mut s = Scheduler::new();
    s.register();
    s.register();
    sys_yield(&mut s, 1);
    let mut ti = TaskInfo::init();
    let mut ts = TimeVal { sec: 0, usec: 0 };
    assert_eq!(syscall(&mut s, SYSCALL_YIELD, [0, 0, 0], 2, &mut ts, &mut ti), Some(0));
    assert_eq!(s.current(), Some(1));
    assert_eq!(s.task(0).unwrap().syscall_times[SYSCALL_YIELD], 1);
    assert_eq!(s.task(1).unwrap().syscall_times[SYSCALL_YIELD], 0);
    assert_eq!(syscall(&mut s, SYSCALL_TASK_INFO, [0, 0, 0], 3, &mut ts, &mut ti), Some(0));
    assert_eq!(ti.syscall_times[SYSCALL_TASK_INFO], 1);
    assert_eq!(ti.syscall_times[SYSCALL_YIELD], 0);
    assert_eq!(syscall(&mut s, SYSCALL_EXIT, [9, 0, 0], 4, &mut ts, &mut ti), None);
    assert_eq!(s.task(1).unwrap().syscall_times[SYSCALL_EXIT], 1);
    assert_eq!(s.task(1).unwrap().status, TaskStatus::Exited);
    assert_eq!(s.current(), Some(0));
}

#[test]
fn dispatcher_get_time_fills_the_pair() {
    let mut s = Scheduler::new();
    s.register();
    sys_yield(&mut s, 1);
    let mut ti = marked_record();
    let mut ts = TimeVal { sec: 0, usec: 0 };
    let ret = syscall(&mut s, SYSCALL_GET_TIME, [0, 17, 0], 7_000_123, &mut ts, &mut ti);
    assert_eq!(ret, Some(0));
    assert_eq!(ts, TimeVal { sec: 7, usec: 123 });
    assert!(same_record(&ti, &marked_record()));
    assert_eq!(s.task(0).unwrap().syscall_times[SYSCALL_GET_TIME], 1);
    assert_eq!(s.clock(), 1);
}

#[test]
fn unknown_numbers_are_rejected_and_not_counted() {
    let mut s = Scheduler::new();
    s.register();
    sys_yield(&mut s, 1);
    let before = s.task(0).unwrap();
    let mut ti = marked_record();
    let mut ts = TimeVal { sec: 4, usec: 5 };
    for id in [0usize, 1, 64, 92, 94, 123, 125, 411, 499, 500, 501, 100_000, usize::MAX] {
        let ret = syscall(&mut s, id, [1, 2, 3], 10, &mut ts, &mut ti);
        assert_eq!(ret, Some(UNKNOWN_SYSCALL));
        assert!(ret.unwrap() < 0);
    }
    let after = s.task(0).unwrap();
    assert!(same_record(&before, &after));
    assert!(after.syscall_times.iter().all(|&n| n == 0));
    assert_eq!(s.current(), Some(0));
    assert_eq!(s.clock(), 1);
    assert!(same_record(&ti, &marked_record()));
    assert_eq!(ts, TimeVal { sec: 4, usec: 5 });
}

#[test]
fn counters_match_invocations_task_by_task() {
    let mut s = Scheduler::new();
    for _ in 0..3 {
        s.register();
    }
    let mut ti = TaskInfo::init();
    let mut ts = TimeVal { sec: 0, usec: 0 };
    let mut now: usize = 1;
    sys_yield(&mut s, now);
    let mut expected = [[0u32; 3]; 3];
    for round in 0..30usize {
        let who = s.current().unwrap();
        for _ in 0..(round % 4) {
            now += 1;
            syscall(&mut s, SYSCALL_GET_TIME, [0, 0, 0], now, &mut ts, &mut ti);
            expected[who][0] += 1;
        }
        if round % 3 == 0 {
            now += 1;
            syscall(&mut s, SYSCALL_TASK_INFO, [0, 0, 0], now, &mut ts, &mut ti);
            expected[who][1] += 1;
        }
        now += 1;
        syscall(&mut s, SYSCALL_YIELD, [0, 0, 0], now, &mut ts, &mut ti);
        expected[who][2] += 1;
    }
    for id in 0..3 {
        let t = s.task(id).unwrap();
        assert_eq!(t.syscall_times[SYSCALL_GET_TIME], expected[id][0]);
        assert_eq!(t.syscall_times[SYSCALL_TASK_INFO], expected[id][1]);
        assert_eq!(t.syscall_times[SYSCALL_YIELD], expected[id][2]);
        assert_eq!(t.syscall_times[SYSCALL_EXIT], 0);
        let total: u32 = t.syscall_times.iter().sum();
        assert_eq!(total, expected[id][0] + expected[id][1] + expected[id][2]);
    }
}

#[test]
fn three_yields_then_get_time_then_exit() {
    let mut s = Scheduler::new();
    s.register();
    s.register();
    let mut ti = TaskInfo::init();
    let mut ts = TimeVal { sec: 0, usec: 0 };
    let mut now: usize = 1_000;
    sys_yield(&mut s, now);
    assert_eq!(s.current(), Some(0));
    for _ in 0..3 {
        now += 500;
        assert_eq!(syscall(&mut s, SYSCALL_YIELD, [0, 0, 0], now, &mut ts, &mut ti), Some(0));
        assert_eq!(s.current(), Some(1));
        assert_eq!(s.task(0).unwrap().status, TaskStatus::Ready);
        now += 500;
        assert_eq!(sys_yield(&mut s, now), 0);
        assert_eq!(s.current(), Some(0));
    }
    now = 5_250_042;
    assert_eq!(syscall(&mut s, SYSCALL_GET_TIME, [0, 0, 0], now, &mut ts, &mut ti), Some(0));
    assert_eq!(ts.sec, now / 1_000_000);
    assert_eq!(ts.usec, now % 1_000_000);
    assert_eq!(ts.sec * 1_000_000 + ts.usec, now);
    assert_eq!(ts, TimeVal { sec: 5, usec: 250_042 });

    assert_eq!(sys_task_info(&s, &mut ti, now), 0);
    assert!(ti.status == TaskStatus::Running || ti.status == TaskStatus::Ready);
    assert_eq!(ti.status, TaskStatus::Running);
    assert_eq!(ti.syscall_times[SYSCALL_YIELD], 3);
    assert_eq!(ti.syscall_times[SYSCALL_GET_TIME], 1);

    now += 1;
    assert_eq!(syscall(&mut s, SYSCALL_EXIT, [5, 0, 0], now, &mut ts, &mut ti), None);
    let gone = s.task(0).unwrap();
    assert_eq!(gone.status, TaskStatus::Exited);
    assert_eq!(gone.syscall_times[SYSCALL_YIELD], 3);
    assert_eq!(gone.syscall_times[SYSCALL_GET_TIME], 1);
    assert_eq!(gone.syscall_times[SYSCALL_EXIT], 1);
    assert_eq!(s.current(), Some(1));

    for _ in 0..5 {
        now += 100;
        syscall(&mut s, SYSCALL_YIELD, [0, 0, 0], now, &mut ts, &mut ti);
        syscall(&mut s, SYSCALL_GET_TIME, [0, 0, 0], now, &mut ts, &mut ti);
        assert_eq!(s.current(), Some(1));
        let t = s.task(0).unwrap();
        assert!(same_record(&t, &gone));
    }
}

#[test]
fn dispatchable_tests_what_the_dispatcher_needs() {
    let mut s = Scheduler::new();
    assert!(dispatchable(&s, SYSCALL_YIELD, 0));
    assert!(dispatchable(&s, SYSCALL_TASK_INFO, 0));
    assert!(!dispatchable(&s, SYSCALL_EXIT, 0));
    assert!(dispatchable(&s, 12_345, 0));
    s.register();
    sys_yield(&mut s, 100);
    assert!(dispatchable(&s, SYSCALL_EXIT, 100));
    assert!(dispatchable(&s, SYSCALL_EXIT, 101));
    assert!(!dispatchable(&s, SYSCALL_EXIT, 99));
    assert!(!dispatchable(&s, SYSCALL_GET_TIME, 99));
    assert!(!dispatchable(&s, 12_345, 99));
}
