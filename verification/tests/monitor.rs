use process_monitor::monitor::{ProcessMonitor, FULL_UPDATE_INTERVAL, TOP_THREADS};
use process_monitor::readings::ThreadReading;
use process_monitor::tracker::UsageTracker;

const SECOND: u64 = 1_000_000_000;

fn readings(list: &[(i32, u64)]) -> Vec<ThreadReading> {
    list.iter().map(|&(tid, cputime)| ThreadReading { tid, cputime }).collect()
}

fn sorted(mut tids: Vec<i32>) -> Vec<i32> {
    tids.sort_unstable();
    tids
}

/// Eight threads, the thread `tid` having consumed `tid` nanoseconds of CPU
/// time per nanosecond since it started at time zero.
fn eight_threads_at(now: u64) -> Vec<ThreadReading> {
    (1..=8).map(|tid| ThreadReading { tid, cputime: tid as u64 * now }).collect()
}

/// A monitor that watches process 100 and has seen the eight threads at two
/// full updates, one and two seconds after it started.
fn established() -> ProcessMonitor {
    let mut monitor = ProcessMonitor::new(0);
    monitor.set_pid(Some(100));
    monitor.full_update(Some(&eight_threads_at(SECOND)), SECOND);
    monitor.full_update(Some(&eight_threads_at(2 * SECOND)), 2 * SECOND);
    monitor
}

#[test]
fn constants_are_five_threads_and_one_second() {
    assert_eq!(TOP_THREADS, 5);
    assert_eq!(FULL_UPDATE_INTERVAL, 1_000_000_000);
}

#[test]
fn new_monitor_is_idle_and_empty() {
    let mut monitor = ProcessMonitor::new(17);
    assert_eq!(monitor.pid(), None);
    assert_eq!(monitor.top_threads(), Vec::<i32>::new());
    assert_eq!(monitor.tracker(1), None);
    assert_eq!(monitor.update_util_max(), None);
    assert!(!monitor.needs_full_update(17 + 5 * SECOND));
}

#[test]
fn set_pid_sets_the_target() {
    let mut monitor = ProcessMonitor::new(0);
    monitor.set_pid(Some(4321));
    assert_eq!(monitor.pid(), Some(4321));
    monitor.set_pid(None);
    assert_eq!(monitor.pid(), None);
}

#[test]
fn full_update_is_due_after_one_second() {
    let mut monitor = ProcessMonitor::new(500);
    monitor.set_pid(Some(1));
    assert!(!monitor.needs_full_update(500));
    assert!(!monitor.needs_full_update(500 + SECOND - 1));
    assert!(monitor.needs_full_update(500 + SECOND));
    assert!(monitor.needs_full_update(u64::MAX));
    assert!(!monitor.needs_full_update(0));
}

#[test]
fn full_update_that_is_not_due_changes_nothing() {
    let mut monitor = ProcessMonitor::new(0);
    monitor.set_pid(Some(1));
    monitor.full_update(Some(&readings(&[(1, 10), (2, 20)])), SECOND - 1);
    assert_eq!(monitor.tracker(1), None);
    assert_eq!(monitor.top_threads(), Vec::<i32>::new());
    assert!(monitor.needs_full_update(SECOND));
}

#[test]
fn full_update_of_an_idle_monitor_changes_nothing() {
    let mut monitor = ProcessMonitor::new(0);
    monitor.full_update(Some(&readings(&[(1, 10), (2, 20)])), 3 * SECOND);
    assert_eq!(monitor.tracker(1), None);
    assert_eq!(monitor.top_threads(), Vec::<i32>::new());
    assert_eq!(monitor.pid(), None);
}

#[test]
fn full_update_tracks_every_thread_from_its_reading() {
    let mut monitor = ProcessMonitor::new(0);
    monitor.set_pid(Some(1));
    monitor.full_update(Some(&readings(&[(11, 10), (12, 20), (13, 30)])), SECOND);
    assert_eq!(monitor.tracker(11), Some(UsageTracker::new(11, 10, SECOND)));
    assert_eq!(monitor.tracker(12), Some(UsageTracker::new(12, 20, SECOND)));
    assert_eq!(monitor.tracker(13), Some(UsageTracker::new(13, 30, SECOND)));
    assert_eq!(monitor.tracker(14), None);
    assert_eq!(sorted(monitor.top_threads()), vec![11, 12, 13]);
    assert_eq!(monitor.top_tracker(12), Some(UsageTracker::new(12, 20, SECOND)));
    assert!(!monitor.needs_full_update(2 * SECOND - 1));
    assert!(monitor.needs_full_update(2 * SECOND));
}

#[test]
fn full_update_rebases_the_trackers_of_all_threads() {
    let monitor = established();
    for tid in 1..=8 {
        let expected = UsageTracker::new(tid, tid as u64 * 2 * SECOND, 2 * SECOND);
        assert_eq!(monitor.tracker(tid), Some(expected));
    }
}

#[test]
fn failed_enumeration_keeps_the_trackers() {
    let mut monitor = established();
    let top = sorted(monitor.top_threads());
    monitor.full_update(None, 3 * SECOND);
    assert_eq!(sorted(monitor.top_threads()), top);
    assert_eq!(monitor.tracker(1), Some(UsageTracker::new(1, 2 * SECOND, 2 * SECOND)));
    assert!(monitor.needs_full_update(3 * SECOND));
}

#[test]
fn the_five_busiest_of_eight_threads_are_kept() {
    let mut monitor = established();
    assert_eq!(sorted(monitor.top_threads()), vec![4, 5, 6, 7, 8]);
    for tid in 1..=3 {
        assert_eq!(monitor.top_tracker(tid), None);
    }
    let now = 2 * SECOND + 300_000_000;
    monitor.publish(&eight_threads_at(now), now);
    assert_eq!(monitor.update_util_max(), Some(8));
}

#[test]
fn never_more_than_five_threads_are_kept() {
    let mut monitor = ProcessMonitor::new(0);
    monitor.set_pid(Some(1));
    for round in 1..=6u64 {
        let now = round * SECOND;
        let threads: Vec<ThreadReading> = (0..40)
            .map(|tid| ThreadReading { tid, cputime: ((tid as u64 * round) % 7) * now })
            .collect();
        monitor.full_update(Some(&threads), now);
        assert_eq!(monitor.top_threads().len(), 5);
        for tid in monitor.top_threads() {
            assert!(monitor.tracker(tid).is_some());
        }
    }
}

#[test]
fn fewer_than_five_threads_are_all_kept() {
    let mut monitor = ProcessMonitor::new(0);
    monitor.set_pid(Some(1));
    monitor.full_update(Some(&readings(&[(1, 0), (2, 0)])), SECOND);
    monitor.full_update(Some(&readings(&[(1, 5 * SECOND), (2, 0), (3, 0)])), 2 * SECOND);
    assert_eq!(sorted(monitor.top_threads()), vec![1, 2, 3]);
    monitor.full_update(Some(&Vec::new()), 3 * SECOND);
    assert_eq!(monitor.top_threads(), Vec::<i32>::new());
    assert_eq!(monitor.tracker(1), None);
}

#[test]
fn equally_busy_threads_fill_the_five_places() {
    let mut monitor = ProcessMonitor::new(0);
    monitor.set_pid(Some(1));
    let first: Vec<ThreadReading> = (1..=9).map(|tid| ThreadReading { tid, cputime: 0 }).collect();
    monitor.full_update(Some(&first), SECOND);
    let second: Vec<ThreadReading> = (1..=9)
        .map(|tid| {
            let cputime = if tid == 6 || tid == 9 { 4 * SECOND } else { SECOND };
            ThreadReading { tid, cputime }
        })
        .collect();
    monitor.full_update(Some(&second), 2 * SECOND);
    let top = monitor.top_threads();
    assert_eq!(top.len(), 5);
    assert!(top.contains(&6));
    assert!(top.contains(&9));
    for tid in top {
        assert!((1..=9).contains(&tid));
    }
}

#[test]
fn thread_is_ranked_by_what_it_consumed_since_the_last_full_update() {
    let mut monitor = ProcessMonitor::new(0);
    monitor.set_pid(Some(1));
    // Thread 1 has consumed much before it was first seen, and little since.
    let threads: Vec<(i32, u64)> = vec![(1, 900 * SECOND), (2, 0), (3, 0), (4, 0), (5, 0), (6, 0)];
    monitor.full_update(Some(&readings(&threads)), SECOND);
    let threads: Vec<(i32, u64)> = vec![
        (1, 900 * SECOND + 1),
        (2, 2 * SECOND),
        (3, 3 * SECOND),
        (4, 4 * SECOND),
        (5, 5 * SECOND),
        (6, 6 * SECOND),
    ];
    monitor.full_update(Some(&readings(&threads)), 2 * SECOND);
    assert_eq!(sorted(monitor.top_threads()), vec![2, 3, 4, 5, 6]);
    assert_eq!(monitor.tracker(1), Some(UsageTracker::new(1, 900 * SECOND + 1, 2 * SECOND)));
}

#[test]
fn thread_that_is_no_longer_read_is_evicted() {
    let mut monitor = establish_three();
    assert_eq!(sorted(monitor.top_threads()), vec![1, 2, 3]);
    monitor.full_update(Some(&readings(&[(1, 9), (3, 9)])), 3 * SECOND);
    assert_eq!(monitor.tracker(2), None);
    assert_eq!(monitor.top_tracker(2), None);
    assert_eq!(sorted(monitor.top_threads()), vec![1, 3]);
    // The id may come back: it then starts from its new reading.
    monitor.full_update(Some(&readings(&[(1, 9), (2, 777), (3, 9)])), 4 * SECOND);
    assert_eq!(monitor.tracker(2), Some(UsageTracker::new(2, 777, 4 * SECOND)));
    assert_eq!(monitor.top_tracker(2), Some(UsageTracker::new(2, 777, 4 * SECOND)));
}

/// A monitor that watches process 1 and has sampled its three threads two
/// seconds after it started, when they had consumed 2, 4 and 6 nanoseconds.
fn establish_three() -> ProcessMonitor {
    let mut monitor = ProcessMonitor::new(0);
    monitor.set_pid(Some(1));
    monitor.full_update(Some(&readings(&[(1, 1), (2, 2), (3, 3)])), SECOND);
    monitor.full_update(Some(&readings(&[(1, 2), (2, 4), (3, 6)])), 2 * SECOND);
    monitor.publish(&readings(&[(1, 2), (2, 4), (3, 6)]), 2 * SECOND);
    assert_eq!(monitor.update_util_max(), Some(0));
    monitor
}

#[test]
fn thread_that_leaves_the_busiest_loses_its_place() {
    let mut monitor = established();
    assert_eq!(sorted(monitor.top_threads()), vec![4, 5, 6, 7, 8]);
    // In the third second only the threads 1 to 5 run.
    let threads: Vec<ThreadReading> = (1..=8)
        .map(|tid| {
            let before = tid as u64 * 2 * SECOND;
            ThreadReading { tid, cputime: if tid <= 5 { before + SECOND } else { before } }
        })
        .collect();
    monitor.full_update(Some(&threads), 3 * SECOND);
    assert_eq!(sorted(monitor.top_threads()), vec![1, 2, 3, 4, 5]);
    assert_eq!(monitor.top_tracker(8), None);
    assert!(monitor.tracker(8).is_some());
}

#[test]
fn busiest_thread_keeps_its_tracker_over_a_full_update() {
    let mut monitor = established();
    let tick = 2 * SECOND + 600_000_000;
    monitor.publish(&eight_threads_at(tick), tick);
    assert_eq!(monitor.top_tracker(8), Some(UsageTracker::new(8, 8 * tick, tick)));
    monitor.full_update(Some(&eight_threads_at(3 * SECOND)), 3 * SECOND);
    assert_eq!(monitor.top_tracker(8), Some(UsageTracker::new(8, 8 * tick, tick)));
    assert_eq!(monitor.tracker(8), Some(UsageTracker::new(8, 24 * SECOND, 3 * SECOND)));
}

#[test]
fn of_two_readings_of_one_thread_the_first_counts() {
    let mut monitor = ProcessMonitor::new(0);
    monitor.set_pid(Some(1));
    monitor.full_update(Some(&readings(&[(1, 10), (2, 20), (1, 99)])), SECOND);
    assert_eq!(monitor.tracker(1), Some(UsageTracker::new(1, 10, SECOND)));
    assert_eq!(sorted(monitor.top_threads()), vec![1, 2]);
}

#[test]
fn tick_publishes_the_highest_usage() {
    let mut monitor = establish_three();
    let now = 2 * SECOND + 100;
    monitor.publish(&readings(&[(1, 2 + 300), (2, 4 + 700), (3, 6 + 500)]), now);
    assert_eq!(monitor.update_util_max(), Some(7));
}

#[test]
fn tick_rebases_the_busiest_threads_only() {
    let mut monitor = establish_three();
    let now = 2 * SECOND + 100;
    monitor.publish(&readings(&[(1, 302), (2, 704), (3, 506)]), now);
    assert_eq!(monitor.top_tracker(2), Some(UsageTracker::new(2, 704, now)));
    assert_eq!(monitor.tracker(2), Some(UsageTracker::new(2, 4, 2 * SECOND)));
    monitor.publish(&readings(&[(1, 302), (2, 904), (3, 506)]), now + 100);
    assert_eq!(monitor.update_util_max(), Some(2));
}

#[test]
fn thread_that_cannot_be_read_at_a_tick_counts_as_idle() {
    let mut monitor = establish_three();
    let now = 2 * SECOND + 100;
    monitor.publish(&readings(&[(1, 302)]), now);
    assert_eq!(monitor.update_util_max(), Some(3));
    assert_eq!(monitor.top_tracker(3), Some(UsageTracker::new(3, 0, now)));
}

#[test]
fn tick_without_busiest_threads_publishes_zero() {
    let mut monitor = ProcessMonitor::new(0);
    monitor.set_pid(Some(1));
    monitor.publish(&readings(&[(1, 500)]), 300);
    assert_eq!(monitor.update_util_max(), Some(0));
}

#[test]
fn idle_monitor_publishes_nothing() {
    let mut monitor = established();
    let tick = 2 * SECOND + 300_000_000;
    monitor.publish(&eight_threads_at(tick), tick);
    monitor.set_pid(None);
    assert_eq!(monitor.update_util_max(), None);
    for tick in 1..=10u64 {
        let now = 2 * SECOND + tick * 300_000_000;
        assert!(!monitor.needs_full_update(now));
        monitor.full_update(Some(&eight_threads_at(now)), now);
        monitor.publish(&eight_threads_at(now), now);
        assert_eq!(monitor.update_util_max(), None);
    }
    monitor.set_pid(Some(5));
    monitor.publish(&Vec::new(), 6 * SECOND);
    assert_eq!(monitor.update_util_max(), Some(0));
}

#[test]
fn poll_hands_out_the_newest_value_once() {
    let mut monitor = establish_three();
    let start = 2 * SECOND;
    monitor.publish(&readings(&[(1, 2 + 100)]), start + 100);
    monitor.publish(&readings(&[(1, 102 + 500)]), start + 200);
    monitor.publish(&readings(&[(1, 602 + 300)]), start + 300);
    assert_eq!(monitor.update_util_max(), Some(3));
    assert_eq!(monitor.update_util_max(), None);
    monitor.publish(&readings(&[(1, 902 + 900)]), start + 400);
    assert_eq!(monitor.update_util_max(), Some(9));
}

#[test]
fn retarget_drops_the_values_that_were_not_polled() {
    let mut monitor = established();
    let tick = 2 * SECOND + 300_000_000;
    monitor.publish(&eight_threads_at(tick), tick);
    monitor.set_pid(Some(200));
    assert_eq!(monitor.update_util_max(), None);
    assert_eq!(monitor.update_util_max(), None);
}

#[test]
fn retarget_to_nothing_drops_the_values_that_were_not_polled() {
    let mut monitor = established();
    for round in 1..=3u64 {
        let tick = 2 * SECOND + round * 300_000_000;
        monitor.publish(&eight_threads_at(tick), tick);
    }
    monitor.set_pid(None);
    assert_eq!(monitor.update_util_max(), None);
    monitor.publish(&eight_threads_at(4 * SECOND), 4 * SECOND);
    monitor.full_update(Some(&eight_threads_at(5 * SECOND)), 5 * SECOND);
    assert_eq!(monitor.update_util_max(), None);
}

#[test]
fn retarget_to_the_same_process_drops_the_values_that_were_not_polled() {
    let mut monitor = established();
    let tick = 2 * SECOND + 300_000_000;
    monitor.publish(&eight_threads_at(tick), tick);
    monitor.set_pid(Some(100));
    assert_eq!(monitor.update_util_max(), None);
}

#[test]
fn only_values_of_the_new_target_wait_after_a_retarget() {
    let mut monitor = established();
    let tick = 2 * SECOND + 300_000_000;
    monitor.publish(&eight_threads_at(tick), tick);
    // 8 waits for the old process and is never polled.
    monitor.set_pid(Some(200));
    let tick = tick + 300_000_000;
    monitor.publish(&eight_threads_at(tick), tick);
    assert_eq!(monitor.update_util_max(), Some(0));
    assert_eq!(monitor.update_util_max(), None);
}

#[test]
fn retarget_drops_every_tracker() {
    let mut monitor = established();
    monitor.set_pid(Some(200));
    assert_eq!(monitor.pid(), Some(200));
    assert_eq!(monitor.top_threads(), Vec::<i32>::new());
    for tid in 1..=8 {
        assert_eq!(monitor.tracker(tid), None);
        assert_eq!(monitor.top_tracker(tid), None);
    }
}

#[test]
fn retarget_to_the_same_process_drops_every_tracker() {
    let mut monitor = established();
    monitor.set_pid(Some(100));
    assert_eq!(monitor.top_threads(), Vec::<i32>::new());
    assert_eq!(monitor.tracker(8), None);
}

#[test]
fn first_value_after_a_retarget_owes_nothing_to_the_old_process() {
    let mut monitor = established();
    let tick = 2 * SECOND + 300_000_000;
    monitor.publish(&eight_threads_at(tick), tick);
    assert_eq!(monitor.update_util_max(), Some(8));

    // The old process goes on and publishes once more before the retarget.
    let tick = tick + 300_000_000;
    monitor.publish(&eight_threads_at(tick), tick);
    monitor.set_pid(Some(200));
    assert_eq!(monitor.update_util_max(), None);
    let tick = tick + 300_000_000;
    // The threads of the old process are still running, and are not asked for.
    assert_eq!(monitor.top_threads(), Vec::<i32>::new());
    monitor.publish(&eight_threads_at(tick), tick);
    assert_eq!(monitor.update_util_max(), Some(0));

    // The new process has two threads with ids that the old one had too.
    monitor.full_update(Some(&readings(&[(7, 1_000), (8, 2_000)])), 3 * SECOND);
    assert_eq!(monitor.tracker(8), Some(UsageTracker::new(8, 2_000, 3 * SECOND)));
    assert_eq!(monitor.top_tracker(8), Some(UsageTracker::new(8, 2_000, 3 * SECOND)));
    monitor.publish(&readings(&[(7, 1_000 + 200), (8, 2_000 + 100)]), 3 * SECOND + 100);
    assert_eq!(monitor.update_util_max(), Some(2));
}
