use process_monitor::readings::{cputime, ThreadReading};
use process_monitor::tracker::UsageTracker;

#[test]
fn new_tracker_starts_from_the_reading() {
    let tracker = UsageTracker::new(42, 1_000, 5_000);
    assert_eq!(tracker.tid, 42);
    assert_eq!(tracker.last_cputime, 1_000);
    assert_eq!(tracker.read_timer, 5_000);
}

#[test]
fn usage_is_cpu_time_over_wall_time() {
    let tracker = UsageTracker::new(1, 2_000_000_000, 10_000_000_000);
    let (_, usage) = tracker.try_calculate(5_000_000_000, 11_000_000_000);
    assert_eq!(usage, 3);
}

#[test]
fn usage_is_rounded_down() {
    let tracker = UsageTracker::new(1, 0, 0);
    let (_, usage) = tracker.try_calculate(5, 2);
    assert_eq!(usage, 2);
    let (_, below_one) = tracker.try_calculate(999_999_999, 1_000_000_000);
    assert_eq!(below_one, 0);
}

#[test]
fn usage_may_exceed_one() {
    let tracker = UsageTracker::new(1, 0, 0);
    let (_, usage) = tracker.try_calculate(u64::MAX, 1);
    assert_eq!(usage, u64::MAX);
}

#[test]
fn sampling_rebases_the_tracker() {
    let tracker = UsageTracker::new(7, 100, 1_000);
    let (rebased, _) = tracker.try_calculate(900, 1_400);
    assert_eq!(rebased, UsageTracker::new(7, 900, 1_400));
    let (_, next) = rebased.try_calculate(1_700, 1_600);
    assert_eq!(next, 4);
}

#[test]
fn usage_reflects_the_delta_since_the_last_sample() {
    let tracker = UsageTracker::new(7, 1_000_000, 0);
    let (after_first, _) = tracker.try_calculate(1_000_500, 100);
    let (_, second) = after_first.try_calculate(1_000_800, 200);
    assert_eq!(second, 3);
}

#[test]
fn sampling_twice_at_one_instant_gives_zero() {
    let tracker = UsageTracker::new(7, 100, 1_000);
    let (rebased, first) = tracker.try_calculate(5_100, 2_000);
    assert_eq!(first, 5);
    let (again, second) = rebased.try_calculate(9_000, 2_000);
    assert_eq!(second, 0);
    assert_eq!(again, UsageTracker::new(7, 9_000, 2_000));
}

#[test]
fn clock_that_went_back_gives_zero() {
    let tracker = UsageTracker::new(7, 100, 1_000);
    let (rebased, usage) = tracker.try_calculate(5_100, 999);
    assert_eq!(usage, 0);
    assert_eq!(rebased, UsageTracker::new(7, 5_100, 999));
}

#[test]
fn counter_that_went_back_gives_zero() {
    let tracker = UsageTracker::new(7, 5_000, 1_000);
    let (rebased, usage) = tracker.try_calculate(0, 2_000);
    assert_eq!(usage, 0);
    assert_eq!(rebased, UsageTracker::new(7, 0, 2_000));
}

#[test]
fn idle_thread_has_no_usage() {
    let tracker = UsageTracker::new(7, 5_000, 1_000);
    let (_, usage) = tracker.try_calculate(5_000, 2_000);
    assert_eq!(usage, 0);
}

#[test]
fn cputime_is_that_of_the_first_reading_of_a_thread() {
    let readings = vec![
        ThreadReading { tid: 3, cputime: 30 },
        ThreadReading { tid: 4, cputime: 40 },
        ThreadReading { tid: 3, cputime: 99 },
    ];
    assert_eq!(cputime(&readings, 3), 30);
    assert_eq!(cputime(&readings, 4), 40);
}

#[test]
fn cputime_of_a_thread_that_was_not_read_is_zero() {
    let readings = vec![ThreadReading { tid: 3, cputime: 30 }];
    assert_eq!(cputime(&readings, 5), 0);
    assert_eq!(cputime(&Vec::new(), 3), 0);
}
