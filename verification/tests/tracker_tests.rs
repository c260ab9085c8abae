use clicky::Count;
use clicky::CountTracker;

#[test]
fn test_count_tracker_with_different_counts() {
    let local_count = Count::default();
    let mut remote_count: u64 = 0;

    let mut tracker = CountTracker {
        local_count,
        previous_remote_count: remote_count,
    };

    tracker.local_count.add(37);
    remote_count += 3;

    let remote_count = tracker.get_new_count(remote_count);
    assert_eq!(remote_count, tracker.local_count.get());
}

#[test]
fn test_count_tracker_with_same_counts() {
    let local_count = Count::default();
    let mut remote_count: u64 = 0;

    let mut tracker = CountTracker {
        local_count,
        previous_remote_count: remote_count,
    };

    tracker.local_count.add(100);
    remote_count += 100;

    let remote_count = tracker.get_new_count(remote_count);
    assert_eq!(remote_count, tracker.local_count.get());
}

#[test]
fn test_remote_count_going_down() {
    let local_count = Count::default();
    let mut remote_count: u64 = 97;

    let mut tracker = CountTracker {
        local_count,
        previous_remote_count: remote_count,
    };

    tracker.local_count.add(97);
    remote_count = 50; // count went down -- this requires manual user intervention
    tracker.local_count.add(3);

    let remote_count = tracker.get_new_count(remote_count);
    assert_eq!(remote_count, 100);
    assert_eq!(remote_count, tracker.local_count.get());
}

#[test]
fn test_remote_concurrent_updates() {
    let mut remote_count: u64 = 0;

    let mut tracker_a = CountTracker {
        local_count: Count::default(),
        previous_remote_count: remote_count,
    };
    let mut tracker_b = CountTracker {
        local_count: Count::default(),
        previous_remote_count: remote_count,
    };

    // R -> 100
    // A -> 100
    // B == 0
    tracker_a.local_count.add(100);
    remote_count = tracker_a.get_new_count(remote_count);
    assert_eq!(remote_count, 100);
    assert_eq!(remote_count, tracker_a.local_count.get());

    // R -> 100
    // A == 100
    // B -> 100
    let remote_count_1 = tracker_b.get_new_count(remote_count);
    assert_eq!(remote_count, remote_count_1);
    assert_eq!(remote_count, tracker_b.local_count.get());

    // R -> 200
    // A == 100
    // B -> 200
    tracker_b.local_count.add(100);
    let remote_count_2 = tracker_b.get_new_count(remote_count);
    assert_eq!(remote_count_2, 200);
    assert_eq!(remote_count_2, tracker_b.local_count.get());
    remote_count = remote_count_2;

    // R == 200
    // A -> 200
    // B == 200
    let remote_count_3 = tracker_a.get_new_count(remote_count);
    assert_eq!(remote_count, remote_count_3);
    assert_eq!(remote_count, tracker_a.local_count.get());

    // R == 200
    // A == 200
    // B == 200
    assert_eq!(tracker_b.local_count.get(), tracker_a.local_count.get());
}

#[test]
fn test_merge_idempotent() {
    // A settled tracker — baseline and counter both at 42 — merged twice
    // against an unchanged remote value returns 42 both times and never
    // moves the counter.
    let mut tracker = CountTracker {
        local_count: Count::default(),
        previous_remote_count: 42,
    };
    tracker.local_count.add(42);
    assert_eq!(tracker.get_new_count(42), 42);
    assert_eq!(tracker.local_count.get(), 42);
    assert_eq!(tracker.get_new_count(42), 42);
    assert_eq!(tracker.local_count.get(), 42);
}

#[test]
fn test_merge_monotonic_on_regression() {
    // With no local growth at all, a regressed remote value still merges to
    // no less than the baseline.
    let mut tracker = CountTracker {
        local_count: Count::default(),
        previous_remote_count: 10,
    };
    tracker.local_count.add(10);
    assert_eq!(tracker.get_new_count(10), 10);
    assert_eq!(tracker.get_new_count(4), 10);
    assert_eq!(tracker.local_count.get(), 10);
}
