use reactor::timer::TimerSet;

#[test]
fn empty_set_blocks_indefinitely() {
    let timers = TimerSet::new();
    assert_eq!(timers.len(), 0);
    assert_eq!(timers.next_deadline(), None);
    assert_eq!(timers.wait_timeout(123), None);
}

#[test]
fn wait_timeout_is_time_to_nearest_deadline() {
    let mut timers = TimerSet::new();
    timers.insert(150, 1, 101);
    timers.insert(90, 2, 102);
    timers.insert(200, 3, 103);
    assert_eq!(timers.next_deadline(), Some(90));
    // Computed from the nearest deadline, never a near-zero constant.
    assert_eq!(timers.wait_timeout(50), Some(40));
    assert_eq!(timers.wait_timeout(90), Some(0));
    assert_eq!(timers.wait_timeout(100), Some(0));
}

#[test]
fn expired_timers_fire_in_ascending_deadline_order() {
    let mut timers = TimerSet::new();
    timers.insert(30, 1, 101);
    timers.insert(10, 2, 102);
    timers.insert(20, 3, 103);
    timers.insert(40, 4, 104);
    let fired = timers.pop_expired(30);
    let got: Vec<(u64, u64)> = fired.iter().map(|e| (e.deadline, e.callback)).collect();
    assert_eq!(got, vec![(10, 2), (20, 3), (30, 1)]);
    assert_eq!(timers.len(), 1);
    assert_eq!(timers.next_deadline(), Some(40));
}

#[test]
fn fired_timers_are_one_shot() {
    let mut timers = TimerSet::new();
    timers.insert(10, 1, 101);
    let first = timers.pop_expired(10);
    assert_eq!(first.len(), 1);
    let again = timers.pop_expired(1000);
    assert_eq!(again.len(), 0);
    assert_eq!(timers.len(), 0);
}

#[test]
fn no_timer_fires_before_its_deadline() {
    let mut timers = TimerSet::new();
    timers.insert(100, 1, 101);
    assert_eq!(timers.pop_expired(99).len(), 0);
    assert_eq!(timers.len(), 1);
    let fired = timers.pop_expired(100);
    assert_eq!(fired.len(), 1);
    assert_eq!(fired[0].callback, 1);
}

#[test]
fn fired_entries_name_their_completion_cells() {
    let mut timers = TimerSet::new();
    timers.insert(20, 1, 71);
    timers.insert(10, 2, 72);
    let fired = timers.pop_expired(25);
    let got: Vec<(u64, u64)> = fired.iter().map(|e| (e.callback, e.completion)).collect();
    assert_eq!(got, vec![(2, 72), (1, 71)]);
}

#[test]
fn equal_deadlines_fire_in_enqueue_order() {
    let mut timers = TimerSet::new();
    timers.insert(50, 1, 101);
    timers.insert(50, 2, 102);
    timers.insert(50, 3, 103);
    let fired = timers.pop_expired(50);
    let got: Vec<u64> = fired.iter().map(|e| e.callback).collect();
    assert_eq!(got, vec![1, 2, 3]);
}
