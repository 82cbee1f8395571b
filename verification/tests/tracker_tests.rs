use hazelnut::tracker::{observe_state, PathState, Signature, Tracker};

fn sig(size: u64, modified: u64) -> Signature {
    Signature { size, modified }
}

#[test]
fn first_sighting_is_never_eligible() {
    let (state, eligible) = observe_state(None, sig(10, 100), 2, 1000);
    assert!(!eligible);
    assert_eq!(
        state,
        PathState { signature: sig(10, 100), stable_scans: 0, last_action: None, missed_scans: 0 }
    );
    let (_, eligible) = observe_state(None, sig(10, 100), 0, 1000);
    assert!(!eligible);
}

#[test]
fn second_identical_scan_is_eligible_with_default_threshold() {
    let (first, _) = observe_state(None, sig(10, 100), 2, 1000);
    let (second, eligible) = observe_state(Some(first), sig(10, 100), 2, 1005);
    assert!(eligible);
    assert_eq!(
        second,
        PathState {
            signature: sig(10, 100),
            stable_scans: 1,
            last_action: Some(1005),
            missed_scans: 0
        }
    );
}

#[test]
fn changing_file_is_never_dispatched() {
    let mut tracker = Tracker::new(2);
    for i in 0..50u64 {
        assert!(!tracker.observe("/d/growing.bin", sig(i, 100 + i), 1000 + i));
    }
    let state = tracker.state_of("/d/growing.bin").unwrap();
    assert_eq!(state.stable_scans, 0);
    assert_eq!(state.last_action, None);
}

#[test]
fn stable_file_is_dispatched_exactly_once() {
    let mut tracker = Tracker::new(2);
    let mut dispatched = 0;
    for i in 0..20u64 {
        if tracker.observe("/d/a.tmp", sig(10, 100), 1000 + i) {
            dispatched += 1;
            assert_eq!(i, 1);
        }
    }
    assert_eq!(dispatched, 1);
    assert_eq!(tracker.state_of("/d/a.tmp").unwrap().last_action, Some(1001));
}

#[test]
fn change_makes_the_file_due_again() {
    let mut tracker = Tracker::new(2);
    assert!(!tracker.observe("/d/a", sig(1, 1), 0));
    assert!(tracker.observe("/d/a", sig(1, 1), 1));
    assert!(!tracker.observe("/d/a", sig(1, 1), 2));
    assert!(!tracker.observe("/d/a", sig(2, 5), 3));
    assert_eq!(tracker.state_of("/d/a").unwrap().last_action, None);
    assert!(tracker.observe("/d/a", sig(2, 5), 4));
    assert!(!tracker.observe("/d/a", sig(2, 5), 5));
}

#[test]
fn higher_threshold_needs_more_scans() {
    let mut tracker = Tracker::new(4);
    assert!(!tracker.observe("/d/a", sig(1, 1), 0));
    assert!(!tracker.observe("/d/a", sig(1, 1), 1));
    assert!(!tracker.observe("/d/a", sig(1, 1), 2));
    assert!(tracker.observe("/d/a", sig(1, 1), 3));
    assert!(!tracker.observe("/d/a", sig(1, 1), 4));
}

#[test]
fn paths_are_tracked_apart() {
    let mut tracker = Tracker::new(2);
    assert!(!tracker.observe("/d/a", sig(1, 1), 0));
    assert!(!tracker.observe("/d/b", sig(1, 1), 0));
    assert_eq!(tracker.len(), 2);
    assert!(tracker.observe("/d/b", sig(1, 1), 1));
    assert!(!tracker.observe("/d/a", sig(2, 1), 1));
    assert_eq!(tracker.len(), 2);
    assert_eq!(tracker.state_of("/d/c"), None);
}

#[test]
fn path_missed_once_is_kept_and_missed_twice_is_forgotten() {
    let mut tracker = Tracker::new(2);
    tracker.begin_scan();
    tracker.observe("/d/a", sig(1, 1), 0);
    tracker.observe("/d/b", sig(1, 1), 0);
    tracker.finish_scan();
    assert_eq!(tracker.len(), 2);

    tracker.begin_scan();
    tracker.observe("/d/a", sig(1, 1), 1);
    tracker.finish_scan();
    assert_eq!(tracker.len(), 2);
    assert_eq!(tracker.state_of("/d/b").unwrap().missed_scans, 1);
    assert_eq!(tracker.state_of("/d/a").unwrap().missed_scans, 0);

    tracker.begin_scan();
    tracker.observe("/d/a", sig(1, 1), 2);
    tracker.finish_scan();
    assert_eq!(tracker.len(), 1);
    assert_eq!(tracker.state_of("/d/b"), None);
    assert!(tracker.state_of("/d/a").is_some());
}

#[test]
fn path_that_comes_back_in_time_keeps_its_state() {
    let mut tracker = Tracker::new(2);
    tracker.begin_scan();
    tracker.observe("/d/a", sig(1, 1), 0);
    tracker.finish_scan();
    tracker.begin_scan();
    assert!(tracker.observe("/d/a", sig(1, 1), 1));
    tracker.finish_scan();
    tracker.begin_scan();
    tracker.finish_scan();
    tracker.begin_scan();
    assert!(!tracker.observe("/d/a", sig(1, 1), 3));
    tracker.finish_scan();
    let state = tracker.state_of("/d/a").unwrap();
    assert_eq!(state.last_action, Some(1));
    assert_eq!(state.missed_scans, 0);
}

#[test]
fn forget_removes_one_path() {
    let mut tracker = Tracker::new(2);
    tracker.observe("/d/a", sig(1, 1), 0);
    tracker.observe("/d/b", sig(1, 1), 0);
    assert!(tracker.forget("/d/a"));
    assert!(!tracker.forget("/d/a"));
    assert_eq!(tracker.len(), 1);
    assert!(tracker.state_of("/d/b").is_some());
    assert!(!tracker.observe("/d/a", sig(1, 1), 1));
}
