use crucible::DebounceTracker;

#[test]
fn first_press_passes_and_repeats_wait() {
    let mut t = DebounceTracker::new();
    assert!(t.is_debounced(7, 1000, 2000));
    assert!(t.press(7, 1000, 2000));
    assert!(!t.press(7, 2500, 2000));
    // the held-back press was recorded too
    assert!(!t.press(7, 4000, 2000));
    assert!(t.press(7, 6000, 2000));
    // other keys are tracked apart
    assert!(t.press(8, 6001, 2000));
}

#[test]
fn press_exactly_at_the_interval_passes() {
    let mut t = DebounceTracker::new();
    t.record(1, 0);
    assert!(t.is_debounced(1, 2000, 2000));
    assert!(!t.is_debounced(1, 1999, 2000));
    // a clock that went back holds the press back
    assert!(!t.is_debounced(1, -5, 0));
}
