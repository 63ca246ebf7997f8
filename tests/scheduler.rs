use crucible::{input_timeout, next_fire_time, Signals, Wake, Worker};

fn signals(retime: bool, manual: bool) -> Signals {
    Signals { exit_requested: false, retime_requested: retime, manual_trigger_requested: manual }
}

#[test]
fn full_wait_takes_a_scheduled_snapshot() {
    let mut w = Worker::new();
    let mut s = signals(false, true);
    assert_eq!(w.begin_cycle(s, 5000), Some(5000));
    let r = w.on_wake(&mut s, 5000, 5003, 5000);
    assert_eq!(r, Wake::Scheduled);
    assert!(r.takes_snapshot());
    // a trigger raised meanwhile waits for an early wake
    assert!(s.manual_trigger_requested);
    assert_eq!(w.pending, None);
}

#[test]
fn retime_is_honoured_before_a_manual_trigger() {
    let mut w = Worker::new();
    let mut s = signals(true, true);
    assert_eq!(w.begin_cycle(s, 10000), Some(10000));
    let r = w.on_wake(&mut s, 10000, 4000, 3000);
    assert_eq!(r, Wake::Retimed);
    assert!(!r.takes_snapshot());
    assert!(!s.retime_requested);
    assert!(s.manual_trigger_requested);
    assert_eq!(w.pending, Some(1000));
    assert_eq!(w.begin_cycle(s, 3000), Some(1000));
    let r = w.on_wake(&mut s, 1000, 200, 3000);
    assert_eq!(r, Wake::Manual);
    assert!(r.takes_snapshot());
    assert!(!s.manual_trigger_requested);
    assert_eq!(w.pending, Some(2800));
}

#[test]
fn manual_trigger_keeps_the_schedule() {
    let mut w = Worker::new();
    let mut s = signals(false, true);
    assert_eq!(w.begin_cycle(s, 5000), Some(5000));
    assert_eq!(w.on_wake(&mut s, 5000, 1500, 5000), Wake::Manual);
    assert_eq!(w.begin_cycle(s, 5000), Some(3500));
    assert_eq!(w.on_wake(&mut s, 3500, 3500, 5000), Wake::Scheduled);
    assert_eq!(w.begin_cycle(s, 5000), Some(5000));
}

#[test]
fn retime_with_a_longer_interval_carries_nothing() {
    let mut w = Worker::new();
    let mut s = signals(true, false);
    w.begin_cycle(s, 5000);
    assert_eq!(w.on_wake(&mut s, 5000, 2000, 8000), Wake::Retimed);
    assert_eq!(w.pending, Some(0));
}

#[test]
fn spurious_wake_falls_back_to_the_interval() {
    let mut w = Worker::new();
    let mut s = signals(false, false);
    w.begin_cycle(s, 5000);
    assert_eq!(w.on_wake(&mut s, 5000, 10, 5000), Wake::Spurious);
    assert_eq!(w.pending, None);
    assert_eq!(s, signals(false, false));
}

#[test]
fn exit_stops_before_sleeping() {
    let mut w = Worker::new();
    let mut s = signals(false, true);
    w.begin_cycle(s, 5000);
    w.on_wake(&mut s, 5000, 100, 5000);
    let stop = Signals { exit_requested: true, ..s };
    assert_eq!(w.begin_cycle(stop, 5000), None);
    assert_eq!(w.pending, Some(4900));
}

#[test]
fn next_fire_and_input_timeout() {
    assert_eq!(next_fire_time(1000, 5000), 6000);
    assert_eq!(next_fire_time(i64::MAX - 1, 5), i64::MAX);
    assert_eq!(input_timeout(6000, 1000), 4999);
    assert_eq!(input_timeout(6000, 5999), 0);
    assert_eq!(input_timeout(6000, 7000), 0);
}
