use jury::clock::ClockState;

#[test]
fn new_clock_is_paused_at_zero() {
    let c = ClockState::new();
    assert_eq!(c.start, 0);
    assert_eq!(c.prev, 0);
    assert!(c.paused);
}

#[test]
fn reset_starts_counting_immediately() {
    let mut c = ClockState::new();
    c.reset();
    assert_eq!(c.start, 0);
    assert_eq!(c.prev, 0);
    assert!(!c.paused);
}

#[test]
fn clock_scenario_reset_pause_resume() {
    // Reset; resume; wait 500 ms; pause; duration is 500; resume; wait
    // 500 ms more; duration is 1000.  Simulated time stands in for the
    // wall clock.
    let mut c = ClockState::new();
    c.reset();
    c.resume_at(0); // already running after reset: no-op
    assert!(!c.paused);
    c.pause_at(500);
    assert_eq!(c.duration_at(500), 500);
    c.resume_at(700);
    assert_eq!(c.duration_at(1200), 1000);
}

#[test]
fn pause_then_resume_preserves_duration() {
    let mut c = ClockState::new();
    c.resume_at(100);
    let before = c.duration_at(350);
    c.pause_at(350);
    assert_eq!(c.duration_at(900), before);
    c.resume_at(900);
    assert_eq!(c.duration_at(900), before);
}

#[test]
fn pause_when_paused_is_noop() {
    let mut c = ClockState::new();
    c.resume_at(10);
    c.pause_at(30);
    let copy = c.get_copy();
    c.pause_at(99);
    assert_eq!(c, copy);
}

#[test]
fn resume_when_running_is_noop() {
    let mut c = ClockState::new();
    c.resume_at(10);
    let copy = c.get_copy();
    c.resume_at(50);
    assert_eq!(c, copy);
}

#[test]
fn get_copy_matches() {
    let mut c = ClockState::new();
    c.resume_at(42);
    let copy = c.get_copy();
    assert_eq!(copy.start, c.start);
    assert_eq!(copy.prev, c.prev);
    assert_eq!(copy.paused, c.paused);
}

#[test]
fn real_clock_runs() {
    let mut c = ClockState::new();
    c.resume();
    let d = c.get_duration();
    c.pause();
    assert!(c.paused);
    assert!(c.get_duration() >= d);
}
