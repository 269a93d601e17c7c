use sprocket::time::Time;
use sprocket::timer::Timer;

#[test]
fn time_starts_at_zero() {
    let t = Time::new();
    assert_eq!(t.framecount(), 0);
    assert_eq!(t.delta_raw(), 0);
    assert_eq!(t.elapsed_raw(), 0);
    assert_eq!(t.delta_ms(), 0);
    assert_eq!(t.delta_us(), 0);
}

#[test]
fn update_counts_frames_and_keeps_units_consistent() {
    let mut t = Time::new();
    t.update();
    t.update();
    assert_eq!(t.framecount(), 2);
    let ns = t.delta_raw();
    assert_eq!(t.delta_ms() as u64, ns / 1_000_000);
    assert_eq!(t.delta_us() as u64, ns / 1_000);
}

#[test]
fn stopped_timer_reports_its_stop_span() {
    let mut timer = Timer::start();
    assert!(timer.running());
    assert!(!timer.stopped());
    let d = timer.stop();
    assert!(timer.stopped());
    assert_eq!(timer.duration(), d);
    // Stopping froze the measurement.
    assert_eq!(timer.duration(), d);
}

#[test]
fn timer_without_target_never_signals() {
    let mut timer = Timer::start();
    assert!(!timer.signaled());
    timer.stop();
    assert!(!timer.signaled());
}

#[test]
fn zero_target_signals_at_once() {
    let timer = Timer::with_target(0);
    assert!(timer.signaled());
}

#[test]
fn stopped_timer_signals_by_its_frozen_span() {
    let mut timer = Timer::with_target(u64::MAX);
    let _ = timer.stop();
    // The frozen span cannot reach the largest possible target.
    assert!(!timer.signaled());
}

#[test]
fn remaining_is_none_when_stopped_or_untargeted() {
    let mut plain = Timer::start();
    assert!(plain.remaining().is_none());
    assert!(plain.remaining_ms().is_none());
    assert!(plain.remaining_us().is_none());
    plain.stop();
    assert!(plain.remaining().is_none());

    let mut targeted = Timer::with_target(1_000_000_000);
    let r = targeted.remaining();
    if let Some(x) = r {
        assert!(x <= 1_000_000_000);
    }
    targeted.stop();
    assert!(targeted.remaining().is_none());
}

#[test]
fn restart_resumes_a_stopped_timer() {
    let mut timer = Timer::with_target(u64::MAX);
    timer.stop();
    assert!(timer.stopped());
    timer.restart();
    assert!(timer.running());
    assert!(!timer.signaled());
}
