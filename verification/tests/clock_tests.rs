use bullethell::clock::{count_rebuilds, RefreshClock};

#[test]
fn tick_accumulates_until_the_interval() {
    let mut clock = RefreshClock::new();
    assert!(!clock.tick(199, 200));
    assert_eq!(clock.elapsed, 199);
    assert!(clock.tick(1, 200));
    assert_eq!(clock.elapsed, 0);
}

#[test]
fn tick_drops_the_remainder_on_fire() {
    let mut clock = RefreshClock::new();
    // 250 overshoots the 200 ms interval; the 50 ms remainder is dropped
    assert!(clock.tick(250, 200));
    assert_eq!(clock.elapsed, 0);
    assert!(!clock.tick(199, 200));
    assert_eq!(clock.elapsed, 199);
}

#[test]
fn cadence_is_frame_rate_independent_when_delta_divides_interval() {
    // the same 20 s simulated duration, subdivided four different ways
    assert_eq!(count_rebuilds(2000, 10, 200), 100);
    assert_eq!(count_rebuilds(1000, 20, 200), 100);
    assert_eq!(count_rebuilds(400, 50, 200), 100);
    assert_eq!(count_rebuilds(100, 200, 200), 100);
}

#[test]
fn cadence_with_typical_frame_time() {
    // a 16 ms frame against a 200 ms interval fires every 13 frames
    assert_eq!(count_rebuilds(12, 16, 200), 0);
    assert_eq!(count_rebuilds(13, 16, 200), 1);
    assert_eq!(count_rebuilds(1300, 16, 200), 100);
}

#[test]
fn cadence_with_coarse_frames_drops_remainders() {
    // 150 ms frames: the scheduler fires every second frame and each fire
    // drops a 100 ms remainder
    assert_eq!(count_rebuilds(10, 150, 200), 5);
}

#[test]
fn no_frames_no_rebuilds() {
    assert_eq!(count_rebuilds(0, 16, 200), 0);
}
