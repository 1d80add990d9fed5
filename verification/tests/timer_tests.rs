use shmup_core::timer::{Timer, TimerMode};

#[test]
fn timer_once_completes_and_stays_finished() {
    let mut t = Timer::new(1000, TimerMode::Once);
    assert!(!t.tick(400));
    assert!(!t.finished);
    assert_eq!(t.elapsed_ms, 400);
    assert!(t.tick(600));
    assert!(t.finished);
    assert_eq!(t.elapsed_ms, 1000);
    // Stays finished, but only reports the crossing once.
    assert!(!t.tick(500));
    assert!(t.finished);
    assert_eq!(t.elapsed_ms, 1000);
}

#[test]
fn timer_once_overshoot_caps_elapsed() {
    let mut t = Timer::new(250, TimerMode::Once);
    assert!(t.tick(10_000));
    assert_eq!(t.elapsed_ms, 250);
    assert!(t.finished);
}

#[test]
fn timer_repeating_wraps_and_fires_again() {
    let mut t = Timer::new(1000, TimerMode::Repeating);
    assert!(!t.tick(999));
    assert_eq!(t.elapsed_ms, 999);
    assert!(t.tick(1));
    assert_eq!(t.elapsed_ms, 0);
    assert!(t.tick(2500));
    assert_eq!(t.elapsed_ms, 500);
    assert!(!t.tick(499));
    assert_eq!(t.elapsed_ms, 999);
}

#[test]
fn timer_new_starts_empty() {
    let t = Timer::new(3000, TimerMode::Once);
    assert_eq!(t.duration_ms, 3000);
    assert_eq!(t.elapsed_ms, 0);
    assert!(!t.finished);
    assert!(!t.just_finished);
}
