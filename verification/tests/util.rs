use matrix_clock::util::{spin_wait, wait_is_over};
use std::time::{Duration, Instant};

#[test]
fn spin_wait_lasts_at_least_as_long_as_asked() {
    let start = Instant::now();
    spin_wait(20);
    assert!(start.elapsed() >= Duration::from_millis(20));
}

#[test]
fn spin_wait_of_nothing_returns_at_once() {
    let start = Instant::now();
    spin_wait(0);
    assert!(start.elapsed() < Duration::from_secs(5));
}

#[test]
fn wait_is_over_once_the_time_has_passed() {
    assert!(wait_is_over(0, 0));
    assert!(!wait_is_over(0, 1));
    assert!(!wait_is_over(19, 20));
    assert!(wait_is_over(20, 20));
    assert!(wait_is_over(21, 20));
    assert!(wait_is_over(u128::MAX, u64::MAX));
    assert!(!wait_is_over(u64::MAX as u128 - 1, u64::MAX));
}
