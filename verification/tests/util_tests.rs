use swall_core::util::{next_backoff_delay, Counter, BACKOFF_DELAY_INITIAL_SECS, BACKOFF_DELAY_MAX_SECS};

#[test]
fn test_counter_first_tick_is_zero() {
    let mut c = Counter::new();
    assert_eq!(c.tick(1_000_000), 0);
}

#[test]
fn test_counter_measures_distance() {
    let mut c = Counter::new();
    c.tick(100);
    assert_eq!(c.tick(250), 150);
    assert_eq!(c.tick(250), 0);
    assert_eq!(c.tick(300), 50);
}

#[test]
fn test_counter_backwards_clock_reads_zero() {
    let mut c = Counter::new();
    c.tick(500);
    assert_eq!(c.tick(400), 0);
    // the newer reading is remembered
    assert_eq!(c.tick(450), 50);
}

#[test]
fn test_counter_default_like_new() {
    let mut c = Counter::default();
    assert_eq!(c.tick(42), 0);
    assert_eq!(c.tick(52), 10);
}

#[test]
fn test_backoff_schedule() {
    // initial 1s, increment 2s, cap 15s
    let mut d = BACKOFF_DELAY_INITIAL_SECS;
    let mut seen = vec![d];
    for _ in 0..9 {
        d = next_backoff_delay(d);
        seen.push(d);
    }
    assert_eq!(seen, vec![1, 3, 5, 7, 9, 11, 13, 15, 15, 15]);
    assert_eq!(next_backoff_delay(BACKOFF_DELAY_MAX_SECS), BACKOFF_DELAY_MAX_SECS);
    assert_eq!(next_backoff_delay(14), 15);
}
