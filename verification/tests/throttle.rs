use quant_engine::throttle::{OpsThrottle, WINDOW_NANOS};

#[test]
fn grants_up_to_limit_within_a_second() {
    let mut t = OpsThrottle::new(3);
    assert!(t.try_acquire_at(0));
    assert!(t.try_acquire_at(100));
    assert!(t.try_acquire_at(200));
    assert!(!t.try_acquire_at(300));
    assert!(!t.try_acquire_at(WINDOW_NANOS - 1));
}

#[test]
fn window_slides_after_one_second() {
    let mut t = OpsThrottle::new(2);
    assert!(t.try_acquire_at(0));
    assert!(t.try_acquire_at(10));
    assert!(!t.try_acquire_at(20));
    // the stamp at 0 is exactly one second old: it no longer counts
    assert!(t.try_acquire_at(WINDOW_NANOS));
    // 10 is still within the second before WINDOW_NANOS + 9
    assert!(!t.try_acquire_at(WINDOW_NANOS + 9));
    assert!(t.try_acquire_at(WINDOW_NANOS + 10));
}

#[test]
fn zero_limit_never_grants() {
    let mut t = OpsThrottle::new(0);
    assert!(!t.try_acquire_at(0));
    assert!(!t.try_acquire());
}

#[test]
fn rapid_real_clock_acquisitions_are_capped() {
    let mut t = OpsThrottle::new(9);
    let granted = (0..50).filter(|_| t.try_acquire()).count();
    assert_eq!(granted, 9);
}

#[test]
fn at_most_limit_in_any_second_of_a_long_run() {
    let limit = 4u32;
    let mut t = OpsThrottle::new(limit);
    let mut granted: Vec<u128> = Vec::new();
    let mut now: u128 = 0;
    for i in 0..400u128 {
        now += 37_000_000 + (i % 7) * 11_000_000;
        if t.try_acquire_at(now) {
            granted.push(now);
        }
    }
    for &start in &granted {
        let in_window = granted.iter().filter(|&&g| g >= start && g < start + WINDOW_NANOS).count();
        assert!(in_window <= limit as usize, "{in_window} grants in the second from {start}");
    }
    assert!(granted.len() > 40);
}
