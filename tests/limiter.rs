use adsync::RateLimiter;

#[test]
fn fifteen_simultaneous_acquires_admit_ten() {
    let mut l = RateLimiter::per_second(10, 0);
    let mut admitted = 0;
    let mut waits = vec![];
    for _ in 0..15 {
        match l.try_acquire(0) {
            Ok(()) => admitted += 1,
            Err(w) => waits.push(w),
        }
    }
    assert_eq!(admitted, 10);
    // One token refills every 100 ms.
    assert_eq!(waits, vec![100; 5]);
}

#[test]
fn remaining_five_complete_only_after_half_a_second() {
    let mut l = RateLimiter::per_second(10, 0);
    for _ in 0..10 {
        assert!(l.try_acquire(0).is_ok());
    }
    // Five more callers wait for the refill; run them as the waits say.
    let mut done_at = vec![];
    let mut now = 0u64;
    while done_at.len() < 5 {
        match l.try_acquire(now) {
            Ok(()) => done_at.push(now),
            Err(w) => now += w,
        }
    }
    assert_eq!(done_at, vec![100, 200, 300, 400, 500]);
    assert!(*done_at.last().unwrap() >= 500);
}

#[test]
fn partial_refill_asks_for_the_rest_of_a_token() {
    let mut l = RateLimiter::per_second(1, 0);
    assert!(l.try_acquire(0).is_ok());
    assert_eq!(l.try_acquire(250), Err(750));
    assert_eq!(l.credit, 250);
    assert_eq!(l.try_acquire(1000), Ok(()));
    assert_eq!(l.credit, 0);
}

#[test]
fn refill_is_capped_at_capacity() {
    let mut l = RateLimiter::new(5, 10, 0);
    for _ in 0..5 {
        assert!(l.try_acquire(0).is_ok());
    }
    assert!(l.try_acquire(0).is_err());
    // A long idle period refills to capacity, not beyond.
    let mut n = 0;
    while l.try_acquire(1_000_000).is_ok() {
        n += 1;
    }
    assert_eq!(n, 5);
    assert_eq!(l.capacity, 5);
}

#[test]
fn a_clock_that_goes_back_refills_nothing() {
    let mut l = RateLimiter::per_second(2, 1000);
    assert!(l.try_acquire(1000).is_ok());
    assert!(l.try_acquire(1000).is_ok());
    assert_eq!(l.try_acquire(10), Err(500));
    assert_eq!(l.last_ms, 1000);
}

#[test]
fn no_window_of_one_refill_sees_more_than_capacity_plus_one() {
    let mut l = RateLimiter::per_second(10, 0);
    let mut times = vec![];
    let mut now = 0u64;
    while now <= 3000 {
        if l.try_acquire(now).is_ok() {
            times.push(now);
        }
        now += 7;
    }
    for (i, t) in times.iter().enumerate() {
        let in_window = times[i..].iter().take_while(|u| **u <= t + 100).count();
        assert!(in_window <= 11);
    }
}

#[test]
fn huge_elapsed_time_does_not_overflow() {
    let mut l = RateLimiter::new(u32::MAX, u32::MAX, 0);
    assert!(l.try_acquire(u64::MAX).is_ok());
}
