use marketplace_kit::ratelimit::RateLimiter;

#[test]
fn test_basic_rate_limit() {
    let mut limiter = RateLimiter::new(2, 60);
    assert!(limiter.check("1.2.3.4"));
    assert!(limiter.check("1.2.3.4"));
    assert!(!limiter.check("1.2.3.4"));
    assert!(limiter.check("5.6.7.8"));
}

#[test]
fn burst_accepts_exactly_max() {
    let mut limiter = RateLimiter::new(3, 60);
    let results: Vec<bool> = (0..5).map(|_| limiter.check_at("ip", 1_000)).collect();
    assert_eq!(results, vec![true, true, true, false, false]);
}

#[test]
fn window_slides() {
    let second: u128 = 1_000_000_000;
    let mut limiter = RateLimiter::new(1, 10);
    assert!(limiter.check_at("a", 0));
    assert!(!limiter.check_at("a", 5 * second));
    // exactly at the window's edge the old request is out (strictly later only)
    assert!(limiter.check_at("a", 10 * second));
    assert!(!limiter.check_at("a", 10 * second + 1));
}

#[test]
fn refused_requests_do_not_extend_the_window() {
    let second: u128 = 1_000_000_000;
    let mut limiter = RateLimiter::new(1, 10);
    assert!(limiter.check_at("a", 0));
    assert!(!limiter.check_at("a", 9 * second));
    assert!(limiter.check_at("a", 10 * second));
}

#[test]
fn zero_limit_refuses_everything() {
    let mut limiter = RateLimiter::new(0, 60);
    assert!(!limiter.check_at("a", 0));
    assert!(!limiter.check("a"));
}

#[test]
fn cleanup_keeps_recent_entries() {
    let second: u128 = 1_000_000_000;
    let mut limiter = RateLimiter::new(1, 10);
    assert!(limiter.check_at("old", 0));
    assert!(limiter.check_at("new", 8 * second));
    limiter.cleanup_at(12 * second);
    assert!(!limiter.check_at("new", 12 * second));
    assert!(limiter.check_at("old", 12 * second));
    limiter.cleanup();
}

#[test]
fn accepted_requests_never_exceed_the_limit_in_any_window() {
    let second: u128 = 1_000_000_000;
    let window = 10 * second;
    let max = 3;
    let mut limiter = RateLimiter::new(max, 10);
    let moments: Vec<u128> = (0..60u128).map(|k| k * second / 2).collect();
    let mut accepted: Vec<u128> = Vec::new();
    for &t in &moments {
        if limiter.check_at("ip", t) {
            let inside = accepted.iter().filter(|&&a| a + window > t).count() + 1;
            assert!(inside <= max, "{} accepted inside the window ending at {}", inside, t);
            accepted.push(t);
        }
    }
    assert!(accepted.len() >= 3 * (30 / 10));
}

#[test]
fn run_of_calls_follows_the_accepted_history() {
    let second: u128 = 1_000_000_000;
    let (max, w) = (3usize, 10u64);
    let mut limiter = RateLimiter::new(max, w);
    let ips = ["a", "b", "c"];
    let mut history: Vec<(&str, u128)> = Vec::new();
    let mut t: u128 = 0;
    for k in 0..200u128 {
        t += (k * 7919 % 5) * second / 2;
        let ip = ips[(k * 31 % 7 % 3) as usize];
        let inside = history
            .iter()
            .filter(|(i, at)| *i == ip && *at + (w as u128) * second > t)
            .count();
        let expected = inside < max;
        assert_eq!(limiter.check_at(ip, t), expected);
        if expected {
            history.push((ip, t));
        }
    }
    let mut real = RateLimiter::new(2, 60);
    assert!(real.check("1.2.3.4"));
    assert!(real.check("1.2.3.4"));
    assert!(!real.check("1.2.3.4"));
    assert!(real.check("5.6.7.8"));
}
