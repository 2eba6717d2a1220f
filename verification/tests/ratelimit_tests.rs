use rapidgate::gateway_core::ratelimit::sliding_window::SlidingWindow;
use rapidgate::gateway_core::ratelimit::{Decision, RateLimiter};

#[test]
fn allows_up_to_rps() {
    let mut lim = SlidingWindow::new(3, 3);
    for _ in 0..3 {
        assert_eq!(lim.check(&"u1".into(), 0).unwrap(), Decision::Allow);
    }
    assert_eq!(lim.check(&"u1".into(), 0).unwrap(), Decision::Deny);
}

#[test]
fn window_slides() {
    // rps 2: window of 500 ms.
    let mut lim = SlidingWindow::new(2, 0);
    assert_eq!(lim.check_at("k", 0), Decision::Allow);
    assert_eq!(lim.check_at("k", 100_000_000), Decision::Allow);
    assert_eq!(lim.check_at("k", 400_000_000), Decision::Deny);
    // 500 ms after the first admission it is still inside the window.
    assert_eq!(lim.check_at("k", 500_000_000), Decision::Deny);
    assert_eq!(lim.check_at("k", 500_000_001), Decision::Allow);
}

#[test]
fn keys_are_independent() {
    let mut lim = SlidingWindow::new(1, 1);
    assert_eq!(lim.check_at("a", 0), Decision::Allow);
    assert_eq!(lim.check_at("a", 0), Decision::Deny);
    assert_eq!(lim.check_at("b", 0), Decision::Allow);
}

#[test]
fn zero_rps_denies_everything() {
    let mut lim = SlidingWindow::new(0, 0);
    assert_eq!(lim.check_at("a", 0), Decision::Deny);
    assert_eq!(lim.check_at("a", 5_000_000_000), Decision::Deny);
}

#[test]
fn never_more_than_rps_within_a_window() {
    // rps 4: window of 250 ms; requests every 40 ms.
    let mut lim = SlidingWindow::new(4, 0);
    let window: u64 = 250_000_000;
    let mut admitted: Vec<u64> = Vec::new();
    for i in 0..100u64 {
        let now = i * 40_000_000;
        if lim.check_at("k", now) == Decision::Allow {
            admitted.push(now);
        }
        let recent = admitted.iter().filter(|&&t| now - t <= window).count();
        assert!(recent <= 4, "{} admitted within the window at {}", recent, now);
    }
    assert!(admitted.len() > 4);
}

#[test]
fn burst_does_not_change_decisions() {
    let mut a = SlidingWindow::new(3, 0);
    let mut b = SlidingWindow::new(3, 50);
    for i in 0..40u64 {
        let now = i * 90_000_000;
        let key = if i % 3 == 0 { "x" } else { "y" };
        assert_eq!(a.check(&key.to_string(), now).unwrap(), b.check(&key.to_string(), now).unwrap());
    }
}
