use leadgen::clock::{days_since, posted_recently, Clock};

/// 2026-08-10 00:00:00 UTC.
fn now() -> Clock {
    Clock { secs: 1_786_320_000, nanos: 0, day: 739_838 }
}

#[test]
fn recent_posts_are_within_two_weeks() {
    let n = now();
    assert!(posted_recently("Wed, 05 Aug 2026 18:38:32 +0000", &n));
    assert!(!posted_recently("Wed, 15 Jul 2026 18:38:32 +0000", &n));
    assert!(posted_recently("2026-08-01T00:00:00+00:00", &n));
    assert!(!posted_recently("2026-07-01T00:00:00Z", &n));
    assert!(posted_recently("2026-07-27", &n));
    assert!(!posted_recently("2026-07-26", &n));
    assert!(!posted_recently("yesterday", &n));
}

#[test]
fn days_are_whole_and_signed() {
    let n = now();
    assert_eq!(days_since(&n, 1_786_320_000 - 86_400 * 3, 0), 3);
    assert_eq!(days_since(&n, 1_786_320_000 - 86_399, 0), 0);
    assert_eq!(days_since(&n, 1_786_320_000 + 86_400 * 2, 0), -2);
}
