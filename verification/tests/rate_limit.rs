use ghost_core::rate_limit::{RateLimitError, RateLimitInfo, RateLimiter};

const IP_RATE_LIMIT: u32 = 100;
const TOKEN_RATE_LIMIT: u32 = 1000;

// The key under which an address like 127.0.0.1 is tracked.
fn ip_key(a: u8, b: u8, c: u8, d: u8) -> u128 {
    u32::from_be_bytes([a, b, c, d]) as u128
}

#[test]
fn test_ip_rate_limit_boundary() {
    let mut limiter = RateLimiter::new();
    let ip = ip_key(127, 0, 0, 1);

    for i in 0..IP_RATE_LIMIT {
        let result = limiter.check_rate_limit(ip, None, 0);
        assert!(result.is_ok(), "Request {} should succeed", i + 1);

        let info = result.unwrap();
        assert_eq!(info.limit, IP_RATE_LIMIT);
        assert_eq!(
            info.remaining,
            IP_RATE_LIMIT - (i + 1),
            "After {} requests, remaining should be {}",
            i + 1,
            IP_RATE_LIMIT - (i + 1)
        );
    }

    let result = limiter.check_rate_limit(ip, None, 0);
    assert!(result.is_err(), "Request 101 should fail");

    match result {
        Err(RateLimitError::LimitExceeded { limit, .. }) => {
            assert_eq!(limit, IP_RATE_LIMIT);
        }
        _ => panic!("Expected LimitExceeded error"),
    }
}

#[test]
fn test_token_rate_limit_boundary() {
    let mut limiter = RateLimiter::new();
    let ip = ip_key(127, 0, 0, 1);
    let token: u128 = 0x746f6b656e; // an opaque token key

    for i in 0..TOKEN_RATE_LIMIT {
        let result = limiter.check_rate_limit(ip, Some(token), 0);
        assert!(result.is_ok(), "Request {} should succeed", i + 1);

        let info = result.unwrap();
        assert_eq!(info.limit, TOKEN_RATE_LIMIT);
        assert_eq!(
            info.remaining,
            TOKEN_RATE_LIMIT - (i + 1),
            "After {} requests, remaining should be {}",
            i + 1,
            TOKEN_RATE_LIMIT - (i + 1)
        );
    }

    let result = limiter.check_rate_limit(ip, Some(token), 0);
    assert!(result.is_err(), "Request 1001 should fail");

    match result {
        Err(RateLimitError::LimitExceeded { limit, .. }) => {
            assert_eq!(limit, TOKEN_RATE_LIMIT);
        }
        _ => panic!("Expected LimitExceeded error"),
    }
}

#[test]
fn test_different_ips() {
    let mut limiter = RateLimiter::new();
    let ip1 = ip_key(127, 0, 0, 1);
    let ip2 = ip_key(127, 0, 0, 2);

    for _ in 0..IP_RATE_LIMIT {
        limiter.check_rate_limit(ip1, None, 0).unwrap();
    }

    let result = limiter.check_rate_limit(ip1, None, 0);
    assert!(result.is_err(), "IP1 should be rate limited");

    let result = limiter.check_rate_limit(ip2, None, 0);
    assert!(result.is_ok(), "IP2 should have separate limit");
}

#[test]
fn test_window_reset() {
    let mut limiter = RateLimiter::new();
    let ip = ip_key(127, 0, 0, 1);

    for _ in 0..10 {
        limiter.check_rate_limit(ip, None, 0).unwrap();
    }

    // 61 seconds later the window has elapsed and the counter starts over.
    let result = limiter.check_rate_limit(ip, None, 61).unwrap();
    assert_eq!(
        result.remaining,
        IP_RATE_LIMIT - 1,
        "After window reset, counter should reset and remaining should be limit - 1"
    );
}

#[test]
fn test_cleanup_expired() {
    let mut limiter = RateLimiter::new();
    let ip1 = ip_key(127, 0, 0, 1);
    let ip2 = ip_key(127, 0, 0, 2);

    limiter.check_rate_limit(ip1, None, 0).unwrap();
    limiter.check_rate_limit(ip2, None, 40).unwrap();

    // At second 61 the first window (started at 0) has fully elapsed, the
    // second (started at 40) has not.
    limiter.cleanup_expired(61);

    // The expired entry is gone: a fresh window starts with the full limit.
    let info = limiter.check_rate_limit(ip1, None, 50).unwrap();
    assert_eq!(info.remaining, IP_RATE_LIMIT - 1, "Expired entry should be removed");

    // The live entry kept its count.
    let info = limiter.check_rate_limit(ip2, None, 50).unwrap();
    assert_eq!(info.remaining, IP_RATE_LIMIT - 2, "Non-expired entry should remain");
}

#[test]
fn reset_timestamp_and_headers() {
    let info = RateLimitInfo { limit: 100, remaining: 73, reset_at: 1060 };
    assert_eq!(info.reset_timestamp(1000), 1060);
    assert_eq!(info.reset_timestamp(2000), 2000);

    let headers = info.to_headers(1000);
    assert_eq!(headers.len(), 3);
    assert_eq!(headers[0].0, "X-RateLimit-Limit");
    assert_eq!(headers[0].1, "100");
    assert_eq!(headers[1].0, "X-RateLimit-Remaining");
    assert_eq!(headers[1].1, "73");
    assert_eq!(headers[2].0, "X-RateLimit-Reset");
    assert_eq!(headers[2].1, "1060");

    // Zero renders as a single digit.
    let zero = RateLimitInfo { limit: 0, remaining: 0, reset_at: 0 };
    let headers = zero.to_headers(0);
    assert_eq!(headers[0].1, "0");
    assert_eq!(headers[1].1, "0");
    assert_eq!(headers[2].1, "0");
}

#[test]
fn error_descriptions() {
    let exceeded = RateLimitError::LimitExceeded { limit: 100, reset_at: 1060 };
    assert_eq!(
        exceeded.to_string(1000),
        "Rate limit exceeded: 100 requests/min (resets in 60 seconds)"
    );
    assert_eq!(
        RateLimitError::InvalidToken.to_string(0),
        "Invalid rate limit token"
    );
}
