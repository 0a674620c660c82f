use microfips::peer_policy::{
    PeerPolicy, PolicyVerdict, FRAME_RATE_MAX, FRAME_RATE_WINDOW_MS, MAX_CONSECUTIVE_BAD,
    MAX_CONSECUTIVE_FAILURES, MAX_RECONNECT_MS, MIN_RECONNECT_MS, RECONNECT_BACKOFF_BASE_MS, SILENT_PEER_SECS,
};

/// Node time in microseconds, as the policy counts it.
fn now() -> u64 {
    embassy_time::Instant::now().as_micros()
}

fn millis(ms: u64) -> u64 {
    ms * 1000
}

fn secs(s: u64) -> u64 {
    s * 1_000_000
}

fn assert_backoff(verdict: PolicyVerdict, expected_ms: u64) {
    match verdict {
        PolicyVerdict::Backoff(delay_ms) => {
            assert_eq!(delay_ms, expected_ms);
        }
        other => panic!("expected Backoff({expected_ms}ms), got {other:?}"),
    }
}

#[test]
fn test_new_policy_allows_connect() {
    let policy = PeerPolicy::new();
    assert_eq!(policy.check_reconnect(now()), PolicyVerdict::Allow);
}

#[test]
fn test_rapid_reconnect_backoff() {
    let mut policy = PeerPolicy::new();
    let now = now();
    policy.record_connect_attempt(now);
    assert_backoff(policy.check_reconnect(now), MIN_RECONNECT_MS);
}

#[test]
fn test_backoff_increases_with_failures() {
    let mut policy = PeerPolicy::new();
    let now = now();
    policy.record_handshake_failure(now);

    assert_backoff(
        policy.check_reconnect(now + millis(MIN_RECONNECT_MS - 1)),
        RECONNECT_BACKOFF_BASE_MS - (MIN_RECONNECT_MS - 1),
    );

    assert_eq!(policy.check_reconnect(now + millis(RECONNECT_BACKOFF_BASE_MS)), PolicyVerdict::Allow);

    policy.record_handshake_failure(now + millis(MIN_RECONNECT_MS));
    let after_second = now + millis(MIN_RECONNECT_MS);

    assert_backoff(policy.check_reconnect(after_second), RECONNECT_BACKOFF_BASE_MS * 2);
}

#[test]
fn test_backoff_caps_at_max() {
    let mut policy = PeerPolicy::new();
    let start = now();
    let last_failure = start;

    policy.record_handshake_failure(last_failure);
    for _ in 1..MAX_CONSECUTIVE_FAILURES {
        policy.record_handshake_failure(last_failure);
    }

    assert_backoff(policy.check_reconnect(last_failure), MAX_RECONNECT_MS);

    let after_max = last_failure + millis(MAX_RECONNECT_MS + 1);
    assert_eq!(policy.check_reconnect(after_max), PolicyVerdict::Allow);
}

#[test]
fn test_handshake_ok_resets_failures() {
    let mut policy = PeerPolicy::new();
    let now = now();
    policy.record_handshake_failure(now);
    policy.record_handshake_failure(now + millis(MIN_RECONNECT_MS));

    let ok_at = now + secs(1);
    policy.record_handshake_ok(ok_at);

    assert_eq!(policy.check_reconnect(ok_at + millis(MIN_RECONNECT_MS)), PolicyVerdict::Allow);
}

#[test]
fn test_frame_rate_within_limit() {
    let mut policy = PeerPolicy::new();
    let now = now();
    for _ in 0..FRAME_RATE_MAX {
        assert_eq!(policy.check_frame_rate(now), PolicyVerdict::Allow);
    }
}

#[test]
fn test_frame_rate_exceeded() {
    let mut policy = PeerPolicy::new();
    let now = now();
    for _ in 0..FRAME_RATE_MAX {
        assert_eq!(policy.check_frame_rate(now), PolicyVerdict::Allow);
    }
    assert_eq!(policy.check_frame_rate(now), PolicyVerdict::Reject);
}

#[test]
fn test_frame_rate_window_reset() {
    let mut policy = PeerPolicy::new();
    let start = now();
    for _ in 0..FRAME_RATE_MAX {
        assert_eq!(policy.check_frame_rate(start), PolicyVerdict::Allow);
    }
    assert_eq!(policy.check_frame_rate(start), PolicyVerdict::Reject);

    let next_window = start + millis(FRAME_RATE_WINDOW_MS + 1);
    assert_eq!(policy.check_frame_rate(next_window), PolicyVerdict::Allow);
}

#[test]
fn test_silent_peer_not_detected_early() {
    let mut policy = PeerPolicy::new();
    let start = now();
    policy.record_handshake_ok(start);
    policy.record_heartbeat();

    let early = start + secs(SILENT_PEER_SECS - 1);
    assert_eq!(policy.check_silent_peer(early), PolicyVerdict::Allow);
}

#[test]
fn test_silent_peer_detected() {
    let mut policy = PeerPolicy::new();
    let start = now();
    policy.record_handshake_ok(start);
    policy.record_heartbeat();

    let late = start + secs(SILENT_PEER_SECS + 1);
    assert_eq!(policy.check_silent_peer(late), PolicyVerdict::Reject);
}

#[test]
fn test_silent_peer_not_detected_with_data() {
    let mut policy = PeerPolicy::new();
    let start = now();
    policy.record_handshake_ok(start);
    policy.record_heartbeat();
    policy.record_data_frame();

    let late = start + secs(SILENT_PEER_SECS + 1);
    assert_eq!(policy.check_silent_peer(late), PolicyVerdict::Allow);
}

#[test]
fn test_bad_frame_limit() {
    let mut policy = PeerPolicy::new();
    for _ in 0..MAX_CONSECUTIVE_BAD {
        policy.record_bad_frame();
    }
    assert_eq!(policy.check_bad_frame_limit(), PolicyVerdict::Reject);
}

#[test]
fn test_good_frame_resets_bad_counter() {
    let mut policy = PeerPolicy::new();
    for _ in 0..MAX_CONSECUTIVE_BAD {
        policy.record_bad_frame();
    }
    policy.record_good_frame();
    assert_eq!(policy.check_bad_frame_limit(), PolicyVerdict::Allow);
}

#[test]
fn test_session_reset_clears_counters() {
    let mut policy = PeerPolicy::new();
    let start = now();
    policy.record_handshake_ok(start);
    policy.record_heartbeat();
    policy.record_data_frame();
    policy.record_bad_frame();
    policy.reset_session();

    let late = start + secs(SILENT_PEER_SECS + 1);
    assert_eq!(policy.check_silent_peer(late), PolicyVerdict::Allow);
    assert_eq!(policy.check_bad_frame_limit(), PolicyVerdict::Allow);
}

// --- further cases ---

#[test]
fn backoff_doubles_per_failure_until_cap() {
    let mut policy = PeerPolicy::new_at(0);
    let t = secs(100);
    let expected = [5_000u64, 10_000, 20_000, 40_000, 80_000, 160_000, 300_000, 300_000];
    for e in expected {
        policy.record_handshake_failure(t);
        assert_eq!(policy.check_reconnect(t), PolicyVerdict::Backoff(e));
    }
}

#[test]
fn silent_peer_needs_heartbeats() {
    let mut policy = PeerPolicy::new_at(0);
    policy.record_handshake_ok(0);
    assert_eq!(policy.check_silent_peer(secs(SILENT_PEER_SECS + 5)), PolicyVerdict::Allow);
    policy.force_past_session_start();
    policy.record_heartbeat();
    assert_eq!(policy.check_silent_peer(secs(SILENT_PEER_SECS + 5)), PolicyVerdict::Reject);
}

#[test]
fn session_start_can_be_moved() {
    let mut policy = PeerPolicy::new_at(0);
    policy.record_heartbeat();
    policy.set_session_start(secs(100));
    assert_eq!(policy.check_silent_peer(secs(120)), PolicyVerdict::Allow);
    assert_eq!(policy.check_silent_peer(secs(131)), PolicyVerdict::Reject);
}

#[test]
fn bad_frames_below_limit_allowed() {
    let mut policy = PeerPolicy::new_at(0);
    for _ in 0..MAX_CONSECUTIVE_BAD - 1 {
        policy.record_bad_frame();
    }
    assert_eq!(policy.check_bad_frame_limit(), PolicyVerdict::Allow);
}
