//! Per-peer admission policy: reconnect backoff after failed handshakes,
//! a per-second frame-rate limit, silent-peer detection and a limit on
//! consecutive undecryptable frames. Times are microseconds of node time.
use vstd::prelude::*;
use vstd::arithmetic::power2::{pow2, lemma_pow2_strictly_increases, lemma2_to64};
use vstd::bits::lemma_u64_shl_is_mul;
use crate::clock::{millis_of, now_micros, secs_of};

verus! {

pub const MIN_RECONNECT_MS: u64 = 5_000;
pub const MAX_RECONNECT_MS: u64 = 300_000;
pub const RECONNECT_BACKOFF_BASE_MS: u64 = 5_000;
pub const FRAME_RATE_WINDOW_MS: u64 = 1_000;
pub const FRAME_RATE_MAX: u16 = 100;
pub const SILENT_PEER_SECS: u64 = 30;
pub const SILENT_PEER_MIN_DATA_RATIO: u32 = 1;
pub const MAX_CONSECUTIVE_BAD: u16 = 20;
pub const MAX_CONSECUTIVE_FAILURES: u16 = 20;

/// A policy decision; a backoff carries the remaining wait in milliseconds.
#[derive(Clone, Copy, Debug, PartialEq, Eq, Structural)]
pub enum PolicyVerdict {
    Allow,
    Backoff(u64),
    Reject,
}

/// The state of a peer policy.
pub struct PeerPolicyView {
    pub last_connect: Option<u64>,
    pub consecutive_failures: u16,
    pub frame_count: u16,
    pub frame_window_start: u64,
    pub data_frames_recv: u32,
    pub heartbeats_recv: u32,
    pub session_start: Option<u64>,
    pub consecutive_bad_frames: u16,
}

pub struct PeerPolicy {
    last_connect: Option<u64>,
    consecutive_failures: u16,
    frame_count: u16,
    frame_window_start: u64,
    data_frames_recv: u32,
    heartbeats_recv: u32,
    session_start: Option<u64>,
    consecutive_bad_frames: u16,
}

impl View for PeerPolicy {
    type V = PeerPolicyView;

    closed spec fn view(&self) -> PeerPolicyView {
        PeerPolicyView {
            last_connect: self.last_connect,
            consecutive_failures: self.consecutive_failures,
            frame_count: self.frame_count,
            frame_window_start: self.frame_window_start,
            data_frames_recv: self.data_frames_recv,
            heartbeats_recv: self.heartbeats_recv,
            session_start: self.session_start,
            consecutive_bad_frames: self.consecutive_bad_frames,
        }
    }
}

/// `a - b`, or 0 when `b > a`.
pub open spec fn sat_sub(a: u64, b: u64) -> u64 {
    if a >= b {
        (a - b) as u64
    } else {
        0
    }
}

/// `x + 1`, or `x` at `u16::MAX`.
pub open spec fn sat_inc16(x: u16) -> u16 {
    if x == u16::MAX {
        x
    } else {
        (x + 1) as u16
    }
}

/// `x + 1`, or `x` at `u32::MAX`.
pub open spec fn sat_inc32(x: u32) -> u32 {
    if x == u32::MAX {
        x
    } else {
        (x + 1) as u32
    }
}

/// Backoff owed to consecutive handshake failures: none without failures,
/// 5 s doubling with each further failure, at most 300 s, and 300 s
/// outright from 20 failures on.
pub open spec fn failure_backoff_ms(failures: u16) -> u64 {
    if failures >= MAX_CONSECUTIVE_FAILURES {
        MAX_RECONNECT_MS
    } else if failures == 0 {
        0
    } else {
        let shift: nat = if failures - 1 < 15 {
            (failures - 1) as nat
        } else {
            15
        };
        let b = RECONNECT_BACKOFF_BASE_MS * pow2(shift);
        if b < MAX_RECONNECT_MS {
            b as u64
        } else {
            MAX_RECONNECT_MS
        }
    }
}

/// Time that must pass after the last connect attempt: at least 5 s, and
/// at least the failure backoff.
pub open spec fn required_wait_ms(failures: u16) -> u64 {
    if failure_backoff_ms(failures) > MIN_RECONNECT_MS {
        failure_backoff_ms(failures)
    } else {
        MIN_RECONNECT_MS
    }
}

/// The verdict on reconnecting at `now`.
pub open spec fn spec_check_reconnect(p: PeerPolicyView, now: u64) -> PolicyVerdict {
    match p.last_connect {
        None => PolicyVerdict::Allow,
        Some(lc) => {
            let elapsed = sat_sub(millis_of(now), millis_of(lc));
            let required = required_wait_ms(p.consecutive_failures);
            if elapsed < required {
                PolicyVerdict::Backoff((required - elapsed) as u64)
            } else {
                PolicyVerdict::Allow
            }
        },
    }
}

/// The verdict on one received frame at `now`, and the state after it.
/// A window of one second admits at most `FRAME_RATE_MAX` frames; the
/// frame over the limit is rejected and starts a fresh window.
pub open spec fn spec_check_frame_rate(p: PeerPolicyView, now: u64) -> (PolicyVerdict, PeerPolicyView) {
    let elapsed = sat_sub(millis_of(now), millis_of(p.frame_window_start));
    let (start, count) = if elapsed >= FRAME_RATE_WINDOW_MS {
        (now, 0u16)
    } else {
        (p.frame_window_start, p.frame_count)
    };
    if count >= FRAME_RATE_MAX {
        (PolicyVerdict::Reject, PeerPolicyView { frame_window_start: now, frame_count: 0, ..p })
    } else {
        (
            PolicyVerdict::Allow,
            PeerPolicyView { frame_window_start: start, frame_count: sat_inc16(count), ..p },
        )
    }
}

/// The verdict on a peer that has sent only heartbeats for more than 30 s of session.
pub open spec fn spec_check_silent_peer(p: PeerPolicyView, now: u64) -> PolicyVerdict {
    match p.session_start {
        None => PolicyVerdict::Allow,
        Some(ss) => {
            let session_secs = sat_sub(secs_of(now), secs_of(ss));
            if session_secs > SILENT_PEER_SECS && p.data_frames_recv < SILENT_PEER_MIN_DATA_RATIO
                && p.heartbeats_recv > 0 {
                PolicyVerdict::Reject
            } else {
                PolicyVerdict::Allow
            }
        },
    }
}

/// The verdict on the run of consecutive bad frames.
pub open spec fn spec_check_bad_frame_limit(p: PeerPolicyView) -> PolicyVerdict {
    if p.consecutive_bad_frames >= MAX_CONSECUTIVE_BAD {
        PolicyVerdict::Reject
    } else {
        PolicyVerdict::Allow
    }
}

/// A policy with no history whose frame window starts at `now`.
pub open spec fn spec_fresh_policy(now: u64) -> PeerPolicyView {
    PeerPolicyView {
        last_connect: None,
        consecutive_failures: 0,
        frame_count: 0,
        frame_window_start: now,
        data_frames_recv: 0,
        heartbeats_recv: 0,
        session_start: None,
        consecutive_bad_frames: 0,
    }
}

/// `p` with its session counters cleared.
pub open spec fn spec_reset_session(p: PeerPolicyView) -> PeerPolicyView {
    PeerPolicyView {
        data_frames_recv: 0,
        heartbeats_recv: 0,
        session_start: None,
        consecutive_bad_frames: 0,
        ..p
    }
}

/// `p` after a successful handshake at `now`: failures and the connect
/// time are forgotten and a fresh session starts at `now`.
pub open spec fn spec_record_handshake_ok(p: PeerPolicyView, now: u64) -> PeerPolicyView {
    PeerPolicyView {
        consecutive_failures: 0,
        last_connect: None,
        session_start: Some(now),
        ..spec_reset_session(p)
    }
}

/// `p` after a failed handshake at `now`.
pub open spec fn spec_record_handshake_failure(p: PeerPolicyView, now: u64) -> PeerPolicyView {
    PeerPolicyView {
        consecutive_failures: sat_inc16(p.consecutive_failures),
        last_connect: Some(now),
        ..p
    }
}

fn backoff_for_failures(failures: u16) -> (r: u64)
    ensures
        r == failure_backoff_ms(failures),
{
    if failures >= MAX_CONSECUTIVE_FAILURES {
        MAX_RECONNECT_MS
    } else if failures == 0 {
        0
    } else {
        let shift: u64 = if failures - 1 < 15 {
            (failures - 1) as u64
        } else {
            15
        };
        proof {
            lemma2_to64();
            if shift < 15 {
                lemma_pow2_strictly_increases(shift as nat, 15);
            }
            lemma_u64_shl_is_mul(1, shift);
        }
        let factor: u64 = 1u64 << shift;
        let b = RECONNECT_BACKOFF_BASE_MS * factor;
        if b < MAX_RECONNECT_MS {
            b
        } else {
            MAX_RECONNECT_MS
        }
    }
}

impl PeerPolicy {
    /// A policy with no history whose frame window starts at `now`.
    pub fn new_at(now: u64) -> (r: PeerPolicy)
        ensures
            r@ == spec_fresh_policy(now),
    {
        PeerPolicy {
            last_connect: None,
            consecutive_failures: 0,
            frame_count: 0,
            frame_window_start: now,
            data_frames_recv: 0,
            heartbeats_recv: 0,
            session_start: None,
            consecutive_bad_frames: 0,
        }
    }

    /// A policy with no history whose frame window starts now (by the clock).
    pub fn new() -> (r: PeerPolicy)
        ensures
            exists|t: u64| r@ == spec_fresh_policy(t),
    {
        let now = now_micros();
        PeerPolicy::new_at(now)
    }

    /// Whether reconnecting is allowed at `now`, or how long to wait.
    pub fn check_reconnect(&self, now: u64) -> (v: PolicyVerdict)
        ensures
            v == spec_check_reconnect(self@, now),
    {
        let last_connect = match self.last_connect {
            Some(t) => t,
            None => return PolicyVerdict::Allow,
        };
        let now_ms = now / 1000;
        let last_ms = last_connect / 1000;
        let elapsed_ms = now_ms.saturating_sub(last_ms);
        let failure_backoff_ms = backoff_for_failures(self.consecutive_failures);
        let required_ms = if failure_backoff_ms > MIN_RECONNECT_MS {
            failure_backoff_ms
        } else {
            MIN_RECONNECT_MS
        };
        if elapsed_ms < required_ms {
            PolicyVerdict::Backoff(required_ms - elapsed_ms)
        } else {
            PolicyVerdict::Allow
        }
    }

    /// Counts one received frame against the rate limit at `now`.
    pub fn check_frame_rate(&mut self, now: u64) -> (v: PolicyVerdict)
        ensures
            (v, final(self)@) == spec_check_frame_rate(old(self)@, now),
    {
        let elapsed_ms = (now / 1000).saturating_sub(self.frame_window_start / 1000);
        if elapsed_ms >= FRAME_RATE_WINDOW_MS {
            self.frame_window_start = now;
            self.frame_count = 0;
        }
        if self.frame_count >= FRAME_RATE_MAX {
            self.frame_window_start = now;
            self.frame_count = 0;
            return PolicyVerdict::Reject;
        }
        self.frame_count = self.frame_count.saturating_add(1);
        PolicyVerdict::Allow
    }

    /// A handshake succeeded at `now`: failures and the connect time are
    /// forgotten and a new session starts.
    pub fn record_handshake_ok(&mut self, now: u64)
        ensures
            final(self)@ == spec_record_handshake_ok(old(self)@, now),
    {
        self.consecutive_failures = 0;
        self.last_connect = None;
        self.reset_session();
        self.session_start = Some(now);
    }

    /// A handshake failed at `now`.
    pub fn record_handshake_failure(&mut self, now: u64)
        ensures
            final(self)@ == spec_record_handshake_failure(old(self)@, now),
    {
        self.consecutive_failures = self.consecutive_failures.saturating_add(1);
        self.last_connect = Some(now);
    }

    /// A connection attempt starts at `now`.
    pub fn record_connect_attempt(&mut self, now: u64)
        ensures
            final(self)@ == (PeerPolicyView { last_connect: Some(now), ..old(self)@ }),
    {
        self.last_connect = Some(now);
    }

    pub fn record_data_frame(&mut self)
        ensures
            final(self)@ == (PeerPolicyView {
                data_frames_recv: sat_inc32(old(self)@.data_frames_recv),
                ..old(self)@
            }),
    {
        self.data_frames_recv = self.data_frames_recv.saturating_add(1);
    }

    pub fn record_heartbeat(&mut self)
        ensures
            final(self)@ == (PeerPolicyView {
                heartbeats_recv: sat_inc32(old(self)@.heartbeats_recv),
                ..old(self)@
            }),
    {
        self.heartbeats_recv = self.heartbeats_recv.saturating_add(1);
    }

    pub fn record_bad_frame(&mut self)
        ensures
            final(self)@ == (PeerPolicyView {
                consecutive_bad_frames: sat_inc16(old(self)@.consecutive_bad_frames),
                ..old(self)@
            }),
    {
        self.consecutive_bad_frames = self.consecutive_bad_frames.saturating_add(1);
    }

    pub fn record_good_frame(&mut self)
        ensures
            final(self)@ == (PeerPolicyView { consecutive_bad_frames: 0, ..old(self)@ }),
    {
        self.consecutive_bad_frames = 0;
    }

    /// Whether the session at `now` belongs to a peer that only sends heartbeats.
    pub fn check_silent_peer(&self, now: u64) -> (v: PolicyVerdict)
        ensures
            v == spec_check_silent_peer(self@, now),
    {
        let session_start = match self.session_start {
            Some(t) => t,
            None => return PolicyVerdict::Allow,
        };
        let session_secs = (now / 1_000_000).saturating_sub(session_start / 1_000_000);
        if session_secs > SILENT_PEER_SECS && self.data_frames_recv < SILENT_PEER_MIN_DATA_RATIO
            && self.heartbeats_recv > 0 {
            PolicyVerdict::Reject
        } else {
            PolicyVerdict::Allow
        }
    }

    pub fn check_bad_frame_limit(&self) -> (v: PolicyVerdict)
        ensures
            v == spec_check_bad_frame_limit(self@),
    {
        if self.consecutive_bad_frames >= MAX_CONSECUTIVE_BAD {
            PolicyVerdict::Reject
        } else {
            PolicyVerdict::Allow
        }
    }

    pub fn reset_session(&mut self)
        ensures
            final(self)@ == spec_reset_session(old(self)@),
    {
        self.data_frames_recv = 0;
        self.heartbeats_recv = 0;
        self.session_start = None;
        self.consecutive_bad_frames = 0;
    }

    pub fn set_session_start(&mut self, instant: u64)
        ensures
            final(self)@ == (PeerPolicyView { session_start: Some(instant), ..old(self)@ }),
    {
        self.session_start = Some(instant);
    }

    /// Moves the session start to time zero (used by tests).
    pub fn force_past_session_start(&mut self)
        ensures
            final(self)@ == (PeerPolicyView { session_start: Some(0), ..old(self)@ }),
    {
        self.session_start = Some(0);
    }
}

impl Default for PeerPolicy {
    /// A policy with no history whose frame window starts now (by the clock).
    fn default() -> (r: PeerPolicy)
        ensures
            exists|t: u64| r@ == spec_fresh_policy(t),
    {
        PeerPolicy::new()
    }
}

/// The failure backoff never exceeds the 300 s cap, and more consecutive
/// failures never mean a shorter backoff.
pub proof fn failure_backoff_monotonic(f1: u16, f2: u16)
    requires
        f1 <= f2,
    ensures
        failure_backoff_ms(f1) <= failure_backoff_ms(f2),
        failure_backoff_ms(f2) <= MAX_RECONNECT_MS,
{
    lemma2_to64();
    if 1 <= f1 && f2 < MAX_CONSECUTIVE_FAILURES {
        let s1: nat = if f1 - 1 < 15 { (f1 - 1) as nat } else { 15 };
        let s2: nat = if f2 - 1 < 15 { (f2 - 1) as nat } else { 15 };
        if s1 < s2 {
            lemma_pow2_strictly_increases(s1, s2);
        }
    }
}

/// Below the cap, each further failure doubles the backoff.
pub proof fn failure_backoff_doubles(f: u16)
    requires
        1 <= f,
        f + 1 < MAX_CONSECUTIVE_FAILURES,
        2 * failure_backoff_ms(f) <= MAX_RECONNECT_MS,
    ensures
        failure_backoff_ms((f + 1) as u16) == 2 * failure_backoff_ms(f),
{
    lemma2_to64();
    let s: nat = (f - 1) as nat;
    if s >= 15 {
        lemma_pow2_strictly_increases(6, 15);
    } else {
        vstd::arithmetic::power2::lemma_pow2_unfold(s + 1);
        if s >= 6 {
            lemma_pow2_strictly_increases(6, s);
        }
    }
}

/// A reconnect backoff is never longer than the 300 s cap, and a wait that
/// has run its course is allowed.
pub proof fn reconnect_backoff_bounded(p: PeerPolicyView, now: u64)
    ensures
        spec_check_reconnect(p, now) matches PolicyVerdict::Backoff(d) ==> 0 < d <= MAX_RECONNECT_MS,
        spec_check_reconnect(p, now) != PolicyVerdict::Reject,
        p.last_connect matches Some(lc) && sat_sub(millis_of(now), millis_of(lc)) >= required_wait_ms(
            p.consecutive_failures,
        ) ==> spec_check_reconnect(p, now) == PolicyVerdict::Allow,
{
    failure_backoff_monotonic(p.consecutive_failures, p.consecutive_failures);
}

/// After a successful handshake a reconnect is allowed at once, whatever
/// failures came before.
pub proof fn handshake_ok_allows_reconnect(p: PeerPolicyView, at: u64, now: u64)
    ensures
        spec_check_reconnect(spec_record_handshake_ok(p, at), now) == PolicyVerdict::Allow,
{
}

/// A failed handshake makes an immediate reconnect wait at least the 5 s minimum.
pub proof fn failure_forces_backoff(p: PeerPolicyView, now: u64)
    ensures
        spec_check_reconnect(spec_record_handshake_failure(p, now), now) == PolicyVerdict::Backoff(
            required_wait_ms(sat_inc16(p.consecutive_failures)),
        ),
        required_wait_ms(sat_inc16(p.consecutive_failures)) >= MIN_RECONNECT_MS,
{
}

/// The frame counter never passes the per-window limit, and a full window
/// rejects the next frame that arrives within it.
pub proof fn frame_rate_limit_holds(p: PeerPolicyView, now: u64)
    requires
        p.frame_count <= FRAME_RATE_MAX,
    ensures
        spec_check_frame_rate(p, now).1.frame_count <= FRAME_RATE_MAX,
        p.frame_count == FRAME_RATE_MAX && sat_sub(millis_of(now), millis_of(p.frame_window_start))
            < FRAME_RATE_WINDOW_MS ==> spec_check_frame_rate(p, now).0 == PolicyVerdict::Reject,
        p.frame_count < FRAME_RATE_MAX ==> spec_check_frame_rate(p, now).0 == PolicyVerdict::Allow,
{
}

/// Resetting the session clears the silent-peer and bad-frame verdicts.
pub proof fn reset_session_clears_verdicts(p: PeerPolicyView, now: u64)
    ensures
        spec_check_silent_peer(spec_reset_session(p), now) == PolicyVerdict::Allow,
        spec_check_bad_frame_limit(spec_reset_session(p)) == PolicyVerdict::Allow,
{
}

/// A silent-peer rejection needs a session older than 30 s in which
/// heartbeats but no data frames arrived.
pub proof fn silent_peer_needs_heartbeats_only(p: PeerPolicyView, now: u64)
    ensures
        spec_check_silent_peer(p, now) == PolicyVerdict::Reject ==> {
            &&& p.session_start is Some
            &&& sat_sub(secs_of(now), secs_of(p.session_start->0)) > SILENT_PEER_SECS
            &&& p.data_frames_recv == 0
            &&& p.heartbeats_recv > 0
        },
{
}

/// `p` after one received session message: a heartbeat (`true`, as
/// `record_heartbeat`) or a data frame (`false`, as `record_data_frame`).
pub open spec fn spec_record_event(p: PeerPolicyView, heartbeat: bool) -> PeerPolicyView {
    if heartbeat {
        PeerPolicyView { heartbeats_recv: sat_inc32(p.heartbeats_recv), ..p }
    } else {
        PeerPolicyView { data_frames_recv: sat_inc32(p.data_frames_recv), ..p }
    }
}

/// `p` after the session messages in `events`, in order.
pub open spec fn spec_record_events(p: PeerPolicyView, events: Seq<bool>) -> PeerPolicyView
    decreases events.len(),
{
    if events.len() == 0 {
        p
    } else {
        spec_record_event(spec_record_events(p, events.drop_last()), events.last())
    }
}

/// How many of `events` are heartbeats (`kind == true`) or data frames (`kind == false`).
pub open spec fn count_events(events: Seq<bool>, kind: bool) -> nat
    decreases events.len(),
{
    if events.len() == 0 {
        0
    } else {
        count_events(events.drop_last(), kind) + if events.last() == kind {
            1nat
        } else {
            0nat
        }
    }
}

proof fn lemma_record_events(p: PeerPolicyView, events: Seq<bool>)
    ensures
        spec_record_events(p, events).session_start == p.session_start,
        spec_record_events(p, events).consecutive_bad_frames == p.consecutive_bad_frames,
        (spec_record_events(p, events).heartbeats_recv == 0) == (p.heartbeats_recv == 0 && count_events(events, true) == 0),
        (spec_record_events(p, events).data_frames_recv == 0) == (p.data_frames_recv == 0 && count_events(events, false) == 0),
    decreases events.len(),
{
    if events.len() > 0 {
        lemma_record_events(p, events.drop_last());
    }
}

/// After a session starts at `s` (a successful handshake) and the peer sends
/// the heartbeats and data frames in `events`, the peer is rejected as
/// silent at `now` exactly when more than 30 whole seconds have passed, no
/// data frame came and at least one heartbeat did. With no session started
/// (after a reset) the peer is never rejected as silent.
pub proof fn silent_peer_over_session(p: PeerPolicyView, s: u64, events: Seq<bool>, now: u64)
    ensures
        spec_check_silent_peer(spec_record_events(spec_record_handshake_ok(p, s), events), now) == (if sat_sub(
            secs_of(now),
            secs_of(s),
        ) > SILENT_PEER_SECS && count_events(events, false) == 0 && count_events(events, true) > 0 {
            PolicyVerdict::Reject
        } else {
            PolicyVerdict::Allow
        }),
        spec_check_silent_peer(spec_record_events(spec_reset_session(p), events), now) == PolicyVerdict::Allow,
{
    lemma_record_events(spec_record_handshake_ok(p, s), events);
    lemma_record_events(spec_reset_session(p), events);
}

/// `p` after `b` frames in a row that fail to decrypt.
pub open spec fn spec_record_bad_frames(p: PeerPolicyView, b: nat) -> PeerPolicyView
    decreases b,
{
    if b == 0 {
        p
    } else {
        let q = spec_record_bad_frames(p, (b - 1) as nat);
        PeerPolicyView { consecutive_bad_frames: sat_inc16(q.consecutive_bad_frames), ..q }
    }
}

proof fn lemma_record_bad_frames(p: PeerPolicyView, b: nat)
    requires
        p.consecutive_bad_frames == 0,
    ensures
        spec_record_bad_frames(p, b).consecutive_bad_frames == (if b < u16::MAX { b } else { u16::MAX as nat }),
    decreases b,
{
    if b > 0 {
        lemma_record_bad_frames(p, (b - 1) as nat);
    }
}

/// Counting from a fresh policy, a good frame, a session reset or a
/// successful handshake (each leaves no bad frames counted), `b` bad frames
/// in a row hit the limit exactly when `b` reaches `MAX_CONSECUTIVE_BAD`,
/// and one good frame after them lifts it again.
pub proof fn bad_frame_limit_over_run(p: PeerPolicyView, b: nat)
    requires
        p.consecutive_bad_frames == 0,
    ensures
        spec_check_bad_frame_limit(spec_record_bad_frames(p, b)) == (if b >= MAX_CONSECUTIVE_BAD {
            PolicyVerdict::Reject
        } else {
            PolicyVerdict::Allow
        }),
        spec_check_bad_frame_limit(PeerPolicyView { consecutive_bad_frames: 0, ..spec_record_bad_frames(p, b) })
            == PolicyVerdict::Allow,
{
    lemma_record_bad_frames(p, b);
}

/// The frame-rate window: once a full window (`FRAME_RATE_WINDOW_MS`) has
/// passed since it started, a frame is allowed whatever the old count, and
/// the new window starts at that frame and holds exactly it. Within a
/// window, a frame is allowed and counted while fewer than `FRAME_RATE_MAX`
/// frames were admitted, and rejected once that many were.
pub proof fn frame_rate_window_law(p: PeerPolicyView, now: u64)
    ensures
        sat_sub(millis_of(now), millis_of(p.frame_window_start)) >= FRAME_RATE_WINDOW_MS ==> {
            let (v, q) = spec_check_frame_rate(p, now);
            &&& v == PolicyVerdict::Allow
            &&& q.frame_window_start == now
            &&& q.frame_count == 1
            &&& q.consecutive_bad_frames == p.consecutive_bad_frames
            &&& q.session_start == p.session_start
        },
        sat_sub(millis_of(now), millis_of(p.frame_window_start)) < FRAME_RATE_WINDOW_MS ==> {
            let (v, q) = spec_check_frame_rate(p, now);
            &&& (v == PolicyVerdict::Allow) == (p.frame_count < FRAME_RATE_MAX)
            &&& v == PolicyVerdict::Allow ==> q.frame_count == p.frame_count + 1 && q.frame_window_start
                == p.frame_window_start
        },
{
}

} // verus!
