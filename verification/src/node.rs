//! The leaf node's protocol state and the decisions of its session loop.
//!
//! A node reconnects under its peer policy, runs a Noise IK handshake, and
//! then exchanges encrypted frames until the session ends. The waiting,
//! the transport and the Noise arithmetic belong to the caller's loop; this
//! module decides: what to do with each received frame, which message to
//! answer with, when heartbeats and reports are due, how a handshake
//! reacts to what arrives, and how long to back off between sessions.
use vstd::prelude::*;
use vstd::bytes::*;
use crate::bytes_out::spec_write_at;
use crate::aead::spec_noise_nonce;
use crate::established::{
    frame_counter,
    assemble_fits, decrypt_established_frame, encrypt_and_assemble, spec_assemble_established,
    spec_decrypt_established, spec_prepend_inner_header, prepend_inner_header, DecryptedFrame,
    DecryptedFrameView, SessionIndex,
};
pub use crate::link::NodeHandler;
use crate::link::{
    dispatch_link_message_at, handle_result_action, spec_dispatch, spec_handle_result_action, spec_tick_result,
    throughput_idle, FrameAction, HandleResult, LinkDispatch, NoopHandler, ThroughputState,
    DISC_REASON_SHUTDOWN, DISC_REASON_SECURITY_VIOLATION, DISC_REASON_TRANSPORT_FAILURE,
    DISC_REASON_RESOURCE_EXHAUSTION, MSG_DISCONNECT, MSG_HEARTBEAT, MSG_SENDER_REPORT, MSG_SESSION_DATAGRAM,
    SENDER_REPORT_BODY_SIZE,
};
use crate::mmp::{spec_sender_report_body, MmpPeerState};
use crate::peer_policy::{
    spec_check_bad_frame_limit, spec_check_frame_rate, spec_check_reconnect, spec_record_handshake_failure,
    spec_record_handshake_ok, spec_reset_session, PeerPolicy, PeerPolicyView, PolicyVerdict,
};
use vstd::arithmetic::power2::{pow2, lemma2_to64, lemma_pow2_strictly_increases};
use vstd::bits::lemma_u64_shl_is_mul;
use crate::wire::{parse_message, spec_parse_message, FmpMessage, FmpMessageView};
use crate::recv_buffer::{empty_view, spec_append, spec_compact, spec_next_frame, spec_take_frame, RecvBuffer, RecvBufferView};

verus! {

pub const HB_SECS: u64 = 10;
pub const RECV_TIMEOUT_MS: u64 = 30_000;
pub const RETRY_SECS: u64 = 3;
pub const BACKOFF_MAX_SECS: u64 = 60;
pub const MSG1_RESEND_SECS: u64 = 3;
pub const MSG1_RESEND_MAX: u32 = 10;
pub const CONNECT_DELAY_MS: u64 = 500;
pub const MAX_COMPETING_MSG1: u32 = 3;
pub const BACKOFF_MAX_EXPONENT: u32 = 4;
/// Size of one read from the transport.
pub const RECV_BUF_SIZE: usize = 1500;
/// Size of the response buffer handlers and built-in responders write into.
pub const RESP_BUF_SIZE: usize = 256;
/// Largest outgoing established frame.
pub const OUT_BUF_SIZE: usize = 256;
/// Size of the handshake epoch.
pub const EPOCH_SIZE: usize = 8;
/// Size of a compressed secp256k1 public key.
pub const PUBKEY_SIZE: usize = 33;

/// Protocol state events reported to the application.
#[derive(Clone, Copy, Debug, PartialEq, Eq, Structural)]
pub enum NodeEvent {
    /// Transport is ready.
    Connected,
    /// Handshake message 1 has been sent.
    Msg1Sent,
    /// Handshake completed; keys derived.
    HandshakeOk,
    /// A heartbeat was transmitted to the peer.
    HeartbeatSent,
    /// A heartbeat was received from the peer.
    HeartbeatRecv,
    /// Session ended after steady state.
    Disconnected,
    /// Handshake failed.
    Error,
}

/// Why a session or handshake ended.
#[derive(Clone, Copy, Debug, PartialEq, Eq, Structural)]
pub enum ProtocolError {
    Disconnected,
    Timeout,
    InvalidMessage,
    InvalidFrame,
    DecryptFailed,
    Crypto,
}

/// The node's protocol state. The transport and the random source live
/// with the loop that drives it.
pub struct Node {
    policy: PeerPolicy,
    nsec: [u8; 32],
    peer_npub: [u8; 33],
    rbuf: RecvBuffer,
    resp_buf: [u8; 256],
    raw_framing: bool,
    epoch: u64,
    peer_sent_first: bool,
    throughput: ThroughputState,
    mmp: MmpPeerState,
}

/// What the steady state makes of the next buffered frame.
#[derive(Debug)]
pub enum SteadyFrame {
    /// No complete frame is buffered.
    NeedData,
    /// A bad length prefix was skipped.
    Skipped,
    /// The frame exceeded the rate limit and was dropped.
    RateLimited,
    /// Too many consecutive frames failed to decrypt: the session must end.
    BadFrameLimit,
    /// The frame did not decrypt and was dropped.
    Undecryptable,
    /// A decrypted frame.
    Frame(DecryptedFrame),
}

pub enum SteadyFrameView {
    NeedData,
    Skipped,
    RateLimited,
    BadFrameLimit,
    Undecryptable,
    Frame(DecryptedFrameView),
}

impl View for SteadyFrame {
    type V = SteadyFrameView;

    open spec fn view(&self) -> SteadyFrameView {
        match self {
            SteadyFrame::NeedData => SteadyFrameView::NeedData,
            SteadyFrame::Skipped => SteadyFrameView::Skipped,
            SteadyFrame::RateLimited => SteadyFrameView::RateLimited,
            SteadyFrame::BadFrameLimit => SteadyFrameView::BadFrameLimit,
            SteadyFrame::Undecryptable => SteadyFrameView::Undecryptable,
            SteadyFrame::Frame(f) => SteadyFrameView::Frame(f@),
        }
    }
}

/// One steady-state receive step: the outcome, the receive buffer and the
/// policy afterwards. A cut frame is counted against the rate limit, then
/// decrypted with `kr`; its success or failure is recorded, and a run of
/// failures at the limit ends the session.
pub open spec fn spec_steady_frame(rbuf: RecvBufferView, policy: PeerPolicyView, kr: Seq<u8>, raw: bool, now: u64) -> (
    SteadyFrameView,
    RecvBufferView,
    PeerPolicyView,
) {
    match spec_next_frame(rbuf, raw) {
        None => (SteadyFrameView::NeedData, rbuf, policy),
        Some((f, rb2)) => {
            if f.len() == 0 {
                (SteadyFrameView::Skipped, rb2, policy)
            } else {
                let (v, p1) = spec_check_frame_rate(policy, now);
                if v == PolicyVerdict::Reject {
                    (SteadyFrameView::RateLimited, rb2, p1)
                } else {
                    let dec = spec_decrypt_established(kr, f);
                    let p2 = if dec is Some {
                        PeerPolicyView { consecutive_bad_frames: 0, ..p1 }
                    } else {
                        PeerPolicyView {
                            consecutive_bad_frames: crate::peer_policy::sat_inc16(p1.consecutive_bad_frames),
                            ..p1
                        }
                    };
                    if spec_check_bad_frame_limit(p2) == PolicyVerdict::Reject {
                        (SteadyFrameView::BadFrameLimit, rb2, p2)
                    } else {
                        match dec {
                            None => (SteadyFrameView::Undecryptable, rb2, p2),
                            Some(d) => (SteadyFrameView::Frame(d), rb2, p2),
                        }
                    }
                }
            }
        },
    }
}

/// What the node must do after a frame's action.
#[derive(Clone, Copy, Debug, PartialEq, Eq, Structural)]
pub enum Outgoing {
    /// A session datagram carrying the first `len` response bytes.
    Datagram(usize),
    /// A link message of this type carrying the first `len` response bytes.
    Link { msg_type: u8, len: usize },
    /// A disconnect with this reason.
    Disconnect(u8),
    /// A heartbeat.
    Heartbeat,
}

/// The effect of one frame's action: an event to report, a message to
/// send, and whether the steady state ends.
#[derive(Clone, Copy, Debug, PartialEq, Eq, Structural)]
pub struct FrameEffect {
    pub event: Option<NodeEvent>,
    pub send: Option<Outgoing>,
    pub exit: bool,
}

/// The effect of `action`, and the policy afterwards.
pub open spec fn spec_frame_effect(action: FrameAction, p: PeerPolicyView) -> (FrameEffect, PeerPolicyView) {
    match action {
        FrameAction::Continue => (FrameEffect { event: None, send: None, exit: false }, p),
        FrameAction::HeartbeatRecv => (
            FrameEffect { event: Some(NodeEvent::HeartbeatRecv), send: None, exit: false },
            PeerPolicyView { heartbeats_recv: crate::peer_policy::sat_inc32(p.heartbeats_recv), ..p },
        ),
        FrameAction::PeerDC { reason } => (FrameEffect { event: None, send: None, exit: true }, p),
        FrameAction::SelfDC => (
            FrameEffect { event: None, send: Some(Outgoing::Disconnect(DISC_REASON_SHUTDOWN)), exit: true },
            p,
        ),
        FrameAction::SendDatagram(len) => (
            FrameEffect { event: None, send: Some(Outgoing::Datagram(len)), exit: false },
            PeerPolicyView { data_frames_recv: crate::peer_policy::sat_inc32(p.data_frames_recv), ..p },
        ),
        FrameAction::SendLinkMessage { msg_type, len } => (
            FrameEffect { event: None, send: Some(Outgoing::Link { msg_type, len }), exit: false },
            PeerPolicyView { data_frames_recv: crate::peer_policy::sat_inc32(p.data_frames_recv), ..p },
        ),
    }
}

/// Why the steady state ends on the node's own account.
#[derive(Clone, Copy, Debug, PartialEq, Eq, Structural)]
pub enum SteadyStop {
    /// Too many consecutive frames failed to decrypt.
    BadFrameLimit,
    /// The transport failed to receive.
    TransportFailure,
    /// The peer sent heartbeats but no data for too long.
    SilentPeer,
}

/// The disconnect sent to the peer, and the session's result, when the
/// steady state stops for `stop`: each names its reason, and the session
/// ends as disconnected.
pub open spec fn spec_stop_outcome(stop: SteadyStop) -> (Outgoing, Result<(), ProtocolError>) {
    match stop {
        SteadyStop::BadFrameLimit => (Outgoing::Disconnect(DISC_REASON_SECURITY_VIOLATION), Err(ProtocolError::Disconnected)),
        SteadyStop::TransportFailure => (Outgoing::Disconnect(DISC_REASON_TRANSPORT_FAILURE), Err(ProtocolError::Disconnected)),
        SteadyStop::SilentPeer => (Outgoing::Disconnect(DISC_REASON_RESOURCE_EXHAUSTION), Err(ProtocolError::Disconnected)),
    }
}

/// The disconnect to send and the session's result when the steady state stops for `stop`.
pub fn stop_outcome(stop: SteadyStop) -> (r: (Outgoing, Result<(), ProtocolError>))
    ensures
        r == spec_stop_outcome(stop),
{
    match stop {
        SteadyStop::BadFrameLimit => (Outgoing::Disconnect(DISC_REASON_SECURITY_VIOLATION), Err(ProtocolError::Disconnected)),
        SteadyStop::TransportFailure => (Outgoing::Disconnect(DISC_REASON_TRANSPORT_FAILURE), Err(ProtocolError::Disconnected)),
        SteadyStop::SilentPeer => (Outgoing::Disconnect(DISC_REASON_RESOURCE_EXHAUSTION), Err(ProtocolError::Disconnected)),
    }
}

/// The message (type byte first) an outgoing item carries.
pub open spec fn spec_outgoing_msg(out: Outgoing, resp: Seq<u8>) -> Seq<u8> {
    match out {
        Outgoing::Datagram(len) => seq![MSG_SESSION_DATAGRAM] + resp.subrange(0, len as int),
        Outgoing::Link { msg_type, len } => seq![msg_type] + resp.subrange(0, len as int),
        Outgoing::Disconnect(reason) => seq![MSG_DISCONNECT, reason],
        Outgoing::Heartbeat => seq![MSG_HEARTBEAT],
    }
}

/// An outgoing item reads only bytes that the response buffer holds.
pub open spec fn outgoing_ok(out: Outgoing) -> bool {
    match out {
        Outgoing::Datagram(len) => len <= RESP_BUF_SIZE,
        Outgoing::Link { msg_type, len } => len <= RESP_BUF_SIZE,
        _ => true,
    }
}

/// The sender timestamp carried by frames sent at `now`: milliseconds, truncated to 32 bits.
pub open spec fn spec_timestamp(now: u64) -> u32 {
    (now / 1000) as u32
}

/// The frame that carries `msg` as counter `counter` at `now`, or `None`
/// when it does not fit the output buffer.
pub open spec fn spec_sealed(ks: Seq<u8>, them: u32, counter: u64, msg: Seq<u8>, now: u64) -> Option<Seq<u8>> {
    let inner = spec_prepend_inner_header(spec_timestamp(now), msg);
    if assemble_fits(inner.len(), OUT_BUF_SIZE as nat) {
        Some(spec_assemble_established(them, counter, 0, inner, ks))
    } else {
        None
    }
}

/// Timers and the send counter of the steady state; times in microseconds.
/// `sealed` records, in order, the counters of the frames sealed from it.
#[derive(Clone, Copy)]
pub struct SteadyState {
    pub next_hb: u64,
    pub next_sr: u64,
    pub send_ctr: u64,
    pub sealed: Ghost<Seq<u64>>,
}

impl SteadyState {
    /// The counters sealed so far strictly increase and are all below the
    /// next one to be used.
    pub open spec fn counters_wf(&self) -> bool {
        &&& forall|i: int, j: int| 0 <= i < j < self.sealed@.len() ==> self.sealed@[i] < self.sealed@[j]
        &&& forall|i: int| 0 <= i < self.sealed@.len() ==> self.sealed@[i] < self.send_ctr
    }
}

/// What a wake-up of the steady loop at `now` does, in this order: send a
/// heartbeat, then (only when the timer, not received data, woke the loop)
/// check for a silent peer, then send a sender report, then run the
/// handler's timer callback.
#[derive(Clone, Copy, Debug, PartialEq, Eq, Structural)]
pub struct WakePlan {
    pub heartbeat: bool,
    pub check_silent: bool,
    pub report: bool,
    pub tick: bool,
}

/// The plan for a wake-up at `now`; `received` says whether data arrived,
/// `tick` is the handler's own deadline.
pub open spec fn spec_wake_plan(st: SteadyState, received: bool, tick: Option<u64>, now: u64) -> WakePlan {
    WakePlan {
        heartbeat: now >= st.next_hb,
        check_silent: !received && now >= st.next_hb,
        report: now >= st.next_sr,
        tick: tick matches Some(t) && now >= t,
    }
}

/// One heartbeat interval in microseconds.
pub open spec fn hb_interval_us() -> u64 {
    (HB_SECS * 1_000_000) as u64
}

/// The earliest deadline: the next heartbeat or sender report, or the
/// handler's own deadline when it is earlier.
pub open spec fn spec_deadline(st: SteadyState, tick: Option<u64>) -> u64 {
    let base = if st.next_hb < st.next_sr {
        st.next_hb
    } else {
        st.next_sr
    };
    match tick {
        Some(t) => if t < base {
            t
        } else {
            base
        },
        None => base,
    }
}

impl SteadyState {
    /// The time at which the steady loop must wake up.
    pub fn deadline(&self, tick: Option<u64>) -> (r: u64)
        ensures
            r == spec_deadline(*self, tick),
    {
        let base = if self.next_hb < self.next_sr {
            self.next_hb
        } else {
            self.next_sr
        };
        match tick {
            Some(t) => if t < base {
                t
            } else {
                base
            },
            None => base,
        }
    }

    pub fn heartbeat_due(&self, now: u64) -> (r: bool)
        ensures
            r == (now >= self.next_hb),
    {
        now >= self.next_hb
    }

    pub fn report_due(&self, now: u64) -> (r: bool)
        ensures
            r == (now >= self.next_sr),
    {
        now >= self.next_sr
    }

    /// What a wake-up at `now` does (see `WakePlan`).
    pub fn wake_plan(&self, received: bool, tick: Option<u64>, now: u64) -> (p: WakePlan)
        ensures
            p == spec_wake_plan(*self, received, tick, now),
    {
        let tick_due = match tick {
            Some(t) => now >= t,
            None => false,
        };
        WakePlan {
            heartbeat: now >= self.next_hb,
            check_silent: !received && now >= self.next_hb,
            report: now >= self.next_sr,
            tick: tick_due,
        }
    }

    /// A heartbeat went out; the next one is due an interval after `now`.
    pub fn heartbeat_sent(&mut self, now: u64)
        requires
            now + hb_interval_us() <= u64::MAX,
        ensures
            final(self).next_hb == now + hb_interval_us(),
            final(self).next_sr == old(self).next_sr,
            final(self).send_ctr == old(self).send_ctr,
            final(self).sealed == old(self).sealed,
    {
        self.next_hb = now + HB_SECS * 1_000_000;
    }
}

fn append_resp(msg: &mut Vec<u8>, resp: &[u8; 256], len: usize)
    requires
        len <= RESP_BUF_SIZE,
    ensures
        final(msg)@ == old(msg)@ + resp@.subrange(0, len as int),
{
    let ghost start = msg@;
    let mut i: usize = 0;
    while i < len
        invariant
            i <= len <= RESP_BUF_SIZE,
            resp@.len() == RESP_BUF_SIZE,
            msg@ == start + resp@.subrange(0, i as int),
        decreases len - i,
    {
        msg.push(resp[i]);
        i = i + 1;
        assert(msg@ =~= start + resp@.subrange(0, i as int));
    }
}

/// The epoch after `e`, wrapping at `u64::MAX`.
pub open spec fn next_epoch(e: u64) -> u64 {
    if e == u64::MAX {
        0
    } else {
        (e + 1) as u64
    }
}

impl Node {
    pub closed spec fn wf(&self) -> bool {
        self.rbuf.wf()
    }

    pub closed spec fn spec_policy(&self) -> PeerPolicyView {
        self.policy@
    }

    pub closed spec fn spec_rbuf(&self) -> RecvBufferView {
        self.rbuf@
    }

    pub closed spec fn spec_resp(&self) -> Seq<u8> {
        self.resp_buf@
    }

    pub closed spec fn spec_epoch(&self) -> u64 {
        self.epoch
    }

    pub closed spec fn spec_raw_framing(&self) -> bool {
        self.raw_framing
    }

    pub closed spec fn spec_peer_sent_first(&self) -> bool {
        self.peer_sent_first
    }

    pub closed spec fn spec_throughput(&self) -> ThroughputState {
        self.throughput
    }

    pub closed spec fn spec_nsec(&self) -> Seq<u8> {
        self.nsec@
    }

    pub closed spec fn spec_peer_npub(&self) -> Seq<u8> {
        self.peer_npub@
    }

    pub closed spec fn spec_report_start(&self) -> (u64, u32) {
        (self.mmp.sender.interval_start_counter, self.mmp.sender.interval_start_timestamp)
    }

    /// The response buffer holds `RESP_BUF_SIZE` bytes.
    pub proof fn lemma_resp_len(&self)
        ensures
            self.spec_resp().len() == RESP_BUF_SIZE,
    {
    }

    /// A node for identity `nsec` talking to `peer_npub`, with nothing buffered.
    pub fn new(nsec: [u8; 32], peer_npub: [u8; 33]) -> (r: Node)
        ensures
            r.wf(),
            r.spec_nsec() == nsec@,
            r.spec_peer_npub() == peer_npub@,
            r.spec_epoch() == 0,
            !r.spec_raw_framing(),
            !r.spec_peer_sent_first(),
            r.spec_rbuf() == empty_view(),
            r.spec_resp() == Seq::new(RESP_BUF_SIZE as nat, |i: int| 0u8),
            r.spec_throughput() == throughput_idle(),
            exists|t: u64| r.spec_policy() == crate::peer_policy::spec_fresh_policy(t),
    {
        let r = Node {
            policy: PeerPolicy::new(),
            nsec,
            peer_npub,
            rbuf: RecvBuffer::new(),
            resp_buf: [0u8; 256],
            raw_framing: false,
            epoch: 0,
            peer_sent_first: false,
            throughput: ThroughputState::default(),
            mmp: MmpPeerState::new(),
        };
        assert(r.resp_buf@ =~= Seq::new(RESP_BUF_SIZE as nat, |i: int| 0u8));
        r
    }

    /// Enables or disables raw FMP framing (no 2-byte length prefix; frame
    /// boundaries come from the FMP common prefix).
    pub fn set_raw_framing(&mut self, raw: bool)
        ensures
            final(self).spec_raw_framing() == raw,
            final(self).wf() == old(self).wf(),
            final(self).spec_rbuf() == old(self).spec_rbuf(),
            final(self).spec_policy() == old(self).spec_policy(),
            final(self).spec_peer_sent_first() == old(self).spec_peer_sent_first(),
            final(self).spec_epoch() == old(self).spec_epoch(),
    {
        self.raw_framing = raw;
    }

    /// Records that the peer sends handshake message 1 first, so this node
    /// answers as responder instead of sending its own.
    pub fn set_peer_sent_first(&mut self, sent: bool)
        ensures
            final(self).spec_peer_sent_first() == sent,
            final(self).wf() == old(self).wf(),
            final(self).spec_rbuf() == old(self).spec_rbuf(),
            final(self).spec_policy() == old(self).spec_policy(),
            final(self).spec_raw_framing() == old(self).spec_raw_framing(),
            final(self).spec_epoch() == old(self).spec_epoch(),
    {
        self.peer_sent_first = sent;
    }

    pub fn raw_framing(&self) -> (r: bool)
        ensures
            r == self.spec_raw_framing(),
    {
        self.raw_framing
    }

    pub fn peer_sent_first(&self) -> (r: bool)
        ensures
            r == self.spec_peer_sent_first(),
    {
        self.peer_sent_first
    }

    pub fn nsec(&self) -> (r: [u8; 32])
        ensures
            r@ == self.spec_nsec(),
    {
        self.nsec
    }

    pub fn peer_npub(&self) -> (r: [u8; 33])
        ensures
            r@ == self.spec_peer_npub(),
    {
        self.peer_npub
    }

    pub fn epoch(&self) -> (r: u64)
        ensures
            r == self.spec_epoch(),
    {
        self.epoch
    }

    pub fn set_epoch(&mut self, epoch: u64)
        ensures
            final(self).spec_epoch() == epoch,
            final(self).wf() == old(self).wf(),
    {
        self.epoch = epoch;
    }

    /// Moves to the next handshake epoch and returns it little-endian.
    pub fn advance_epoch(&mut self) -> (r: [u8; 8])
        ensures
            final(self).spec_epoch() == next_epoch(old(self).spec_epoch()),
            r@ == spec_u64_to_le_bytes(next_epoch(old(self).spec_epoch())),
            final(self).wf() == old(self).wf(),
            final(self).spec_rbuf() == old(self).spec_rbuf(),
            final(self).spec_policy() == old(self).spec_policy(),
    {
        self.epoch = if self.epoch == u64::MAX {
            0
        } else {
            self.epoch + 1
        };
        proof {
            lemma_auto_spec_u64_to_from_le_bytes();
        }
        let b = u64_to_le_bytes(self.epoch);
        let r = [b[0], b[1], b[2], b[3], b[4], b[5], b[6], b[7]];
        assert(r@ =~= b@);
        r
    }

    /// Whether a new session may start at `now`, or how long to back off.
    pub fn check_reconnect(&self, now: u64) -> (v: PolicyVerdict)
        ensures
            v == spec_check_reconnect(self.spec_policy(), now),
    {
        self.policy.check_reconnect(now)
    }

    /// A session attempt starts at `now`.
    pub fn record_connect_attempt(&mut self, now: u64)
        ensures
            final(self).spec_policy() == (PeerPolicyView { last_connect: Some(now), ..old(self).spec_policy() }),
            final(self).wf() == old(self).wf(),
            final(self).spec_rbuf() == old(self).spec_rbuf(),
            final(self).spec_epoch() == old(self).spec_epoch(),
    {
        self.policy.record_connect_attempt(now);
    }

    /// Prepares a session once the transport is ready: moves to the next
    /// epoch (returned little-endian), drops buffered bytes and any
    /// throughput test.
    pub fn begin_session(&mut self) -> (epoch: [u8; 8])
        requires
            old(self).wf(),
        ensures
            final(self).wf(),
            final(self).spec_epoch() == next_epoch(old(self).spec_epoch()),
            epoch@ == spec_u64_to_le_bytes(next_epoch(old(self).spec_epoch())),
            final(self).spec_rbuf() == empty_view(),
            final(self).spec_throughput() == throughput_idle(),
            final(self).spec_policy() == old(self).spec_policy(),
    {
        let epoch = self.advance_epoch();
        self.rbuf.reset();
        self.throughput = ThroughputState::default();
        epoch
    }

    /// Records how the handshake ended at `now`: success starts a session
    /// in the policy, failure counts toward backoff; either way the previous
    /// session's counters are cleared.
    pub fn finish_handshake(&mut self, ok: bool, now: u64)
        ensures
            final(self).wf() == old(self).wf(),
            final(self).spec_rbuf() == old(self).spec_rbuf(),
            final(self).spec_epoch() == old(self).spec_epoch(),
            ok ==> final(self).spec_policy() == spec_record_handshake_ok(old(self).spec_policy(), now),
            !ok ==> final(self).spec_policy() == spec_reset_session(
                spec_record_handshake_failure(old(self).spec_policy(), now),
            ),
    {
        if ok {
            self.policy.record_handshake_ok(now);
        } else {
            self.policy.record_handshake_failure(now);
            self.policy.reset_session();
        }
    }

    /// The steady state ended: the session's counters are cleared.
    pub fn finish_steady(&mut self)
        ensures
            final(self).wf() == old(self).wf(),
            final(self).spec_rbuf() == old(self).spec_rbuf(),
            final(self).spec_policy() == spec_reset_session(old(self).spec_policy()),
    {
        self.policy.reset_session();
    }

    /// After a heartbeat sent because the timer fired: whether the steady
    /// state stops at `now` because the peer has been silent too long.
    pub fn silent_peer_stop(&self, now: u64) -> (r: Option<SteadyStop>)
        ensures
            r == (if crate::peer_policy::spec_check_silent_peer(self.spec_policy(), now) == PolicyVerdict::Reject {
                Some(SteadyStop::SilentPeer)
            } else {
                None
            }),
    {
        if self.policy.check_silent_peer(now) == PolicyVerdict::Reject {
            Some(SteadyStop::SilentPeer)
        } else {
            None
        }
    }

    /// Whether the peer has been silent too long at `now`.
    pub fn check_silent_peer(&self, now: u64) -> (v: PolicyVerdict)
        ensures
            v == crate::peer_policy::spec_check_silent_peer(self.spec_policy(), now),
    {
        self.policy.check_silent_peer(now)
    }

    /// The 2-byte little-endian length header sent before a frame, or `None`
    /// in raw framing mode. The length is taken modulo 2^16.
    pub fn frame_header(&self, payload_len: usize) -> (r: Option<[u8; 2]>)
        ensures
            self.spec_raw_framing() ==> r is None,
            !self.spec_raw_framing() ==> (r matches Some(h) && h@ == spec_u16_to_le_bytes(
                (payload_len % 65536) as u16,
            )),
    {
        if self.raw_framing {
            return None;
        }
        proof {
            lemma_auto_spec_u16_to_from_le_bytes();
        }
        let len16 = (payload_len % 65536) as u16;
        let b = u16_to_le_bytes(len16);
        let h = [b[0], b[1]];
        assert(h@ =~= b@);
        Some(h)
    }

    /// Appends bytes read from the transport; when they would overflow the
    /// buffer, everything buffered is dropped and `false` returned.
    pub fn push_received(&mut self, chunk: &[u8]) -> (r: bool)
        requires
            old(self).wf(),
        ensures
            final(self).wf(),
            r == (old(self).spec_rbuf().data.len() + chunk@.len() <= crate::recv_buffer::RBUF_SIZE),
            final(self).spec_rbuf() == spec_append(old(self).spec_rbuf(), chunk@),
            final(self).spec_policy() == old(self).spec_policy(),
            final(self).spec_raw_framing() == old(self).spec_raw_framing(),
    {
        self.rbuf.append(chunk)
    }

    /// Moves unread received bytes to the front of the buffer.
    pub fn compact_received(&mut self)
        requires
            old(self).wf(),
        ensures
            final(self).wf(),
            final(self).spec_rbuf() == spec_compact(old(self).spec_rbuf()),
            final(self).spec_policy() == old(self).spec_policy(),
            final(self).spec_raw_framing() == old(self).spec_raw_framing(),
    {
        self.rbuf.compact();
    }

    /// Takes the next complete non-empty frame from the receive buffer into
    /// `out` (truncated to its length), as the handshake reads frames.
    pub fn take_frame(&mut self, out: &mut [u8]) -> (r: Option<usize>)
        requires
            old(self).wf(),
        ensures
            final(self).wf(),
            final(self).spec_policy() == old(self).spec_policy(),
            final(self).spec_raw_framing() == old(self).spec_raw_framing(),
            match spec_take_frame(old(self).spec_rbuf(), old(self).spec_raw_framing()) {
                Some((f, v)) => {
                    let l = if f.len() < old(out)@.len() { f.len() } else { old(out)@.len() };
                    &&& r == Some(l as usize)
                    &&& final(self).spec_rbuf() == v
                    &&& final(out)@ == spec_write_at(old(out)@, 0, f.subrange(0, l as int))
                },
                None => r is None && final(out)@ == old(out)@,
            },
    {
        let raw = self.raw_framing;
        self.rbuf.take_frame(raw, out)
    }

    /// Drops all received bytes.
    pub fn reset_received(&mut self)
        requires
            old(self).wf(),
        ensures
            final(self).wf(),
            final(self).spec_rbuf() == empty_view(),
            final(self).spec_policy() == old(self).spec_policy(),
            final(self).spec_raw_framing() == old(self).spec_raw_framing(),
    {
        self.rbuf.reset();
    }

    /// Takes the next buffered frame in steady state and decides what it is,
    /// at time `now`, under receive key `kr`.
    pub fn steady_frame(&mut self, kr: &[u8; 32], now: u64) -> (r: SteadyFrame)
        requires
            old(self).wf(),
        ensures
            final(self).wf(),
            (r@, final(self).spec_rbuf(), final(self).spec_policy()) == spec_steady_frame(
                old(self).spec_rbuf(),
                old(self).spec_policy(),
                kr@,
                old(self).spec_raw_framing(),
                now,
            ),
            final(self).spec_raw_framing() == old(self).spec_raw_framing(),
            final(self).spec_resp() == old(self).spec_resp(),
            final(self).spec_throughput() == old(self).spec_throughput(),
            final(self).spec_epoch() == old(self).spec_epoch(),
            final(self).spec_report_start() == old(self).spec_report_start(),
    {
        let raw = self.raw_framing;
        let frame_data = match self.rbuf.next_frame(raw) {
            None => return SteadyFrame::NeedData,
            Some(f) => f,
        };
        if frame_data.len() == 0 {
            return SteadyFrame::Skipped;
        }
        if self.policy.check_frame_rate(now) == PolicyVerdict::Reject {
            return SteadyFrame::RateLimited;
        }
        let frame = decrypt_established_frame(kr, frame_data.as_slice());
        if frame.is_some() {
            self.policy.record_good_frame();
        } else {
            self.policy.record_bad_frame();
        }
        if self.policy.check_bad_frame_limit() == PolicyVerdict::Reject {
            return SteadyFrame::BadFrameLimit;
        }
        match frame {
            None => SteadyFrame::Undecryptable,
            Some(f) => {
                self.mmp.receiver.record_recv(f.counter, f.frame_bytes);
                SteadyFrame::Frame(f)
            },
        }
    }

    /// Decides what a decrypted frame asks for at `now` (built-in answers are
    /// written into the response buffer).
    pub fn dispatch(&mut self, frame: &DecryptedFrame, now: u64) -> (d: LinkDispatch)
        requires
            old(self).wf(),
        ensures
            final(self).wf(),
            (d, final(self).spec_throughput(), final(self).spec_resp()) == spec_dispatch(
                frame@,
                old(self).spec_throughput(),
                old(self).spec_resp(),
                now,
            ),
            final(self).spec_policy() == old(self).spec_policy(),
            final(self).spec_rbuf() == old(self).spec_rbuf(),
            final(self).spec_report_start() == old(self).spec_report_start(),
    {
        dispatch_link_message_at(frame, &mut self.throughput, &mut self.resp_buf, now)
    }

    /// Hands a frame to the application handler, once, with the frame's type
    /// and payload, and turns its answer into an action; the handler writes
    /// any response into the response buffer.
    pub fn deliver<H: NodeHandler>(&mut self, frame: &DecryptedFrame, handler: &mut H) -> (a: FrameAction)
        requires
            old(self).wf(),
        ensures
            final(self).wf(),
            H::obeys_handler_spec() ==> ({
                let (h, r) = old(handler).message_answer(frame.msg_type, frame.payload@, old(self).spec_resp());
                &&& a == spec_handle_result_action(h)
                &&& final(self).spec_resp() == r
            }),
            a matches FrameAction::SendDatagram(len) ==> len <= RESP_BUF_SIZE,
            final(self).spec_policy() == old(self).spec_policy(),
            final(self).spec_rbuf() == old(self).spec_rbuf(),
            final(self).spec_throughput() == old(self).spec_throughput(),
            final(self).spec_report_start() == old(self).spec_report_start(),
    {
        let h = handler.on_message(frame.msg_type, frame.payload.as_slice(), &mut self.resp_buf);
        handle_result_action(h)
    }

    /// Runs the application's timer callback, once: the length of a datagram
    /// it asks to send from the response buffer, which always fits in that
    /// buffer; the handler writes the datagram into the response buffer.
    pub fn tick<H: NodeHandler>(&mut self, handler: &mut H) -> (r: Option<usize>)
        requires
            old(self).wf(),
        ensures
            final(self).wf(),
            H::obeys_handler_spec() ==> ({
                let (h, b) = old(handler).tick_answer(old(self).spec_resp());
                &&& r == spec_tick_result(h)
                &&& final(self).spec_resp() == b
            }),
            r matches Some(len) ==> len <= RESP_BUF_SIZE,
            final(self).spec_policy() == old(self).spec_policy(),
            final(self).spec_rbuf() == old(self).spec_rbuf(),
            final(self).spec_throughput() == old(self).spec_throughput(),
            final(self).spec_report_start() == old(self).spec_report_start(),
    {
        match handler.on_tick(&mut self.resp_buf) {
            HandleResult::SendDatagram(len) => Some(len),
            _ => None,
        }
    }

    /// Builds and encrypts the frame for `out` with send key `ks`, using the
    /// send counter (which always advances) and the timestamp of `now`.
    /// `None` when the frame would exceed the output buffer. A frame that is
    /// built decrypts under `ks` to the counter, timestamp and message sent.
    pub fn seal_outgoing(&self, out: Outgoing, ks: &[u8; 32], them: SessionIndex, send_ctr: &mut u64, now: u64) -> (r: Option<Vec<u8>>)
        requires
            outgoing_ok(out),
            *old(send_ctr) < u64::MAX,
        ensures
            *final(send_ctr) == *old(send_ctr) + 1,
            match r {
                Some(f) => spec_sealed(ks@, them.0, *old(send_ctr), spec_outgoing_msg(out, self.spec_resp()), now)
                    == Some(f@),
                None => spec_sealed(ks@, them.0, *old(send_ctr), spec_outgoing_msg(out, self.spec_resp()), now) is None,
            },
            r matches Some(f) ==> spec_decrypt_established(ks@, f@) == Some(
                DecryptedFrameView {
                    counter: *old(send_ctr),
                    sender_timestamp: spec_timestamp(now),
                    msg_type: spec_outgoing_msg(out, self.spec_resp())[0],
                    payload: spec_outgoing_msg(out, self.spec_resp()).subrange(
                        1,
                        spec_outgoing_msg(out, self.spec_resp()).len() as int,
                    ),
                    frame_bytes: f@.len(),
                },
            ),
    {
        let c = *send_ctr;
        *send_ctr = c + 1;
        let ts = (now / 1000) as u32;
        let mut msg: Vec<u8> = Vec::new();
        match out {
            Outgoing::Datagram(len) => {
                msg.push(MSG_SESSION_DATAGRAM);
                append_resp(&mut msg, &self.resp_buf, len);
            },
            Outgoing::Link { msg_type, len } => {
                msg.push(msg_type);
                append_resp(&mut msg, &self.resp_buf, len);
            },
            Outgoing::Disconnect(reason) => {
                msg.push(MSG_DISCONNECT);
                msg.push(reason);
            },
            Outgoing::Heartbeat => {
                msg.push(MSG_HEARTBEAT);
            },
        }
        let ghost m = spec_outgoing_msg(out, self.spec_resp());
        assert(msg@ =~= m);
        let inner = prepend_inner_header(ts, msg.as_slice());
        let r = encrypt_and_assemble(them, c, 0, inner.as_slice(), ks, OUT_BUF_SIZE);
        proof {
            lemma_auto_spec_u32_to_from_le_bytes();
            if r is Some {
                let f = r->0;
                assert(m =~= seq![m[0]] + m.subrange(1, m.len() as int));
                crate::established::established_frame_round_trip(
                    ks@,
                    f@,
                    ts,
                    m[0],
                    m.subrange(1, m.len() as int),
                );
            }
        }
        r
    }

    /// Starts the steady state at `now`: the first heartbeat is due an
    /// interval later, the first sender report half an interval later, the
    /// send counter starts at zero and so does the first report interval.
    pub fn begin_steady(&mut self, now: u64) -> (st: SteadyState)
        requires
            now + hb_interval_us() <= u64::MAX,
        ensures
            st.next_hb == now + hb_interval_us(),
            st.next_sr == now + hb_interval_us() / 2,
            st.send_ctr == 0,
            st.sealed@ == Seq::<u64>::empty(),
            st.counters_wf(),
            final(self).spec_report_start() == (0u64, spec_timestamp(now)),
            final(self).wf() == old(self).wf(),
            final(self).spec_rbuf() == old(self).spec_rbuf(),
            final(self).spec_policy() == old(self).spec_policy(),
            final(self).spec_resp() == old(self).spec_resp(),
    {
        self.mmp.sender.start_interval(0, (now / 1000) as u32);
        SteadyState {
            next_hb: now + HB_SECS * 1_000_000,
            next_sr: now + (HB_SECS / 2) * 1_000_000,
            send_ctr: 0,
            sealed: Ghost(Seq::empty()),
        }
    }

    /// Builds the sender report due at `now` for the interval since the last
    /// one, and the frame that carries it; the next report is due an interval
    /// later and a new report interval starts after this frame's counter.
    pub fn seal_sender_report(&mut self, steady: &mut SteadyState, ks: &[u8; 32], them: SessionIndex, now: u64) -> (r: Option<Vec<u8>>)
        requires
            now + hb_interval_us() <= u64::MAX,
            old(steady).send_ctr < u64::MAX,
        ensures
            final(steady).next_sr == now + hb_interval_us(),
            final(steady).next_hb == old(steady).next_hb,
            final(steady).send_ctr == old(steady).send_ctr + 1,
            final(steady).sealed@ == old(steady).sealed@.push(old(steady).send_ctr),
            old(steady).counters_wf() ==> final(steady).counters_wf(),
            ({
                let body = spec_sender_report_body(
                    old(self).spec_report_start().0,
                    old(steady).send_ctr,
                    old(self).spec_report_start().1,
                    spec_timestamp(now),
                );
                let msg = seq![MSG_SENDER_REPORT] + body;
                &&& final(self).spec_resp() == spec_write_at(old(self).spec_resp(), 0, body)
                &&& match r {
                    Some(f) => spec_sealed(ks@, them.0, old(steady).send_ctr, msg, now) == Some(f@),
                    None => spec_sealed(ks@, them.0, old(steady).send_ctr, msg, now) is None,
                }
            }),
            final(self).spec_report_start() == (final(steady).send_ctr, spec_timestamp(now)),
            final(self).wf() == old(self).wf(),
            final(self).spec_rbuf() == old(self).spec_rbuf(),
            final(self).spec_policy() == old(self).spec_policy(),
    {
        steady.next_sr = now + HB_SECS * 1_000_000;
        let end_ts = (now / 1000) as u32;
        let sender = self.mmp.sender;
        sender.write_report(steady.send_ctr, end_ts, &mut self.resp_buf);
        proof {
            lemma_auto_spec_u64_to_from_le_bytes();
            lemma_auto_spec_u32_to_from_le_bytes();
            let body = spec_sender_report_body(
                old(self).spec_report_start().0,
                old(steady).send_ctr,
                old(self).spec_report_start().1,
                spec_timestamp(now),
            );
            assert(body.len() == SENDER_REPORT_BODY_SIZE);
            assert(self.resp_buf@.subrange(0, SENDER_REPORT_BODY_SIZE as int) =~= body);
        }
        let r = self.seal_outgoing(
            Outgoing::Link { msg_type: MSG_SENDER_REPORT, len: SENDER_REPORT_BODY_SIZE },
            ks,
            them,
            &mut steady.send_ctr,
            now,
        );
        self.mmp.sender.start_interval(steady.send_ctr, end_ts);
        proof {
            steady.sealed = Ghost(steady.sealed@.push(old(steady).send_ctr));
        }
        r
    }

    /// Seals `out` as the next frame of the steady state `steady` (see
    /// `seal_outgoing`): it takes the state's send counter, which advances,
    /// and is recorded among the counters sealed.
    pub fn seal_steady(&self, out: Outgoing, ks: &[u8; 32], them: SessionIndex, steady: &mut SteadyState, now: u64) -> (r: Option<Vec<u8>>)
        requires
            outgoing_ok(out),
            old(steady).send_ctr < u64::MAX,
        ensures
            final(steady).send_ctr == old(steady).send_ctr + 1,
            final(steady).sealed@ == old(steady).sealed@.push(old(steady).send_ctr),
            final(steady).next_hb == old(steady).next_hb,
            final(steady).next_sr == old(steady).next_sr,
            old(steady).counters_wf() ==> final(steady).counters_wf(),
            match r {
                Some(f) => spec_sealed(ks@, them.0, old(steady).send_ctr, spec_outgoing_msg(out, self.spec_resp()), now)
                    == Some(f@),
                None => spec_sealed(ks@, them.0, old(steady).send_ctr, spec_outgoing_msg(out, self.spec_resp()), now) is None,
            },
            r matches Some(f) ==> spec_decrypt_established(ks@, f@) == Some(
                DecryptedFrameView {
                    counter: old(steady).send_ctr,
                    sender_timestamp: spec_timestamp(now),
                    msg_type: spec_outgoing_msg(out, self.spec_resp())[0],
                    payload: spec_outgoing_msg(out, self.spec_resp()).subrange(
                        1,
                        spec_outgoing_msg(out, self.spec_resp()).len() as int,
                    ),
                    frame_bytes: f@.len(),
                },
            ),
    {
        let r = self.seal_outgoing(out, ks, them, &mut steady.send_ctr, now);
        proof {
            steady.sealed = Ghost(steady.sealed@.push(old(steady).send_ctr));
        }
        r
    }

    /// Applies a frame's action to the policy and says what follows: a
    /// heartbeat is counted and reported, answers are counted as data
    /// frames and sent, a disconnect from either side ends the session.
    pub fn process_frame_action(&mut self, action: FrameAction) -> (e: FrameEffect)
        ensures
            (e, final(self).spec_policy()) == spec_frame_effect(action, old(self).spec_policy()),
            final(self).wf() == old(self).wf(),
            final(self).spec_rbuf() == old(self).spec_rbuf(),
            final(self).spec_resp() == old(self).spec_resp(),
            final(self).spec_throughput() == old(self).spec_throughput(),
            final(self).spec_report_start() == old(self).spec_report_start(),
            final(self).spec_raw_framing() == old(self).spec_raw_framing(),
    {
        match action {
            FrameAction::Continue => FrameEffect { event: None, send: None, exit: false },
            FrameAction::HeartbeatRecv => {
                self.policy.record_heartbeat();
                FrameEffect { event: Some(NodeEvent::HeartbeatRecv), send: None, exit: false }
            },
            FrameAction::PeerDC { reason: _reason } => FrameEffect { event: None, send: None, exit: true },
            FrameAction::SelfDC => FrameEffect {
                event: None,
                send: Some(Outgoing::Disconnect(DISC_REASON_SHUTDOWN)),
                exit: true,
            },
            FrameAction::SendDatagram(len) => {
                self.policy.record_data_frame();
                FrameEffect { event: None, send: Some(Outgoing::Datagram(len)), exit: false }
            },
            FrameAction::SendLinkMessage { msg_type, len } => {
                self.policy.record_data_frame();
                FrameEffect { event: None, send: Some(Outgoing::Link { msg_type, len }), exit: false }
            },
        }
    }
}

/// How a frame received during the handshake is to be treated.
#[derive(Debug)]
pub enum HandshakeFrame {
    /// Unparseable, a self-connection, or a message 1 too short for a key:
    /// the handshake fails with `InvalidMessage`.
    Invalid,
    /// Not a handshake message: keep waiting.
    Ignore,
    /// Message 2 answering ours.
    Msg2 { sender_idx: u32, noise_payload: Vec<u8> },
    /// Message 1 from a peer that initiates.
    Msg1 { sender_idx: u32, noise_payload: Vec<u8> },
}

pub enum HandshakeFrameView {
    Invalid,
    Ignore,
    Msg2 { sender_idx: u32, noise_payload: Seq<u8> },
    Msg1 { sender_idx: u32, noise_payload: Seq<u8> },
}

impl View for HandshakeFrame {
    type V = HandshakeFrameView;

    open spec fn view(&self) -> HandshakeFrameView {
        match self {
            HandshakeFrame::Invalid => HandshakeFrameView::Invalid,
            HandshakeFrame::Ignore => HandshakeFrameView::Ignore,
            HandshakeFrame::Msg2 { sender_idx, noise_payload } => HandshakeFrameView::Msg2 {
                sender_idx: *sender_idx,
                noise_payload: noise_payload@,
            },
            HandshakeFrame::Msg1 { sender_idx, noise_payload } => HandshakeFrameView::Msg1 {
                sender_idx: *sender_idx,
                noise_payload: noise_payload@,
            },
        }
    }
}

/// The treatment of a handshake frame; `self_connection` says whether our
/// own address equals the peer's.
pub open spec fn spec_classify(frame: Seq<u8>, self_connection: bool) -> HandshakeFrameView {
    match spec_parse_message(frame) {
        None => HandshakeFrameView::Invalid,
        Some(FmpMessageView::Msg2 { sender_idx, receiver_idx, noise_payload }) => HandshakeFrameView::Msg2 {
            sender_idx,
            noise_payload,
        },
        Some(FmpMessageView::Msg1 { sender_idx, noise_payload }) => {
            if self_connection || noise_payload.len() < PUBKEY_SIZE {
                HandshakeFrameView::Invalid
            } else {
                HandshakeFrameView::Msg1 { sender_idx, noise_payload }
            }
        },
        Some(FmpMessageView::Established { .. }) => HandshakeFrameView::Ignore,
    }
}

/// What to do with an authenticated message 1.
#[derive(Clone, Copy, Debug, PartialEq, Eq, Structural)]
pub enum Msg1Decision {
    /// Discard it and keep waiting.
    Wait,
    /// Too many competing initiators: the handshake times out.
    GiveUp,
    /// Answer it as responder.
    Respond,
}

/// Lexicographic order on byte strings (a proper prefix comes first).
pub open spec fn lex_less(a: Seq<u8>, b: Seq<u8>) -> bool
    decreases a.len(),
{
    if a.len() == 0 {
        b.len() > 0
    } else if b.len() == 0 {
        false
    } else if a[0] < b[0] {
        true
    } else if a[0] > b[0] {
        false
    } else {
        lex_less(a.drop_first(), b.drop_first())
    }
}

/// The decision on a message 1 and the competing count afterwards. A
/// configured peer's message 1 is discarded by the side with the smaller
/// address when both initiated (it waits for message 2); one from anyone
/// else counts as competing, and more than `MAX_COMPETING_MSG1` of them
/// give up.
pub open spec fn spec_msg1_decision(competing: u32, from_configured_peer: bool, peer_sent_first: bool, my_addr: Seq<u8>, peer_addr: Seq<u8>) -> (Msg1Decision, u32) {
    if from_configured_peer && !peer_sent_first && lex_less(my_addr, peer_addr) {
        (Msg1Decision::Wait, competing)
    } else if !from_configured_peer {
        if competing + 1 > MAX_COMPETING_MSG1 {
            (Msg1Decision::GiveUp, (competing + 1) as u32)
        } else {
            (Msg1Decision::Wait, (competing + 1) as u32)
        }
    } else {
        (Msg1Decision::Respond, competing)
    }
}

/// Counters of one handshake.
#[derive(Clone, Copy, Debug)]
pub struct HandshakeState {
    pub competing_msg1: u32,
    pub resend_count: u32,
}

impl HandshakeState {
    pub fn new() -> (r: HandshakeState)
        ensures
            r.competing_msg1 == 0,
            r.resend_count == 0,
    {
        HandshakeState { competing_msg1: 0, resend_count: 0 }
    }

    /// No frame arrived in time: `true` to resend message 1, `false` when the
    /// resends are used up and the handshake times out.
    pub fn on_timeout(&mut self) -> (resend: bool)
        requires
            old(self).resend_count <= MSG1_RESEND_MAX,
        ensures
            final(self).resend_count == old(self).resend_count + 1,
            final(self).competing_msg1 == old(self).competing_msg1,
            resend == (final(self).resend_count <= MSG1_RESEND_MAX),
    {
        self.resend_count = self.resend_count + 1;
        self.resend_count <= MSG1_RESEND_MAX
    }

    /// A frame arrived: the resend count starts over and the frame is classified.
    pub fn classify(&mut self, frame: &[u8], self_connection: bool) -> (r: HandshakeFrame)
        ensures
            r@ == spec_classify(frame@, self_connection),
            final(self).resend_count == 0,
            final(self).competing_msg1 == old(self).competing_msg1,
    {
        self.resend_count = 0;
        match parse_message(frame) {
            None => HandshakeFrame::Invalid,
            Some(FmpMessage::Msg2 { sender_idx, receiver_idx: _, noise_payload }) => HandshakeFrame::Msg2 {
                sender_idx,
                noise_payload: vstd::slice::slice_to_vec(noise_payload),
            },
            Some(FmpMessage::Msg1 { sender_idx, noise_payload }) => {
                if self_connection || noise_payload.len() < PUBKEY_SIZE {
                    HandshakeFrame::Invalid
                } else {
                    HandshakeFrame::Msg1 { sender_idx, noise_payload: vstd::slice::slice_to_vec(noise_payload) }
                }
            },
            Some(FmpMessage::Established { .. }) => HandshakeFrame::Ignore,
        }
    }

    /// Decides on an authenticated message 1 (see `spec_msg1_decision`).
    pub fn on_msg1(&mut self, from_configured_peer: bool, peer_sent_first: bool, my_addr: &[u8], peer_addr: &[u8]) -> (d: Msg1Decision)
        requires
            old(self).competing_msg1 <= MAX_COMPETING_MSG1,
        ensures
            (d, final(self).competing_msg1) == spec_msg1_decision(
                old(self).competing_msg1,
                from_configured_peer,
                peer_sent_first,
                my_addr@,
                peer_addr@,
            ),
            final(self).resend_count == old(self).resend_count,
    {
        if from_configured_peer && !peer_sent_first && addr_less(my_addr, peer_addr) {
            return Msg1Decision::Wait;
        }
        if !from_configured_peer {
            self.competing_msg1 = self.competing_msg1 + 1;
            if self.competing_msg1 > MAX_COMPETING_MSG1 {
                return Msg1Decision::GiveUp;
            }
            return Msg1Decision::Wait;
        }
        Msg1Decision::Respond
    }
}

/// A candidate session index drawn from the random source is usable
/// unless it is zero.
pub fn session_index_from(candidate: u32) -> (r: Option<SessionIndex>)
    ensures
        r is Some <==> candidate != 0,
        r matches Some(idx) ==> idx.0 == candidate,
{
    if candidate != 0 {
        Some(SessionIndex::new(candidate))
    } else {
        None
    }
}

/// Whether two compressed keys share their x coordinate (bytes 1..33); the
/// prefix byte, which only carries the y parity, is ignored.
pub fn same_x_only(a: &[u8; 33], b: &[u8; 33]) -> (r: bool)
    ensures
        r == (a@.subrange(1, 33) == b@.subrange(1, 33)),
{
    let mut i: usize = 1;
    while i < 33
        invariant
            1 <= i <= 33,
            a@.subrange(1, i as int) == b@.subrange(1, i as int),
        decreases 33 - i,
    {
        if a[i] != b[i] {
            assert(a@.subrange(1, 33)[i - 1] != b@.subrange(1, 33)[i - 1]);
            return false;
        }
        i = i + 1;
        assert(a@.subrange(1, i as int) =~= b@.subrange(1, i as int));
    }
    true
}

/// Lexicographic comparison of two node addresses.
pub fn addr_less(a: &[u8], b: &[u8]) -> (r: bool)
    ensures
        r == lex_less(a@, b@),
{
    let mut i: usize = 0;
    assert(a@.subrange(0, a@.len() as int) =~= a@);
    assert(b@.subrange(0, b@.len() as int) =~= b@);
    while i < a.len() && i < b.len()
        invariant
            i <= a@.len(),
            i <= b@.len(),
            a@.subrange(0, i as int) == b@.subrange(0, i as int),
            lex_less(a@, b@) == lex_less(a@.subrange(i as int, a@.len() as int), b@.subrange(i as int, b@.len() as int)),
        decreases a@.len() - i,
    {
        let x = a[i];
        let y = b[i];
        if x < y {
            return true;
        }
        if x > y {
            return false;
        }
        proof {
            let sa = a@.subrange(i as int, a@.len() as int);
            let sb = b@.subrange(i as int, b@.len() as int);
            assert(sa.drop_first() =~= a@.subrange(i + 1, a@.len() as int));
            assert(sb.drop_first() =~= b@.subrange(i + 1, b@.len() as int));
        }
        i = i + 1;
        assert(a@.subrange(0, i as int) =~= b@.subrange(0, i as int));
    }
    i < b.len()
}

/// Lexicographic order is a strict total order on strings of equal length:
/// of two different addresses exactly one is the smaller.
pub proof fn lex_less_total(a: Seq<u8>, b: Seq<u8>)
    requires
        a.len() == b.len(),
    ensures
        !lex_less(a, a),
        a != b ==> lex_less(a, b) != lex_less(b, a),
        a == b ==> !lex_less(a, b),
    decreases a.len(),
{
    if a.len() > 0 {
        lex_less_total(a.drop_first(), a.drop_first());
        lex_less_total(a.drop_first(), b.drop_first());
        if a != b && a[0] == b[0] {
            assert(a.drop_first() != b.drop_first()) by {
                if a.drop_first() == b.drop_first() {
                    assert(a =~= seq![a[0]] + a.drop_first());
                    assert(b =~= seq![b[0]] + b.drop_first());
                }
            }
        }
    } else {
        assert(a =~= b);
    }
}

/// When two distinct nodes configured with each other both initiate, exactly
/// one of them discards the other's message 1 and waits for message 2; the
/// other answers as responder.
pub proof fn simultaneous_handshake_resolves(competing_a: u32, competing_b: u32, addr_a: Seq<u8>, addr_b: Seq<u8>)
    requires
        addr_a.len() == addr_b.len(),
        addr_a != addr_b,
    ensures
        (spec_msg1_decision(competing_a, true, false, addr_a, addr_b).0 == Msg1Decision::Wait)
            != (spec_msg1_decision(competing_b, true, false, addr_b, addr_a).0 == Msg1Decision::Wait),
        spec_msg1_decision(competing_a, true, false, addr_a, addr_b).0 != Msg1Decision::GiveUp,
        spec_msg1_decision(competing_b, true, false, addr_b, addr_a).0 != Msg1Decision::GiveUp,
{
    lex_less_total(addr_a, addr_b);
}

/// When the peer is known to send message 1 first, a message 1 from the
/// configured peer is always answered as responder, whatever the addresses.
pub proof fn peer_first_msg1_answered(competing: u32, my_addr: Seq<u8>, peer_addr: Seq<u8>)
    ensures
        spec_msg1_decision(competing, true, true, my_addr, peer_addr) == (Msg1Decision::Respond, competing),
{
}

/// Seconds to wait before the next session attempt after `backoff`
/// consecutive failed sessions: 3 s doubling per failure, at most 60 s.
pub open spec fn spec_retry_delay_secs(backoff: u32) -> u64 {
    let e: nat = if backoff < BACKOFF_MAX_EXPONENT {
        backoff as nat
    } else {
        BACKOFF_MAX_EXPONENT as nat
    };
    let d = RETRY_SECS * pow2(e);
    if d < BACKOFF_MAX_SECS {
        d as u64
    } else {
        BACKOFF_MAX_SECS
    }
}

/// The retry delay in seconds after `backoff` consecutive failed sessions.
pub fn retry_delay_secs(backoff: u32) -> (r: u64)
    ensures
        r == spec_retry_delay_secs(backoff),
{
    let e: u64 = if backoff < BACKOFF_MAX_EXPONENT {
        backoff as u64
    } else {
        BACKOFF_MAX_EXPONENT as u64
    };
    proof {
        lemma2_to64();
        if e < 4 {
            lemma_pow2_strictly_increases(e as nat, 4);
        }
        lemma_u64_shl_is_mul(1, e);
    }
    let d = RETRY_SECS * (1u64 << e);
    if d < BACKOFF_MAX_SECS {
        d
    } else {
        BACKOFF_MAX_SECS
    }
}

/// The failure count after a session: reset by success, one more (saturating) after failure.
pub open spec fn spec_next_backoff(backoff: u32, ok: bool) -> u32 {
    if ok {
        0
    } else if backoff == u32::MAX {
        backoff
    } else {
        (backoff + 1) as u32
    }
}

/// The failure count after a session: reset by success, one more (saturating) after failure.
pub fn next_backoff(backoff: u32, ok: bool) -> (r: u32)
    ensures
        r == spec_next_backoff(backoff, ok),
        ok ==> r == 0,
        !ok ==> r == (if backoff == u32::MAX { backoff } else { (backoff + 1) as u32 }),
{
    if ok {
        0
    } else {
        backoff.saturating_add(1)
    }
}

/// The pause between sessions is never shorter than 3 s nor longer than
/// 60 s, and grows with consecutive failures.
pub proof fn retry_delay_bounded(b1: u32, b2: u32)
    requires
        b1 <= b2,
    ensures
        RETRY_SECS <= spec_retry_delay_secs(b1) <= BACKOFF_MAX_SECS,
        spec_retry_delay_secs(b1) <= spec_retry_delay_secs(b2),
{
    lemma2_to64();
    let e1: nat = if b1 < 4 { b1 as nat } else { 4 };
    let e2: nat = if b2 < 4 { b2 as nat } else { 4 };
    if e1 < e2 {
        lemma_pow2_strictly_increases(e1, e2);
    }
    if 0 < e1 {
        lemma_pow2_strictly_increases(0, e1);
    }
}

/// The number of consecutive failed sessions at the end of `outcomes`
/// (`true` for a session that ended well).
pub open spec fn trailing_failures(outcomes: Seq<bool>) -> nat
    decreases outcomes.len(),
{
    if outcomes.len() == 0 || outcomes.last() {
        0
    } else {
        trailing_failures(outcomes.drop_last()) + 1
    }
}

/// The run loop's failure count after the sessions in `outcomes`, starting from zero.
pub open spec fn spec_backoff_after(outcomes: Seq<bool>) -> u32
    decreases outcomes.len(),
{
    if outcomes.len() == 0 {
        0
    } else {
        spec_next_backoff(spec_backoff_after(outcomes.drop_last()), outcomes.last())
    }
}

/// Over any run of sessions, the pause after the last one is 3 s doubled
/// once per consecutive failure it ends with, at most four times, and never
/// more than 60 s: 3 s after a success, then 6, 12, 24, 48, 48, ... s.
pub proof fn retry_schedule(outcomes: Seq<bool>)
    ensures
        spec_backoff_after(outcomes) == (if trailing_failures(outcomes) < u32::MAX {
            trailing_failures(outcomes)
        } else {
            u32::MAX as nat
        }),
        ({
            let k = trailing_failures(outcomes);
            let e: nat = if k < BACKOFF_MAX_EXPONENT { k } else { BACKOFF_MAX_EXPONENT as nat };
            spec_retry_delay_secs(spec_backoff_after(outcomes)) == (if RETRY_SECS * pow2(e) < BACKOFF_MAX_SECS {
                RETRY_SECS * pow2(e)
            } else {
                BACKOFF_MAX_SECS as int
            })
        }),
    decreases outcomes.len(),
{
    if outcomes.len() > 0 {
        retry_schedule(outcomes.drop_last());
    }
}

/// Frames sealed under different counters carry those counters in their
/// headers and are encrypted under different nonces (see
/// `steady_nonces_unique` for a whole steady state).
pub proof fn sealed_nonces_distinct(ks: Seq<u8>, them: u32, c1: u64, m1: Seq<u8>, t1: u64, c2: u64, m2: Seq<u8>, t2: u64)
    requires
        c1 < c2,
    ensures
        spec_noise_nonce(c1) != spec_noise_nonce(c2),
        spec_sealed(ks, them, c1, m1, t1) matches Some(f1) ==> frame_counter(f1) == c1,
        spec_sealed(ks, them, c2, m2, t2) matches Some(f2) ==> frame_counter(f2) == c2,
{
    lemma_auto_spec_u64_to_from_le_bytes();
    let n1 = spec_noise_nonce(c1);
    let n2 = spec_noise_nonce(c2);
    assert(n1.subrange(4, 12) =~= spec_u64_to_le_bytes(c1));
    assert(n2.subrange(4, 12) =~= spec_u64_to_le_bytes(c2));
    lemma_sealed_counter(ks, them, c1, m1, t1);
    lemma_sealed_counter(ks, them, c2, m2, t2);
}

/// A sealed frame's header carries the counter it was sealed with.
proof fn lemma_sealed_counter(ks: Seq<u8>, them: u32, c: u64, m: Seq<u8>, t: u64)
    ensures
        spec_sealed(ks, them, c, m, t) matches Some(f) ==> frame_counter(f) == c,
{
    lemma_auto_spec_u64_to_from_le_bytes();
    lemma_auto_spec_u32_to_from_le_bytes();
    lemma_auto_spec_u16_to_from_le_bytes();
    if let Some(f) = spec_sealed(ks, them, c, m, t) {
        let inner = spec_prepend_inner_header(spec_timestamp(t), m);
        let total = crate::wire::ESTABLISHED_HEADER_SIZE + inner.len() + crate::wire::TAG_SIZE;
        let header = crate::established::spec_established_header(them, c, 0, (total - 4) as u16);
        let prefix = crate::wire::spec_build_prefix(crate::wire::PHASE_ESTABLISHED, 0, (total - 4) as u16);
        assert(prefix.len() == 4);
        assert(header == prefix + spec_u32_to_le_bytes(them) + spec_u64_to_le_bytes(c));
        assert(header.subrange(8, 16) =~= spec_u64_to_le_bytes(c));
        assert(f.subrange(8, 16) =~= header.subrange(8, 16));
    }
}

/// Over a whole steady state, the frames sealed from it (by `seal_steady`
/// and `seal_sender_report`, starting from `begin_steady`) carry strictly
/// increasing counters in the order they were sealed, so no two of them are
/// encrypted under the same nonce with the session key.
pub proof fn steady_nonces_unique(st: SteadyState)
    requires
        st.counters_wf(),
    ensures
        forall|i: int, j: int|
            #![trigger st.sealed@[i], st.sealed@[j]]
            0 <= i < j < st.sealed@.len() ==> st.sealed@[i] < st.sealed@[j] && spec_noise_nonce(st.sealed@[i])
                != spec_noise_nonce(st.sealed@[j]),
{
    assert forall|i: int, j: int|
        #![trigger st.sealed@[i], st.sealed@[j]]
        0 <= i < j < st.sealed@.len() implies st.sealed@[i] < st.sealed@[j] && spec_noise_nonce(st.sealed@[i])
        != spec_noise_nonce(st.sealed@[j]) by {
        lemma_nonce_injective(st.sealed@[i], st.sealed@[j]);
    }
}

/// Different counters give different nonces.
proof fn lemma_nonce_injective(c1: u64, c2: u64)
    requires
        c1 != c2,
    ensures
        spec_noise_nonce(c1) != spec_noise_nonce(c2),
{
    lemma_auto_spec_u64_to_from_le_bytes();
    assert(spec_noise_nonce(c1).subrange(4, 12) =~= spec_u64_to_le_bytes(c1));
    assert(spec_noise_nonce(c2).subrange(4, 12) =~= spec_u64_to_le_bytes(c2));
}

/// The steady loop never sleeps past its own timers: the deadline is no
/// later than the next heartbeat or the next sender report, no later than
/// the handler's tick when one is given, and it is one of these times.
pub proof fn deadline_is_earliest(st: SteadyState, tick: Option<u64>)
    ensures
        spec_deadline(st, tick) <= st.next_hb,
        spec_deadline(st, tick) <= st.next_sr,
        tick matches Some(t) ==> spec_deadline(st, tick) <= t,
        spec_deadline(st, tick) == st.next_hb || spec_deadline(st, tick) == st.next_sr || tick == Some(
            spec_deadline(st, tick),
        ),
{
}

/// What each frame action leads to: an answer the node itself composed
/// (receiver report, echo response, throughput report) is sent as the link
/// message of that type and length; a handler's datagram is sent as a
/// session datagram; a disconnect of our own is sent with the shutdown
/// reason and ends the session, one from the peer ends it without a reply;
/// a received heartbeat is reported; anything else does nothing.
pub proof fn frame_effect_law(action: FrameAction, p: PeerPolicyView)
    ensures
        ({
            let e = spec_frame_effect(action, p).0;
            match action {
                FrameAction::SendLinkMessage { msg_type, len } => e == FrameEffect {
                    event: None,
                    send: Some(Outgoing::Link { msg_type, len }),
                    exit: false,
                } && forall|resp: Seq<u8>|
                    #![trigger spec_outgoing_msg(e.send.unwrap(), resp)]
                    spec_outgoing_msg(e.send.unwrap(), resp) == seq![msg_type] + resp.subrange(0, len as int),
                FrameAction::SendDatagram(len) => e == FrameEffect {
                    event: None,
                    send: Some(Outgoing::Datagram(len)),
                    exit: false,
                },
                FrameAction::SelfDC => e == FrameEffect {
                    event: None,
                    send: Some(Outgoing::Disconnect(DISC_REASON_SHUTDOWN)),
                    exit: true,
                },
                FrameAction::PeerDC { reason } => e == FrameEffect { event: None, send: None, exit: true },
                FrameAction::HeartbeatRecv => e == FrameEffect {
                    event: Some(NodeEvent::HeartbeatRecv),
                    send: None,
                    exit: false,
                },
                FrameAction::Continue => e == FrameEffect { event: None, send: None, exit: false },
            }
        }),
{
}

} // verus!
