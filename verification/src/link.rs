//! Link messages carried inside established frames: their types, the
//! responses the node answers with on its own (receiver reports, echo,
//! throughput tests), and the dispatch that decides what a frame asks for.
use vstd::prelude::*;
use vstd::bytes::*;
use crate::bytes_out::{spec_write_at, write_at};
use crate::established::DecryptedFrameView;

verus! {

pub const MSG_SESSION_DATAGRAM: u8 = 0x00;
pub const MSG_SENDER_REPORT: u8 = 0x01;
pub const MSG_RECEIVER_REPORT: u8 = 0x02;
pub const MSG_DISCONNECT: u8 = 0x50;
pub const MSG_HEARTBEAT: u8 = 0x51;
pub const MSG_ECHO_REQUEST: u8 = 0x60;
pub const MSG_ECHO_RESPONSE: u8 = 0x61;
pub const MSG_THROUGHPUT_REQUEST: u8 = 0x62;
pub const MSG_THROUGHPUT_STREAM: u8 = 0x63;
pub const MSG_THROUGHPUT_REPORT: u8 = 0x64;

pub const DISC_REASON_SHUTDOWN: u8 = 0x00;
pub const DISC_REASON_PROTOCOL_ERROR: u8 = 0x02;
pub const DISC_REASON_TRANSPORT_FAILURE: u8 = 0x03;
pub const DISC_REASON_RESOURCE_EXHAUSTION: u8 = 0x04;
pub const DISC_REASON_SECURITY_VIOLATION: u8 = 0x05;
pub const DISC_REASON_OTHER: u8 = 0xFF;

/// Sender report body (message type byte excluded): reserved[3],
/// interval start counter, interval end counter, interval start timestamp,
/// interval end timestamp, then cumulative fields.
pub const SENDER_REPORT_BODY_SIZE: usize = 47;
/// Receiver report body (message type byte excluded): reserved[3], highest
/// counter, cumulative packets, cumulative bytes, timestamp echo, then the
/// loss and timing fields.
pub const RECEIVER_REPORT_BODY_SIZE: usize = 67;
/// Echo request: send timestamp (u64 LE), sequence (u32 LE), payload.
pub const ECHO_REQUEST_MIN_SIZE: usize = 12;
/// Echo response: send timestamp, receive timestamp (u64 LE each), sequence, payload.
pub const ECHO_RESPONSE_MIN_SIZE: usize = 20;
/// Largest echo payload that is answered.
pub const ECHO_MAX_PAYLOAD: usize = 128;
/// Throughput request: test id (u32), direction, duration in seconds, frame size (u16), rate (u32).
pub const THROUGHPUT_REQUEST_SIZE: usize = 12;
/// Throughput stream frame: test id (u32), sequence (u32), filler.
pub const THROUGHPUT_STREAM_MIN_SIZE: usize = 8;
/// Throughput report: test id, direction (u32 each), frames (u32), bytes,
/// elapsed microseconds, achieved bits per second (u64 each).
pub const THROUGHPUT_REPORT_SIZE: usize = 36;

/// What the node does in response to one received frame.
#[derive(Clone, Copy, Debug, PartialEq, Eq, Structural)]
pub enum FrameAction {
    Continue,
    HeartbeatRecv,
    PeerDC { reason: u8 },
    SelfDC,
    SendDatagram(usize),
    SendLinkMessage { msg_type: u8, len: usize },
}

/// Result from the application's message callback.
#[derive(Clone, Copy, Debug, PartialEq, Eq, Structural)]
pub enum HandleResult {
    /// No response needed.
    NoReply,
    /// Send a session datagram response of the given length (written into the response buffer).
    SendDatagram(usize),
    /// Request disconnect.
    Disconnect,
}

/// The action a handler's answer turns into.
pub open spec fn spec_handle_result_action(r: HandleResult) -> FrameAction {
    match r {
        HandleResult::NoReply => FrameAction::Continue,
        HandleResult::SendDatagram(len) => FrameAction::SendDatagram(len),
        HandleResult::Disconnect => FrameAction::SelfDC,
    }
}

/// Maps the application's answer to the action the node takes.
pub fn handle_result_action(r: HandleResult) -> (a: FrameAction)
    ensures
        a == spec_handle_result_action(r),
{
    match r {
        HandleResult::NoReply => FrameAction::Continue,
        HandleResult::SendDatagram(len) => FrameAction::SendDatagram(len),
        HandleResult::Disconnect => FrameAction::SelfDC,
    }
}

/// Handler that ignores all events and messages.
pub struct NoopHandler;

impl NoopHandler {
    /// Ignores the message: no response.
    pub fn on_message(&mut self, msg_type: u8, payload: &[u8], resp: &mut [u8]) -> (r: HandleResult)
        ensures
            r == HandleResult::NoReply,
            final(resp)@ == old(resp)@,
    {
        HandleResult::NoReply
    }
}

/// The application's message callbacks.
///
/// An implementation that is verified states what it answers: it sets
/// `obeys_handler_spec` to `true` and gives `message_answer` and
/// `tick_answer` as functions of its state before the call. An
/// implementation that does not (the defaults) is promised nothing beyond
/// the length bound on a datagram it asks to send.
pub trait NodeHandler {
    /// Whether the implementation answers as `message_answer` and
    /// `tick_answer` say.
    open spec fn obeys_handler_spec() -> bool {
        false
    }

    /// The answer to a message of type `msg_type` with `payload` when the
    /// response buffer holds `resp`, and what the buffer holds afterwards.
    open spec fn message_answer(&self, msg_type: u8, payload: Seq<u8>, resp: Seq<u8>) -> (HandleResult, Seq<u8>) {
        (HandleResult::NoReply, resp)
    }

    /// The answer of the timer callback when the response buffer holds
    /// `resp`, and what the buffer holds afterwards.
    open spec fn tick_answer(&self, resp: Seq<u8>) -> (HandleResult, Seq<u8>) {
        (HandleResult::NoReply, resp)
    }

    /// Called with a decrypted message that the node does not handle itself.
    /// Write any response into `resp` and return `HandleResult::SendDatagram(len)`;
    /// the datagram is the first `len` bytes of `resp`, so `len` fits in it.
    fn on_message(&mut self, msg_type: u8, payload: &[u8], resp: &mut [u8]) -> (r: HandleResult)
        ensures
            Self::obeys_handler_spec() ==> (r, final(resp)@) == old(self).message_answer(msg_type, payload@, old(resp)@),
            r matches HandleResult::SendDatagram(len) ==> len <= old(resp)@.len(),
    ;

    /// Called when the handler's own timer fires. A datagram it asks to send
    /// is the first `len` bytes it wrote into `resp`, so `len` fits in `resp`.
    /// A handler without a timer answers `HandleResult::NoReply`.
    fn on_tick(&mut self, resp: &mut [u8]) -> (r: HandleResult)
        ensures
            Self::obeys_handler_spec() ==> (r, final(resp)@) == old(self).tick_answer(old(resp)@),
            r matches HandleResult::SendDatagram(len) ==> len <= old(resp)@.len(),
    ;
}

impl NodeHandler for NoopHandler {
    open spec fn obeys_handler_spec() -> bool {
        true
    }

    open spec fn message_answer(&self, msg_type: u8, payload: Seq<u8>, resp: Seq<u8>) -> (HandleResult, Seq<u8>) {
        (HandleResult::NoReply, resp)
    }

    open spec fn tick_answer(&self, resp: Seq<u8>) -> (HandleResult, Seq<u8>) {
        (HandleResult::NoReply, resp)
    }

    /// Ignores the message: no response, and `resp` is left as it was.
    fn on_message(&mut self, msg_type: u8, payload: &[u8], resp: &mut [u8]) -> (r: HandleResult)
        ensures
            r == HandleResult::NoReply,
            final(resp)@ == old(resp)@,
    {
        NoopHandler::on_message(self, msg_type, payload, resp)
    }

    /// Has no timer: no response, and `resp` is left as it was.
    fn on_tick(&mut self, resp: &mut [u8]) -> (r: HandleResult)
        ensures
            r == HandleResult::NoReply,
            final(resp)@ == old(resp)@,
    {
        HandleResult::NoReply
    }
}

/// The datagram length a timer answer asks to send, if any.
pub open spec fn spec_tick_result(h: HandleResult) -> Option<usize> {
    match h {
        HandleResult::SendDatagram(len) => Some(len),
        _ => None,
    }
}

/// State of a throughput test in which the peer streams to us.
#[derive(Clone, Copy, Debug)]
pub struct ThroughputState {
    pub test_id: u32,
    pub frames_recv: u32,
    pub bytes_recv: u64,
    /// Start of the test, in microseconds of node time.
    pub started_at: Option<u64>,
    pub duration_secs: u8,
    pub active: bool,
}

/// No test running.
pub open spec fn throughput_idle() -> ThroughputState {
    ThroughputState {
        test_id: 0,
        frames_recv: 0,
        bytes_recv: 0,
        started_at: None,
        duration_secs: 0,
        active: false,
    }
}

impl Default for ThroughputState {
    fn default() -> (r: ThroughputState)
        ensures
            r == throughput_idle(),
    {
        ThroughputState {
            test_id: 0,
            frames_recv: 0,
            bytes_recv: 0,
            started_at: None,
            duration_secs: 0,
            active: false,
        }
    }
}

/// The receiver report body that answers a sender report: zeros except the
/// highest counter (the report's interval end counter, bytes 11..19) at
/// 3..11 and the timestamp echo (the report's interval end timestamp,
/// bytes 23..27) at 27..31.
pub open spec fn rr_body(payload: Seq<u8>) -> Seq<u8> {
    Seq::new(
        RECEIVER_REPORT_BODY_SIZE as nat,
        |i: int|
            if 3 <= i < 11 {
                payload[i + 8]
            } else if 27 <= i < 31 {
                payload[i - 4]
            } else {
                0u8
            },
    )
}

/// The action and response buffer after answering a sender report.
pub open spec fn spec_rr_response(payload: Seq<u8>, resp: Seq<u8>) -> (FrameAction, Seq<u8>) {
    if payload.len() >= 27 && resp.len() >= RECEIVER_REPORT_BODY_SIZE {
        (
            FrameAction::SendLinkMessage {
                msg_type: MSG_RECEIVER_REPORT,
                len: RECEIVER_REPORT_BODY_SIZE,
            },
            rr_body(payload) + resp.subrange(RECEIVER_REPORT_BODY_SIZE as int, resp.len() as int),
        )
    } else {
        (FrameAction::Continue, resp)
    }
}

/// Answers a sender report with a receiver report written into `resp`.
pub fn build_receiver_report_response(payload: &[u8], resp: &mut [u8]) -> (a: FrameAction)
    ensures
        (a, final(resp)@) == spec_rr_response(payload@, old(resp)@),
{
    if payload.len() >= 27 && resp.len() >= RECEIVER_REPORT_BODY_SIZE {
        let ghost orig = resp@;
        let mut i: usize = 0;
        while i < RECEIVER_REPORT_BODY_SIZE
            invariant
                i <= RECEIVER_REPORT_BODY_SIZE,
                payload@.len() >= 27,
                resp@.len() == orig.len(),
                orig.len() >= RECEIVER_REPORT_BODY_SIZE,
                forall|k: int| 0 <= k < i ==> resp@[k] == rr_body(payload@)[k],
                forall|k: int| i <= k < orig.len() ==> resp@[k] == orig[k],
            decreases RECEIVER_REPORT_BODY_SIZE - i,
        {
            let b = if 3 <= i && i < 11 {
                payload[i + 8]
            } else if 27 <= i && i < 31 {
                payload[i - 4]
            } else {
                0u8
            };
            resp[i] = b;
            i = i + 1;
        }
        assert(resp@ =~= rr_body(payload@) + orig.subrange(
            RECEIVER_REPORT_BODY_SIZE as int,
            orig.len() as int,
        ));
        FrameAction::SendLinkMessage { msg_type: MSG_RECEIVER_REPORT, len: RECEIVER_REPORT_BODY_SIZE }
    } else {
        FrameAction::Continue
    }
}

/// The fields of an echo request, if `payload` is one.
pub open spec fn spec_parse_echo_request(payload: Seq<u8>) -> Option<(u64, u32, Seq<u8>)> {
    if payload.len() < ECHO_REQUEST_MIN_SIZE || payload.len() - ECHO_REQUEST_MIN_SIZE > ECHO_MAX_PAYLOAD {
        None
    } else {
        Some(
            (
                spec_u64_from_le_bytes(payload.subrange(0, 8)),
                spec_u32_from_le_bytes(payload.subrange(8, 12)),
                payload.subrange(12, payload.len() as int),
            ),
        )
    }
}

/// Parses an echo request: send timestamp, sequence number, payload.
pub fn parse_echo_request(payload: &[u8]) -> (r: Option<(u64, u32, &[u8])>)
    ensures
        match r {
            Some((ts, seq, p)) => spec_parse_echo_request(payload@) == Some((ts, seq, p@)),
            None => spec_parse_echo_request(payload@) is None,
        },
{
    if payload.len() < ECHO_REQUEST_MIN_SIZE || payload.len() - ECHO_REQUEST_MIN_SIZE > ECHO_MAX_PAYLOAD {
        return None;
    }
    let send_ts = u64_from_le_bytes(vstd::slice::slice_subrange(payload, 0, 8));
    let seq = u32_from_le_bytes(vstd::slice::slice_subrange(payload, 8, 12));
    Some((send_ts, seq, vstd::slice::slice_subrange(payload, 12, payload.len())))
}

/// The bytes of an echo response.
pub open spec fn spec_echo_response(send_ts: u64, recv_ts: u64, seq: u32, payload: Seq<u8>) -> Seq<u8> {
    spec_u64_to_le_bytes(send_ts) + spec_u64_to_le_bytes(recv_ts) + spec_u32_to_le_bytes(seq) + payload
}

/// Writes an echo response into `resp`; `None` (and `resp` untouched) when it does not fit.
pub fn build_echo_response(send_ts: u64, recv_ts: u64, seq: u32, payload: &[u8], resp: &mut [u8]) -> (r: Option<usize>)
    ensures
        ({
            let bytes = spec_echo_response(send_ts, recv_ts, seq, payload@);
            if bytes.len() <= old(resp)@.len() {
                r == Some(bytes.len() as usize) && final(resp)@ == spec_write_at(old(resp)@, 0, bytes)
            } else {
                r is None && final(resp)@ == old(resp)@
            }
        }),
{
    proof {
        lemma_auto_spec_u64_to_from_le_bytes();
        lemma_auto_spec_u32_to_from_le_bytes();
    }
    if resp.len() < ECHO_RESPONSE_MIN_SIZE || resp.len() - ECHO_RESPONSE_MIN_SIZE < payload.len() {
        return None;
    }
    let ghost orig = resp@;
    let a = u64_to_le_bytes(send_ts);
    let b = u64_to_le_bytes(recv_ts);
    let c = u32_to_le_bytes(seq);
    write_at(resp, 0, a.as_slice());
    write_at(resp, 8, b.as_slice());
    write_at(resp, 16, c.as_slice());
    write_at(resp, 20, payload);
    let ghost bytes = spec_echo_response(send_ts, recv_ts, seq, payload@);
    assert(resp@ =~= spec_write_at(orig, 0, bytes));
    Some(ECHO_RESPONSE_MIN_SIZE + payload.len())
}

/// The action and response buffer after an echo request arrives at `now_us`.
pub open spec fn spec_echo(payload: Seq<u8>, resp: Seq<u8>, now_us: u64) -> (FrameAction, Seq<u8>) {
    match spec_parse_echo_request(payload) {
        None => (FrameAction::Continue, resp),
        Some((send_ts, seq, p)) => {
            let bytes = spec_echo_response(send_ts, now_us, seq, p);
            if bytes.len() <= resp.len() {
                (
                    FrameAction::SendLinkMessage { msg_type: MSG_ECHO_RESPONSE, len: bytes.len() as usize },
                    spec_write_at(resp, 0, bytes),
                )
            } else {
                (FrameAction::Continue, resp)
            }
        },
    }
}

/// The fields of a throughput request, if `payload` is one.
pub open spec fn spec_parse_throughput_request(payload: Seq<u8>) -> Option<(u32, u8, u8, u16, u32)> {
    if payload.len() < THROUGHPUT_REQUEST_SIZE {
        None
    } else {
        Some(
            (
                spec_u32_from_le_bytes(payload.subrange(0, 4)),
                payload[4],
                payload[5],
                spec_u16_from_le_bytes(payload.subrange(6, 8)),
                spec_u32_from_le_bytes(payload.subrange(8, 12)),
            ),
        )
    }
}

/// Parses a throughput request: test id, direction, duration (s), frame size, rate (bit/s).
pub fn parse_throughput_request(payload: &[u8]) -> (r: Option<(u32, u8, u8, u16, u32)>)
    ensures
        r == spec_parse_throughput_request(payload@),
{
    if payload.len() < THROUGHPUT_REQUEST_SIZE {
        return None;
    }
    let test_id = u32_from_le_bytes(vstd::slice::slice_subrange(payload, 0, 4));
    let frame_size = u16_from_le_bytes(vstd::slice::slice_subrange(payload, 6, 8));
    let rate = u32_from_le_bytes(vstd::slice::slice_subrange(payload, 8, 12));
    Some((test_id, payload[4], payload[5], frame_size, rate))
}

/// The fields of a throughput stream frame, if `payload` is one.
pub open spec fn spec_parse_throughput_stream(payload: Seq<u8>) -> Option<(u32, u32)> {
    if payload.len() < THROUGHPUT_STREAM_MIN_SIZE {
        None
    } else {
        Some((spec_u32_from_le_bytes(payload.subrange(0, 4)), spec_u32_from_le_bytes(payload.subrange(4, 8))))
    }
}

/// Parses a throughput stream frame: test id and sequence number.
pub fn parse_throughput_stream(payload: &[u8]) -> (r: Option<(u32, u32)>)
    ensures
        r == spec_parse_throughput_stream(payload@),
{
    if payload.len() < THROUGHPUT_STREAM_MIN_SIZE {
        return None;
    }
    let test_id = u32_from_le_bytes(vstd::slice::slice_subrange(payload, 0, 4));
    let seq = u32_from_le_bytes(vstd::slice::slice_subrange(payload, 4, 8));
    Some((test_id, seq))
}

/// The bytes of a throughput report.
pub open spec fn spec_throughput_report(
    test_id: u32,
    direction: u32,
    frames: u32,
    bytes: u64,
    elapsed_us: u64,
    achieved_bps: u64,
) -> Seq<u8> {
    spec_u32_to_le_bytes(test_id) + spec_u32_to_le_bytes(direction) + spec_u32_to_le_bytes(frames)
        + spec_u64_to_le_bytes(bytes) + spec_u64_to_le_bytes(elapsed_us) + spec_u64_to_le_bytes(achieved_bps)
}

/// Writes a throughput report into `resp`; `None` (and `resp` untouched) when it does not fit.
pub fn build_throughput_report(
    test_id: u32,
    direction: u32,
    frames: u32,
    bytes: u64,
    elapsed_us: u64,
    achieved_bps: u64,
    resp: &mut [u8],
) -> (r: Option<usize>)
    ensures
        ({
            let rep = spec_throughput_report(test_id, direction, frames, bytes, elapsed_us, achieved_bps);
            if THROUGHPUT_REPORT_SIZE <= old(resp)@.len() {
                r == Some(THROUGHPUT_REPORT_SIZE) && final(resp)@ == spec_write_at(old(resp)@, 0, rep)
            } else {
                r is None && final(resp)@ == old(resp)@
            }
        }),
        spec_throughput_report(test_id, direction, frames, bytes, elapsed_us, achieved_bps).len()
            == THROUGHPUT_REPORT_SIZE,
{
    proof {
        lemma_auto_spec_u64_to_from_le_bytes();
        lemma_auto_spec_u32_to_from_le_bytes();
    }
    if resp.len() < THROUGHPUT_REPORT_SIZE {
        return None;
    }
    let ghost orig = resp@;
    write_at(resp, 0, u32_to_le_bytes(test_id).as_slice());
    write_at(resp, 4, u32_to_le_bytes(direction).as_slice());
    write_at(resp, 8, u32_to_le_bytes(frames).as_slice());
    write_at(resp, 12, u64_to_le_bytes(bytes).as_slice());
    write_at(resp, 20, u64_to_le_bytes(elapsed_us).as_slice());
    write_at(resp, 28, u64_to_le_bytes(achieved_bps).as_slice());
    let ghost rep = spec_throughput_report(test_id, direction, frames, bytes, elapsed_us, achieved_bps);
    assert(resp@ =~= spec_write_at(orig, 0, rep));
    Some(THROUGHPUT_REPORT_SIZE)
}

/// `x + y`, or `u32::MAX` when that overflows.
pub open spec fn sat_add_u32(x: u32, y: int) -> u32 {
    if x + y > u32::MAX {
        u32::MAX
    } else {
        (x + y) as u32
    }
}

/// `x + y`, or `u64::MAX` when that overflows.
pub open spec fn sat_add_u64(x: u64, y: int) -> u64 {
    if x + y > u64::MAX {
        u64::MAX
    } else {
        (x + y) as u64
    }
}

/// `x * y`, or `u64::MAX` when that overflows.
pub open spec fn sat_mul_u64(x: u64, y: u64) -> u64 {
    if x * y > u64::MAX {
        u64::MAX
    } else {
        (x * y) as u64
    }
}

fn saturating_mul_u64(x: u64, y: u64) -> (r: u64)
    ensures
        r == sat_mul_u64(x, y),
{
    match x.checked_mul(y) {
        Some(v) => v,
        None => u64::MAX,
    }
}

/// The state after a throughput request arrives at `now_us`: a request in
/// which the peer sends (direction 0) starts a fresh test.
pub open spec fn spec_throughput_request(payload: Seq<u8>, st: ThroughputState, now_us: u64) -> ThroughputState {
    match spec_parse_throughput_request(payload) {
        Some((test_id, direction, duration_secs, _fs, _rate)) => {
            if direction == 0 {
                ThroughputState {
                    test_id,
                    frames_recv: 0,
                    bytes_recv: 0,
                    started_at: Some(now_us),
                    duration_secs,
                    active: true,
                }
            } else {
                st
            }
        },
        None => st,
    }
}

/// Starts a throughput test when the peer asks to stream to us.
pub fn handle_throughput_request(payload: &[u8], throughput: &mut ThroughputState, now_us: u64)
    ensures
        *final(throughput) == spec_throughput_request(payload@, *old(throughput), now_us),
{
    if let Some((test_id, direction, duration_secs, _frame_size, _rate_bps)) = parse_throughput_request(payload) {
        if direction == 0 {
            *throughput = ThroughputState {
                test_id,
                frames_recv: 0,
                bytes_recv: 0,
                started_at: Some(now_us),
                duration_secs,
                active: true,
            };
        }
    }
}

/// Achieved rate in bits per second: `bytes * 8 * 10^6 / elapsed_us`
/// (saturating), or 0 for zero elapsed time.
pub open spec fn spec_achieved_bps(bytes: u64, elapsed_us: u64) -> u64 {
    if elapsed_us == 0 {
        0
    } else {
        (sat_mul_u64(sat_mul_u64(bytes, 8), 1_000_000) / elapsed_us) as u64
    }
}

/// Action, state and response buffer after a throughput stream frame
/// arrives at `now_us`. Frames of the running test are counted; once the
/// test's duration has passed, the test ends and a report is answered.
pub open spec fn spec_throughput_stream(payload: Seq<u8>, st: ThroughputState, resp: Seq<u8>, now_us: u64) -> (
    FrameAction,
    ThroughputState,
    Seq<u8>,
) {
    if !st.active {
        (FrameAction::Continue, st, resp)
    } else {
        match spec_parse_throughput_stream(payload) {
            None => (FrameAction::Continue, st, resp),
            Some((test_id, _seq)) => {
                if test_id != st.test_id {
                    (FrameAction::Continue, st, resp)
                } else {
                    let st1 = ThroughputState {
                        frames_recv: sat_add_u32(st.frames_recv, 1),
                        bytes_recv: sat_add_u64(st.bytes_recv, payload.len() as int),
                        ..st
                    };
                    match st.started_at {
                        None => (FrameAction::Continue, st1, resp),
                        Some(t) => {
                            let elapsed = if now_us >= t {
                                (now_us - t) as u64
                            } else {
                                0u64
                            };
                            if elapsed < st.duration_secs * 1_000_000 {
                                (FrameAction::Continue, st1, resp)
                            } else {
                                let st2 = ThroughputState { active: false, ..st1 };
                                let rep = spec_throughput_report(
                                    st1.test_id,
                                    0,
                                    st1.frames_recv,
                                    st1.bytes_recv,
                                    elapsed,
                                    spec_achieved_bps(st1.bytes_recv, elapsed),
                                );
                                if THROUGHPUT_REPORT_SIZE <= resp.len() {
                                    (
                                        FrameAction::SendLinkMessage {
                                            msg_type: MSG_THROUGHPUT_REPORT,
                                            len: THROUGHPUT_REPORT_SIZE,
                                        },
                                        st2,
                                        spec_write_at(resp, 0, rep),
                                    )
                                } else {
                                    (FrameAction::Continue, st2, resp)
                                }
                            }
                        },
                    }
                }
            },
        }
    }
}

/// Counts a throughput stream frame and, once the test is over, answers
/// with a throughput report.
pub fn handle_throughput_stream(payload: &[u8], throughput: &mut ThroughputState, resp: &mut [u8], now_us: u64) -> (a: FrameAction)
    ensures
        (a, *final(throughput), final(resp)@) == spec_throughput_stream(
            payload@,
            *old(throughput),
            old(resp)@,
            now_us,
        ),
{
    if !throughput.active {
        return FrameAction::Continue;
    }
    let (test_id, _sequence) = match parse_throughput_stream(payload) {
        Some(v) => v,
        None => return FrameAction::Continue,
    };
    if test_id != throughput.test_id {
        return FrameAction::Continue;
    }
    throughput.frames_recv = throughput.frames_recv.saturating_add(1);
    throughput.bytes_recv = throughput.bytes_recv.saturating_add(payload.len() as u64);
    let elapsed_us = match throughput.started_at {
        Some(t) => now_us.saturating_sub(t),
        None => return FrameAction::Continue,
    };
    let target_duration_us = (throughput.duration_secs as u64) * 1_000_000;
    if elapsed_us < target_duration_us {
        return FrameAction::Continue;
    }
    let report = *throughput;
    throughput.active = false;
    let achieved_bps = if elapsed_us == 0 {
        0
    } else {
        saturating_mul_u64(saturating_mul_u64(report.bytes_recv, 8), 1_000_000) / elapsed_us
    };
    match build_throughput_report(
        report.test_id,
        0,
        report.frames_recv,
        report.bytes_recv,
        elapsed_us,
        achieved_bps,
        resp,
    ) {
        Some(resp_len) => FrameAction::SendLinkMessage { msg_type: MSG_THROUGHPUT_REPORT, len: resp_len },
        None => FrameAction::Continue,
    }
}

/// What dispatch decides for a frame: an action the node takes on its own,
/// or handing the message to the application's handler.
#[derive(Clone, Copy, Debug, PartialEq, Eq, Structural)]
pub enum LinkDispatch {
    Action(FrameAction),
    ToHandler,
}

/// Dispatch of a decrypted frame at `now_us`: the decision, the throughput
/// state and the response buffer afterwards.
pub open spec fn spec_dispatch(frame: DecryptedFrameView, st: ThroughputState, resp: Seq<u8>, now_us: u64) -> (
    LinkDispatch,
    ThroughputState,
    Seq<u8>,
) {
    let t = frame.msg_type;
    if t == MSG_HEARTBEAT {
        (LinkDispatch::Action(FrameAction::HeartbeatRecv), st, resp)
    } else if t == MSG_DISCONNECT {
        let reason = if frame.payload.len() > 0 {
            frame.payload[0]
        } else {
            DISC_REASON_OTHER
        };
        (LinkDispatch::Action(FrameAction::PeerDC { reason }), st, resp)
    } else if t == MSG_SENDER_REPORT {
        let (a, r) = spec_rr_response(frame.payload, resp);
        (LinkDispatch::Action(a), st, r)
    } else if t == MSG_RECEIVER_REPORT {
        (LinkDispatch::Action(FrameAction::Continue), st, resp)
    } else if t == MSG_ECHO_REQUEST {
        let (a, r) = spec_echo(frame.payload, resp, now_us);
        (LinkDispatch::Action(a), st, r)
    } else if t == MSG_THROUGHPUT_REQUEST {
        (LinkDispatch::Action(FrameAction::Continue), spec_throughput_request(frame.payload, st, now_us), resp)
    } else if t == MSG_THROUGHPUT_STREAM {
        let (a, s, r) = spec_throughput_stream(frame.payload, st, resp, now_us);
        (LinkDispatch::Action(a), s, r)
    } else {
        (LinkDispatch::ToHandler, st, resp)
    }
}

/// Decides what a decrypted link message asks for, at time `now_us`.
///
/// Heartbeats, disconnects, MMP reports, echo and throughput tests are
/// handled here; any other message type goes to the application handler.
pub fn dispatch_link_message_at(
    frame: &crate::established::DecryptedFrame,
    throughput: &mut ThroughputState,
    resp: &mut [u8],
    now_us: u64,
) -> (d: LinkDispatch)
    ensures
        (d, *final(throughput), final(resp)@) == spec_dispatch(frame@, *old(throughput), old(resp)@, now_us),
{
    let t = frame.msg_type;
    if t == MSG_HEARTBEAT {
        LinkDispatch::Action(FrameAction::HeartbeatRecv)
    } else if t == MSG_DISCONNECT {
        let reason = if frame.payload.len() > 0 {
            frame.payload[0]
        } else {
            DISC_REASON_OTHER
        };
        LinkDispatch::Action(FrameAction::PeerDC { reason })
    } else if t == MSG_SENDER_REPORT {
        LinkDispatch::Action(build_receiver_report_response(frame.payload.as_slice(), resp))
    } else if t == MSG_RECEIVER_REPORT {
        LinkDispatch::Action(FrameAction::Continue)
    } else if t == MSG_ECHO_REQUEST {
        match parse_echo_request(frame.payload.as_slice()) {
            Some((send_ts, seq, payload)) => {
                match build_echo_response(send_ts, now_us, seq, payload, resp) {
                    Some(resp_len) => LinkDispatch::Action(
                        FrameAction::SendLinkMessage { msg_type: MSG_ECHO_RESPONSE, len: resp_len },
                    ),
                    None => LinkDispatch::Action(FrameAction::Continue),
                }
            },
            None => LinkDispatch::Action(FrameAction::Continue),
        }
    } else if t == MSG_THROUGHPUT_REQUEST {
        handle_throughput_request(frame.payload.as_slice(), throughput, now_us);
        LinkDispatch::Action(FrameAction::Continue)
    } else if t == MSG_THROUGHPUT_STREAM {
        LinkDispatch::Action(handle_throughput_stream(frame.payload.as_slice(), throughput, resp, now_us))
    } else {
        LinkDispatch::ToHandler
    }
}

/// The message types the node answers itself; any other goes to the handler.
pub open spec fn handled_by_node(t: u8) -> bool {
    t == MSG_HEARTBEAT || t == MSG_DISCONNECT || t == MSG_SENDER_REPORT || t == MSG_RECEIVER_REPORT
        || t == MSG_ECHO_REQUEST || t == MSG_THROUGHPUT_REQUEST || t == MSG_THROUGHPUT_STREAM
}

/// Decides what a decrypted link message asks for and, for a message the
/// node does not handle itself, asks `handler` once with the message's type
/// and payload and maps its answer. The clock is read for the echo and
/// throughput timestamps: the outcome is that of `dispatch_link_message_at`
/// for the time read, then the handler's answer.
pub fn dispatch_link_message<H: NodeHandler>(
    frame: &crate::established::DecryptedFrame,
    throughput: &mut ThroughputState,
    handler: &mut H,
    resp: &mut [u8],
) -> (a: FrameAction)
    ensures
        handled_by_node(frame.msg_type) ==> exists|t: u64|
            {
                let (d, th, r) = #[trigger] spec_dispatch(frame@, *old(throughput), old(resp)@, t);
                &&& d == LinkDispatch::Action(a)
                &&& *final(throughput) == th
                &&& final(resp)@ == r
            },
        handled_by_node(frame.msg_type) ==> *final(handler) == *old(handler),
        !handled_by_node(frame.msg_type) ==> *final(throughput) == *old(throughput),
        H::obeys_handler_spec() && !handled_by_node(frame.msg_type) ==> {
            let (h, r) = old(handler).message_answer(frame.msg_type, frame.payload@, old(resp)@);
            &&& a == spec_handle_result_action(h)
            &&& final(resp)@ == r
        },
        a matches FrameAction::SendDatagram(len) ==> len <= old(resp)@.len(),
{
    let now = crate::clock::now_micros();
    match dispatch_link_message_at(frame, throughput, resp, now) {
        LinkDispatch::Action(a) => a,
        LinkDispatch::ToHandler => {
            let h = handler.on_message(frame.msg_type, frame.payload.as_slice(), resp);
            handle_result_action(h)
        },
    }
}

/// A throughput test that is not active ignores stream frames: whatever
/// their payload and whenever they arrive, the frame gives `Continue` and
/// leaves the test state and the response buffer as they were. This holds
/// through dispatch as well.
pub proof fn inactive_throughput_ignores_stream(payload: Seq<u8>, st: ThroughputState, resp: Seq<u8>, now_us: u64)
    requires
        !st.active,
    ensures
        spec_throughput_stream(payload, st, resp, now_us) == (FrameAction::Continue, st, resp),
        forall|f: DecryptedFrameView|
            f.msg_type == MSG_THROUGHPUT_STREAM ==> #[trigger] spec_dispatch(f, st, resp, now_us) == (
                LinkDispatch::Action(FrameAction::Continue),
                st,
                resp,
            ),
{
}

} // verus!
