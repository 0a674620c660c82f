use microfips::established::{decrypt_established_frame, encrypt_and_assemble, prepend_inner_header, SessionIndex};
use microfips::esp_now::{esp_now_copy_received, esp_now_oversized, EspNowError};
use microfips::link::{FrameAction, HandleResult, LinkDispatch, MSG_HEARTBEAT, MSG_SENDER_REPORT, MSG_SESSION_DATAGRAM, NoopHandler};
use microfips::mmp::MmpPeerState;
use microfips::node::{
    addr_less, next_backoff, retry_delay_secs, FrameEffect, HandshakeFrame, HandshakeState, Msg1Decision, Node,
    NodeEvent, NodeHandler, Outgoing, SteadyFrame, MAX_COMPETING_MSG1, MSG1_RESEND_MAX,
};
use microfips::peer_policy::PolicyVerdict;
use microfips::link::{DISC_REASON_RESOURCE_EXHAUSTION, DISC_REASON_SECURITY_VIOLATION, DISC_REASON_TRANSPORT_FAILURE};
use microfips::node::{stop_outcome, ProtocolError, SteadyStop};
use microfips::wire::{build_msg1, build_msg2, build_prefix, PHASE_ESTABLISHED};

fn test_node() -> Node {
    Node::new([0u8; 32], [0u8; 33])
}

#[test]
fn test_send_frame_works() {
    let node = test_node();
    let payload = b"hello";
    let hdr = node.frame_header(payload.len());
    assert_eq!(hdr, Some([5u8, 0u8]));
    let mut tx: Vec<u8> = hdr.unwrap().to_vec();
    tx.extend_from_slice(payload);
    let expected: Vec<u8> = {
        let mut v = (5u16).to_le_bytes().to_vec();
        v.extend_from_slice(b"hello");
        v
    };
    assert_eq!(tx, expected);
}

#[test]
fn test_recv_frame_from_buffer() {
    let mut node = test_node();
    let frame: Vec<u8> = {
        let mut v = (3u16).to_le_bytes().to_vec();
        v.extend_from_slice(b"abc");
        v
    };
    assert!(node.push_received(&frame));
    let mut out = [0u8; 256];
    let n = node.take_frame(&mut out).unwrap();
    assert_eq!(n, 3);
    assert_eq!(&out[..3], b"abc");
}

#[test]
fn test_advance_epoch_starts_at_one_and_uses_little_endian() {
    let mut node = test_node();
    assert_eq!(node.advance_epoch(), 1u64.to_le_bytes());
    assert_eq!(node.epoch(), 1);
    node.set_epoch(0x0102_0304_0506_0707);
    assert_eq!(node.advance_epoch(), 0x0102_0304_0506_0708u64.to_le_bytes());
    assert_eq!(node.epoch(), 0x0102_0304_0506_0708);
}

#[test]
fn test_advance_epoch_wraps() {
    let mut node = test_node();
    node.set_epoch(u64::MAX);
    assert_eq!(node.advance_epoch(), 0u64.to_le_bytes());
    assert_eq!(node.epoch(), 0);
}

#[test]
fn test_handshake_timeout_on_no_response() {
    // No frame ever arrives: message 1 is resent MSG1_RESEND_MAX times, then the handshake times out.
    let mut hs = HandshakeState::new();
    let mut resends = 0u32;
    while hs.on_timeout() {
        resends += 1;
    }
    assert_eq!(resends, MSG1_RESEND_MAX);
    assert_eq!(resends, 10);
    assert_eq!(hs.resend_count, MSG1_RESEND_MAX + 1);
}

// --- further cases ---

#[test]
fn raw_framing_sends_no_header() {
    let mut node = test_node();
    node.set_raw_framing(true);
    assert!(node.raw_framing());
    assert_eq!(node.frame_header(5), None);
}

#[test]
fn length_prefixed_stream_split_across_reads() {
    let mut node = test_node();
    assert!(node.push_received(&[4, 0, b'a']));
    let mut out = [0u8; 16];
    assert_eq!(node.take_frame(&mut out), None);
    node.compact_received();
    assert!(node.push_received(&[b'b', b'c', b'd', 0, 0, 1, 0, b'z']));
    assert_eq!(node.take_frame(&mut out), Some(4));
    assert_eq!(&out[..4], b"abcd");
    // the zero length prefix is skipped
    assert_eq!(node.take_frame(&mut out), Some(1));
    assert_eq!(out[0], b'z');
    assert_eq!(node.take_frame(&mut out), None);
}

#[test]
fn receive_overflow_drops_buffer() {
    let mut node = test_node();
    assert!(node.push_received(&[0u8; 2000]));
    assert!(!node.push_received(&[0u8; 100]));
    let mut out = [0u8; 16];
    assert_eq!(node.take_frame(&mut out), None);
}

fn heartbeat_frame(key: &[u8; 32], counter: u64) -> Vec<u8> {
    let inner = prepend_inner_header(1, &[MSG_HEARTBEAT]);
    encrypt_and_assemble(SessionIndex::new(0), counter, 0, &inner, key, 256).unwrap()
}

#[test]
fn steady_frame_decrypts_and_dispatches() {
    let key = [0x42u8; 32];
    let mut node = test_node();
    let frame = heartbeat_frame(&key, 0);
    let mut wire = (frame.len() as u16).to_le_bytes().to_vec();
    wire.extend_from_slice(&frame);
    assert!(node.push_received(&wire));
    let step = node.steady_frame(&key, 1_000_000);
    let SteadyFrame::Frame(f) = step else { panic!("expected a frame, got {step:?}") };
    assert_eq!(f.msg_type, MSG_HEARTBEAT);
    let d = node.dispatch(&f, 1_000_000);
    assert_eq!(d, LinkDispatch::Action(FrameAction::HeartbeatRecv));
    let e = node.process_frame_action(FrameAction::HeartbeatRecv);
    assert_eq!(e, FrameEffect { event: Some(NodeEvent::HeartbeatRecv), send: None, exit: false });
    assert!(matches!(node.steady_frame(&key, 1_000_000), SteadyFrame::NeedData));
}

#[test]
fn steady_frame_bad_frames_reach_limit() {
    let key = [0x42u8; 32];
    let wrong = [0x43u8; 32];
    let mut node = test_node();
    node.set_raw_framing(true);
    let frame = heartbeat_frame(&wrong, 0);
    for _ in 0..19 {
        assert!(node.push_received(&frame));
        assert!(matches!(node.steady_frame(&key, 1_000_000), SteadyFrame::Undecryptable));
    }
    assert!(node.push_received(&frame));
    assert!(matches!(node.steady_frame(&key, 1_000_000), SteadyFrame::BadFrameLimit));
}

#[test]
fn steady_frame_rate_limited() {
    let key = [0x42u8; 32];
    let mut node = test_node();
    node.set_raw_framing(true);
    for i in 0..100u64 {
        assert!(node.push_received(&heartbeat_frame(&key, i)));
        assert!(matches!(node.steady_frame(&key, 5_000_000), SteadyFrame::Frame(_)));
    }
    assert!(node.push_received(&heartbeat_frame(&key, 100)));
    assert!(matches!(node.steady_frame(&key, 5_000_000), SteadyFrame::RateLimited));
}

#[test]
fn sealed_messages_decrypt_at_peer() {
    let ks = [0x21u8; 32];
    let node = test_node();
    let mut ctr = 7u64;
    let f = node.seal_outgoing(Outgoing::Heartbeat, &ks, SessionIndex::new(3), &mut ctr, 5_000_000).unwrap();
    assert_eq!(ctr, 8);
    let d = decrypt_established_frame(&ks, &f).unwrap();
    assert_eq!(d.counter, 7);
    assert_eq!(d.sender_timestamp, 5_000);
    assert_eq!(d.msg_type, MSG_HEARTBEAT);
    assert!(d.payload.is_empty());
    let f2 = node.seal_outgoing(Outgoing::Disconnect(0x04), &ks, SessionIndex::new(3), &mut ctr, 6_000_000).unwrap();
    let d2 = decrypt_established_frame(&ks, &f2).unwrap();
    assert_eq!(d2.payload, vec![0x04]);
    assert_eq!(d2.counter, 8);
}

#[test]
fn datagram_answer_carries_handler_response() {
    struct Echo;
    impl NodeHandler for Echo {
        fn on_message(&mut self, _t: u8, payload: &[u8], resp: &mut [u8]) -> HandleResult {
            resp[..payload.len()].copy_from_slice(payload);
            HandleResult::SendDatagram(payload.len())
        }
        fn on_tick(&mut self, _resp: &mut [u8]) -> HandleResult {
            HandleResult::NoReply
        }
    }
    let key = [0x42u8; 32];
    let mut node = test_node();
    node.set_raw_framing(true);
    let inner = prepend_inner_header(1, &[MSG_SESSION_DATAGRAM, b'h', b'i']);
    let frame = encrypt_and_assemble(SessionIndex::new(0), 0, 0, &inner, &key, 256).unwrap();
    assert!(node.push_received(&frame));
    let SteadyFrame::Frame(f) = node.steady_frame(&key, 1) else { panic!() };
    assert_eq!(node.dispatch(&f, 1), LinkDispatch::ToHandler);
    let action = node.deliver(&f, &mut Echo);
    assert_eq!(action, FrameAction::SendDatagram(2));
    let effect = node.process_frame_action(action);
    assert_eq!(effect.send, Some(Outgoing::Datagram(2)));
    let mut ctr = 0;
    let out = node.seal_outgoing(Outgoing::Datagram(2), &key, SessionIndex::new(9), &mut ctr, 1).unwrap();
    let d = decrypt_established_frame(&key, &out).unwrap();
    assert_eq!(d.msg_type, MSG_SESSION_DATAGRAM);
    assert_eq!(d.payload, b"hi".to_vec());
}

struct PingPong {
    ticks: u32,
}

impl NodeHandler for PingPong {
    fn on_message(&mut self, msg_type: u8, payload: &[u8], resp: &mut [u8]) -> HandleResult {
        if msg_type == MSG_SESSION_DATAGRAM && payload == b"ping" {
            resp[..4].copy_from_slice(b"pong");
            HandleResult::SendDatagram(4)
        } else if msg_type == 0xAA {
            HandleResult::Disconnect
        } else {
            HandleResult::NoReply
        }
    }
    fn on_tick(&mut self, resp: &mut [u8]) -> HandleResult {
        self.ticks += 1;
        if self.ticks % 2 == 1 {
            resp[..4].copy_from_slice(b"tick");
            HandleResult::SendDatagram(4)
        } else {
            HandleResult::NoReply
        }
    }
}

fn decrypted_frame(key: &[u8; 32], msg_type: u8, payload: &[u8]) -> microfips::established::DecryptedFrame {
    let mut msg = vec![msg_type];
    msg.extend_from_slice(payload);
    let inner = prepend_inner_header(77777, &msg);
    let frame = encrypt_and_assemble(SessionIndex::new(0), 5, 0, &inner, key, 256).unwrap();
    decrypt_established_frame(key, &frame).unwrap()
}

#[test]
fn deliver_maps_handler_answers() {
    let key = [0x42u8; 32];
    let mut node = test_node();
    let mut h = PingPong { ticks: 0 };
    let ping = decrypted_frame(&key, MSG_SESSION_DATAGRAM, b"ping");
    assert_eq!(node.dispatch(&ping, 1), LinkDispatch::ToHandler);
    assert_eq!(node.deliver(&ping, &mut h), FrameAction::SendDatagram(4));
    let mut ctr = 0;
    let out = node.seal_outgoing(Outgoing::Datagram(4), &key, SessionIndex::new(9), &mut ctr, 1).unwrap();
    assert_eq!(decrypt_established_frame(&key, &out).unwrap().payload, b"pong".to_vec());
    let other = decrypted_frame(&key, MSG_SESSION_DATAGRAM, b"other");
    assert_eq!(node.deliver(&other, &mut h), FrameAction::Continue);
    let bye = decrypted_frame(&key, 0xAA, b"bye");
    assert_eq!(node.deliver(&bye, &mut h), FrameAction::SelfDC);
}

#[test]
fn tick_maps_timer_answers() {
    let key = [0x42u8; 32];
    let mut node = test_node();
    let mut h = PingPong { ticks: 0 };
    assert_eq!(node.tick(&mut h), Some(4));
    let mut ctr = 0;
    let out = node.seal_outgoing(Outgoing::Datagram(4), &key, SessionIndex::new(9), &mut ctr, 1).unwrap();
    assert_eq!(decrypt_established_frame(&key, &out).unwrap().payload, b"tick".to_vec());
    assert_eq!(node.tick(&mut h), None);
    assert_eq!(node.tick(&mut NoopHandler), None);
}

#[test]
fn noop_handler_answers_nothing() {
    let mut h = NoopHandler;
    let mut resp = [0u8; 4];
    assert_eq!(NodeHandler::on_message(&mut h, 1, b"x", &mut resp), HandleResult::NoReply);
    assert_eq!(h.on_tick(&mut resp), HandleResult::NoReply);
}

#[test]
fn self_disconnect_effect() {
    let mut node = test_node();
    let e = node.process_frame_action(FrameAction::SelfDC);
    assert_eq!(e, FrameEffect { event: None, send: Some(Outgoing::Disconnect(0x00)), exit: true });
    let e = node.process_frame_action(FrameAction::PeerDC { reason: 3 });
    assert_eq!(e, FrameEffect { event: None, send: None, exit: true });
}

#[test]
fn sender_report_counts_interval() {
    let ks = [0x21u8; 32];
    let mut node = test_node();
    let mut st = node.begin_steady(2_000_000);
    assert_eq!(st.next_hb, 12_000_000);
    assert_eq!(st.next_sr, 7_000_000);
    assert_eq!(st.deadline(None), 7_000_000);
    assert_eq!(st.deadline(Some(3_000_000)), 3_000_000);
    assert!(st.report_due(7_000_000));
    let f = node.seal_sender_report(&mut st, &ks, SessionIndex::new(1), 7_000_000).unwrap();
    assert_eq!(st.send_ctr, 1);
    assert_eq!(st.next_sr, 17_000_000);
    let d = decrypt_established_frame(&ks, &f).unwrap();
    assert_eq!(d.msg_type, MSG_SENDER_REPORT);
    assert_eq!(d.payload.len(), 47);
    assert_eq!(&d.payload[3..11], &0u64.to_le_bytes());
    assert_eq!(&d.payload[11..19], &0u64.to_le_bytes());
    assert_eq!(&d.payload[19..23], &2_000u32.to_le_bytes());
    assert_eq!(&d.payload[23..27], &7_000u32.to_le_bytes());
    let f2 = node.seal_sender_report(&mut st, &ks, SessionIndex::new(1), 17_000_000).unwrap();
    let d2 = decrypt_established_frame(&ks, &f2).unwrap();
    assert_eq!(&d2.payload[3..11], &1u64.to_le_bytes());
    assert_eq!(&d2.payload[11..19], &1u64.to_le_bytes());
    assert_eq!(&d2.payload[19..23], &7_000u32.to_le_bytes());
    st.heartbeat_sent(12_500_000);
    assert_eq!(st.next_hb, 22_500_000);
    assert!(!st.heartbeat_due(22_499_999));
}

#[test]
fn handshake_frames_are_classified() {
    let mut hs = HandshakeState::new();
    let m1 = build_msg1(5, &[0x11u8; 106], 256).unwrap();
    assert_eq!(m1.len(), 114);
    match hs.classify(&m1, false) {
        HandshakeFrame::Msg1 { sender_idx, noise_payload } => {
            assert_eq!(sender_idx, 5);
            assert_eq!(noise_payload, vec![0x11u8; 106]);
        }
        other => panic!("unexpected {other:?}"),
    }
    assert!(matches!(hs.classify(&m1, true), HandshakeFrame::Invalid));
    let m2 = build_msg2(6, 5, &[0x22u8; 57], 256).unwrap();
    assert_eq!(m2.len(), 69);
    assert!(matches!(hs.classify(&m2, false), HandshakeFrame::Msg2 { sender_idx: 6, .. }));
    let mut est = [0u8; 40];
    est[..4].copy_from_slice(&build_prefix(PHASE_ESTABLISHED, 0, 36));
    assert!(matches!(hs.classify(&est, false), HandshakeFrame::Ignore));
    assert!(matches!(hs.classify(&[0xFF; 10], false), HandshakeFrame::Invalid));
}

#[test]
fn tiebreak_and_competing_initiators() {
    let low = [1u8; 16];
    let high = [2u8; 16];
    assert!(addr_less(&low, &high));
    assert!(!addr_less(&high, &low));
    let mut a = HandshakeState::new();
    assert_eq!(a.on_msg1(true, false, &low, &high), Msg1Decision::Wait);
    let mut b = HandshakeState::new();
    assert_eq!(b.on_msg1(true, false, &high, &low), Msg1Decision::Respond);
    let mut c = HandshakeState::new();
    assert_eq!(c.on_msg1(true, true, &low, &high), Msg1Decision::Respond);
    let mut d = HandshakeState::new();
    for _ in 0..MAX_COMPETING_MSG1 {
        assert_eq!(d.on_msg1(false, false, &low, &high), Msg1Decision::Wait);
    }
    assert_eq!(d.on_msg1(false, false, &low, &high), Msg1Decision::GiveUp);
}

#[test]
fn retry_delays() {
    assert_eq!(retry_delay_secs(0), 3);
    assert_eq!(retry_delay_secs(1), 6);
    assert_eq!(retry_delay_secs(3), 24);
    assert_eq!(retry_delay_secs(4), 48);
    assert_eq!(retry_delay_secs(100), 48);
    assert_eq!(next_backoff(5, true), 0);
    assert_eq!(next_backoff(5, false), 6);
    assert_eq!(next_backoff(u32::MAX, false), u32::MAX);
}

#[test]
fn session_policy_bookkeeping() {
    let mut node = test_node();
    assert_eq!(node.check_reconnect(0), PolicyVerdict::Allow);
    node.record_connect_attempt(1_000_000);
    assert_eq!(node.check_reconnect(2_000_000), PolicyVerdict::Backoff(4_000));
    let epoch = node.begin_session();
    assert_eq!(epoch, 1u64.to_le_bytes());
    node.finish_handshake(false, 2_000_000);
    assert_eq!(node.check_reconnect(2_000_000), PolicyVerdict::Backoff(5_000));
    node.finish_handshake(true, 3_000_000);
    assert_eq!(node.check_reconnect(3_000_000), PolicyVerdict::Allow);
    node.finish_steady();
    assert_eq!(node.check_silent_peer(100_000_000), PolicyVerdict::Allow);
}

#[test]
fn esp_now_copy_limits() {
    let received = [9u8; 250];
    let mut small = [0u8; 10];
    assert_eq!(esp_now_copy_received(&received, &mut small), 10);
    assert_eq!(small, [9u8; 10]);
    let mut big = [0u8; 300];
    assert_eq!(esp_now_copy_received(&received, &mut big), 250);
    assert_eq!(big[249], 9);
    assert_eq!(big[250], 0);
    assert!(esp_now_oversized(251));
    assert!(!esp_now_oversized(250));
    let _ = EspNowError;
}

#[test]
fn mmp_state_starts_empty() {
    let mut m = MmpPeerState::new();
    assert_eq!(m.receiver.highest_counter, 0);
    m.receiver.record_recv(5, 100);
    m.receiver.record_recv(3, 50);
    assert_eq!(m.receiver.highest_counter, 5);
    assert_eq!(m.receiver.cumulative_packets_recv, 2);
    assert_eq!(m.receiver.cumulative_bytes_recv, 150);
}

#[test]
fn steady_stops_name_their_disconnect() {
    assert_eq!(
        stop_outcome(SteadyStop::BadFrameLimit),
        (Outgoing::Disconnect(DISC_REASON_SECURITY_VIOLATION), Err(ProtocolError::Disconnected))
    );
    assert_eq!(
        stop_outcome(SteadyStop::TransportFailure),
        (Outgoing::Disconnect(DISC_REASON_TRANSPORT_FAILURE), Err(ProtocolError::Disconnected))
    );
    assert_eq!(
        stop_outcome(SteadyStop::SilentPeer),
        (Outgoing::Disconnect(DISC_REASON_RESOURCE_EXHAUSTION), Err(ProtocolError::Disconnected))
    );
    let node = test_node();
    assert_eq!(node.silent_peer_stop(1_000_000), None);
}

#[test]
fn retry_schedule_over_sessions() {
    let outcomes = [true, false, false, false, false, false, false, true, false];
    let expected = [3u64, 6, 12, 24, 48, 48, 48, 3, 6];
    let mut backoff = 0u32;
    for (ok, want) in outcomes.iter().zip(expected.iter()) {
        backoff = next_backoff(backoff, *ok);
        assert_eq!(retry_delay_secs(backoff), *want);
    }
}

#[test]
fn successive_seals_use_increasing_counters() {
    let key = [0x42u8; 32];
    let node = test_node();
    let mut ctr = 0u64;
    let a = node.seal_outgoing(Outgoing::Heartbeat, &key, SessionIndex::new(9), &mut ctr, 1).unwrap();
    let b = node.seal_outgoing(Outgoing::Heartbeat, &key, SessionIndex::new(9), &mut ctr, 1).unwrap();
    assert_eq!(ctr, 2);
    assert_eq!(decrypt_established_frame(&key, &a).unwrap().counter, 0);
    assert_eq!(decrypt_established_frame(&key, &b).unwrap().counter, 1);
    assert_ne!(a, b);
}

#[test]
fn steady_state_seals_record_increasing_counters() {
    let key = [0x42u8; 32];
    let mut node = test_node();
    let mut st = node.begin_steady(1_000_000);
    let a = node.seal_steady(Outgoing::Heartbeat, &key, SessionIndex::new(9), &mut st, 2_000_000).unwrap();
    let b = node.seal_sender_report(&mut st, &key, SessionIndex::new(9), 7_000_000).unwrap();
    let c = node.seal_steady(Outgoing::Disconnect(0), &key, SessionIndex::new(9), &mut st, 8_000_000).unwrap();
    assert_eq!(st.send_ctr, 3);
    let counters: Vec<u64> =
        [a, b, c].iter().map(|f| decrypt_established_frame(&key, f).unwrap().counter).collect();
    assert_eq!(counters, vec![0, 1, 2]);
}

#[test]
fn wake_plan_orders_timer_work() {
    let mut node = test_node();
    let st = node.begin_steady(0);
    let p = st.wake_plan(false, None, 4_000_000);
    assert!(!p.heartbeat && !p.check_silent && !p.report && !p.tick);
    let p = st.wake_plan(false, Some(4_000_000), 5_000_000);
    assert!(!p.heartbeat && p.report && p.tick);
    let p = st.wake_plan(true, None, 10_000_000);
    assert!(p.heartbeat && !p.check_silent && p.report);
    let p = st.wake_plan(false, None, 10_000_000);
    assert!(p.heartbeat && p.check_silent);
}

#[test]
fn session_index_zero_is_refused() {
    assert!(microfips::node::session_index_from(0).is_none());
    assert_eq!(microfips::node::session_index_from(7).map(|i| i.as_u32()), Some(7));
}
