use microfips::lr2021_framing::{RxFramer, TxFramer, MAX_PACKET};

// ── TxFramer tests ──────────────────────────────────────────────

#[test]
fn test_tx_small_chunk_no_flush() {
    let mut f = TxFramer::new();
    assert_eq!(f.push(b"hello"), 5);
    assert!(!f.is_full());
    assert_eq!(f.pending(), 5);
    assert!(f.has_pending());
}

#[test]
fn test_tx_flush_partial() {
    let mut f = TxFramer::new();
    f.push(b"hello");
    let mut pkt = [0u8; MAX_PACKET];
    let n = f.take_packet(&mut pkt).unwrap();
    assert_eq!(n, 5);
    assert_eq!(&pkt[..n], b"hello");
    assert!(!f.has_pending());
}

#[test]
fn test_tx_fill_exactly_max() {
    let mut f = TxFramer::new();
    let data = [0xABu8; MAX_PACKET];
    let consumed = f.push(&data);
    assert_eq!(consumed, MAX_PACKET);
    assert!(f.is_full());

    let mut pkt = [0u8; MAX_PACKET];
    let n = f.take_packet(&mut pkt).unwrap();
    assert_eq!(n, MAX_PACKET);
    assert!(!f.has_pending());
}

#[test]
fn test_tx_push_more_than_space_truncates() {
    let mut f = TxFramer::new();
    f.push(b"hello"); // 5 bytes buffered
    let data = [0x42u8; MAX_PACKET]; // push MAX_PACKET more
    let consumed = f.push(&data);
    // Only MAX_PACKET - 5 = 250 bytes fit
    assert_eq!(consumed, MAX_PACKET - 5);
    assert!(f.is_full());
    assert_eq!(f.pending(), MAX_PACKET);

    // Take the packet
    let mut pkt = [0u8; MAX_PACKET];
    let n = f.take_packet(&mut pkt).unwrap();
    assert_eq!(n, MAX_PACKET);
    // First 5 bytes should be "hello"
    assert_eq!(&pkt[..5], b"hello");
    // Rest should be 0x42
    assert_eq!(&pkt[5..], &[0x42u8; MAX_PACKET - 5]);
}

#[test]
fn test_tx_multi_packet_large_data() {
    let mut f = TxFramer::new();
    let data = [0xCDu8; 600];

    // First push: fills to MAX_PACKET (255 bytes consumed)
    let consumed1 = f.push(&data);
    assert_eq!(consumed1, MAX_PACKET);
    assert!(f.is_full());

    // Extract first packet
    let mut pkt = [0u8; MAX_PACKET];
    let n1 = f.take_packet(&mut pkt).unwrap();
    assert_eq!(n1, MAX_PACKET);
    assert_eq!(&pkt[..MAX_PACKET], &data[..MAX_PACKET]);

    // Push remaining 345 bytes — buffer is 255 capacity, so only 255 fit
    let consumed2 = f.push(&data[MAX_PACKET..]);
    assert_eq!(consumed2, MAX_PACKET); // 345 bytes in, 255 consumed
    assert!(f.is_full());

    // Extract second full packet
    let n2 = f.take_packet(&mut pkt).unwrap();
    assert_eq!(n2, MAX_PACKET);
    assert_eq!(&pkt[..MAX_PACKET], &data[MAX_PACKET..MAX_PACKET * 2]);

    // Push remaining 90 bytes
    let consumed3 = f.push(&data[MAX_PACKET * 2..]);
    assert_eq!(consumed3, 90);
    assert!(!f.is_full());

    // Flush final partial packet
    let n3 = f.take_packet(&mut pkt).unwrap();
    assert_eq!(n3, 90);
    assert_eq!(&pkt[..90], &data[MAX_PACKET * 2..]);
}

// ── RxFramer tests ──────────────────────────────────────────────

#[test]
fn test_rx_push_and_drain() {
    let mut f = RxFramer::new();
    f.push_packet(b"hello world");
    let mut buf = [0u8; 64];
    let n = f.drain(&mut buf);
    assert_eq!(n, 11);
    assert_eq!(&buf[..n], b"hello world");
    assert_eq!(f.available(), 0);
}

#[test]
fn test_rx_partial_drain() {
    let mut f = RxFramer::new();
    f.push_packet(b"abcdefghij"); // 10 bytes
    let mut buf = [0u8; 4];
    assert_eq!(f.drain(&mut buf), 4);
    assert_eq!(&buf, b"abcd");
    assert_eq!(f.drain(&mut buf), 4);
    assert_eq!(&buf, b"efgh");
    assert_eq!(f.drain(&mut buf), 2);
    assert_eq!(&buf[..2], b"ij");
    assert_eq!(f.drain(&mut buf), 0);
}

#[test]
fn test_rx_multiple_packets() {
    let mut f = RxFramer::new();
    f.push_packet(b"AAA");
    f.push_packet(b"BBB");
    let mut buf = [0u8; 64];
    let n = f.drain(&mut buf);
    assert_eq!(n, 6);
    assert_eq!(&buf[..n], b"AAABBB");
}

#[test]
fn test_rx_drain_empty() {
    let mut f = RxFramer::new();
    let mut buf = [0u8; 8];
    assert_eq!(f.drain(&mut buf), 0);
}

#[test]
fn test_rx_compact_after_partial_drain() {
    let mut f = RxFramer::new();
    f.push_packet(&[0u8; 200]);
    let mut buf = [0u8; 100];
    f.drain(&mut buf); // drain 100, read_pos=100
    assert_eq!(f.available(), 100);
    f.push_packet(b"more"); // should compact + append
    assert_eq!(f.available(), 104);
    let mut buf2 = [0u8; 200];
    let n = f.drain(&mut buf2);
    assert_eq!(n, 104);
}

// ── Round-trip: TX → radio → RX ─────────────────────────────────

#[test]
fn test_roundtrip_small_frame() {
    // Simulates FrameWriter sending header(2) + payload(20) over LR2021
    let mut tx = TxFramer::new();
    let mut rx = RxFramer::new();

    let header = 20u16.to_le_bytes();
    let payload = [0x55u8; 20];

    // FrameWriter calls send(header) then send(payload)
    tx.push(&header);
    tx.push(&payload);

    // Flush as a packet (simulates radio TX)
    let mut pkt = [0u8; MAX_PACKET];
    let n = tx.take_packet(&mut pkt).unwrap();

    // Radio RX receives the packet
    rx.push_packet(&pkt[..n]);

    // FrameReader calls recv() to get bytes
    let mut buf = [0u8; 64];
    let n = rx.drain(&mut buf);
    assert_eq!(n, 22); // 2 header + 20 payload
    assert_eq!(&buf[..2], &header);
    assert_eq!(&buf[2..22], &payload);
}

#[test]
fn test_roundtrip_large_frame_fragments() {
    // Frame larger than MAX_PACKET — requires fragmentation
    let mut tx = TxFramer::new();
    let mut rx = RxFramer::new();

    let payload = [0x77u8; 500];
    let header = 500u16.to_le_bytes();

    tx.push(&header);
    // Push 500 bytes — only 253 fit (255 - 2 header already buffered)
    let consumed1 = tx.push(&payload);
    assert_eq!(consumed1, 253);
    assert!(tx.is_full());

    // Extract first packet (255 bytes: 2 header + 253 payload)
    let mut pkt1 = [0u8; MAX_PACKET];
    let pkt1_len = tx.take_packet(&mut pkt1).unwrap();
    assert_eq!(pkt1_len, 255);

    // Radio TX/RX first packet
    rx.push_packet(&pkt1[..pkt1_len]);

    // Push remaining 247 bytes of payload
    let consumed2 = tx.push(&payload[consumed1..]);
    assert_eq!(consumed2, 247);

    // Extract second packet
    let mut pkt2 = [0u8; MAX_PACKET];
    let pkt2_len = tx.take_packet(&mut pkt2).unwrap();
    assert_eq!(pkt2_len, 247);

    // Radio TX/RX second packet
    rx.push_packet(&pkt2[..pkt2_len]);

    // Drain all bytes from RX
    let mut buf = [0u8; 600];
    let total = rx.drain(&mut buf);
    // Total: 255 + 247 = 502 (2 header + 500 payload)
    assert_eq!(total, 502);
    assert_eq!(&buf[..2], &header);
    assert_eq!(buf[2..502], [0x77u8; 500]);
}

#[test]
fn test_roundtrip_multiple_small_frames() {
    // Two small frames in one packet (coalescing)
    let mut tx = TxFramer::new();
    let mut rx = RxFramer::new();

    // Frame 1: 2-byte header + 5-byte payload = 7 bytes
    let hdr1 = 5u16.to_le_bytes();
    let pl1 = b"hello";

    // Frame 2: 2-byte header + 5-byte payload = 7 bytes
    let hdr2 = 5u16.to_le_bytes();
    let pl2 = b"world";

    tx.push(&hdr1);
    tx.push(pl1);
    tx.push(&hdr2);
    tx.push(pl2);

    // All 14 bytes fit in one packet
    let mut pkt = [0u8; MAX_PACKET];
    let n = tx.take_packet(&mut pkt).unwrap();
    assert_eq!(n, 14);

    rx.push_packet(&pkt[..n]);

    let mut buf = [0u8; 64];
    let total = rx.drain(&mut buf);
    assert_eq!(total, 14);
    assert_eq!(&buf[..7], &[5, 0, b'h', b'e', b'l', b'l', b'o']);
    assert_eq!(&buf[7..14], &[5, 0, b'w', b'o', b'r', b'l', b'd']);
}

// --- further cases ---

#[test]
fn tx_take_packet_into_short_buffer_truncates() {
    let mut f = TxFramer::new();
    f.push(b"abcdef");
    let mut out = [0u8; 4];
    assert_eq!(f.take_packet(&mut out), Some(4));
    assert_eq!(&out, b"abcd");
    assert!(!f.has_pending());
}

#[test]
fn tx_take_packet_empty_is_none() {
    let mut f = TxFramer::default();
    let mut out = [7u8; 4];
    assert_eq!(f.take_packet(&mut out), None);
    assert_eq!(out, [7u8; 4]);
}

#[test]
fn tx_flush_packet_keeps_buffer() {
    let mut f = TxFramer::new();
    assert!(f.flush_packet().is_none());
    f.push(b"xy");
    assert_eq!(f.flush_packet(), Some(&b"xy"[..]));
    assert_eq!(f.pending(), 2);
    f.clear();
    assert!(!f.has_pending());
}

#[test]
fn rx_overflow_drops_packet() {
    let mut f = RxFramer::default();
    assert!(f.push_packet(&[1u8; MAX_PACKET]));
    assert!(f.push_packet(&[2u8; MAX_PACKET]));
    assert!(!f.push_packet(&[3u8; 1]));
    assert_eq!(f.available(), 2 * MAX_PACKET);
    let mut buf = [0u8; 600];
    assert_eq!(f.drain(&mut buf), 2 * MAX_PACKET);
    assert_eq!(buf[MAX_PACKET - 1], 1);
    assert_eq!(buf[MAX_PACKET], 2);
}
