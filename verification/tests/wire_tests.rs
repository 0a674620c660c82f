use microfips::wire::{
    build_prefix, extract_length_prefixed_frame, extract_raw_frame, fmp_raw_frame_size, MAX_FRAME,
    MSG1_WIRE_SIZE, MSG2_WIRE_SIZE, PHASE_ESTABLISHED, PHASE_MSG1, PHASE_MSG2,
};
use microfips::node::same_x_only;

// --- fmp_raw_frame_size ---

#[test]
fn test_fmp_raw_frame_size_valid_msg1() {
    let mut data = [0u8; MSG1_WIRE_SIZE];
    data[..4].copy_from_slice(&build_prefix(PHASE_MSG1, 0x00, 110));
    assert_eq!(fmp_raw_frame_size(&data), Some(MSG1_WIRE_SIZE));
}

#[test]
fn test_fmp_raw_frame_size_valid_msg2() {
    let mut data = [0u8; MSG2_WIRE_SIZE];
    data[..4].copy_from_slice(&build_prefix(PHASE_MSG2, 0x00, 65));
    assert_eq!(fmp_raw_frame_size(&data), Some(MSG2_WIRE_SIZE));
}

#[test]
fn test_fmp_raw_frame_size_established_returns_none() {
    let prefix = build_prefix(PHASE_ESTABLISHED, 0x00, 84);
    assert_eq!(fmp_raw_frame_size(&prefix), None);
}

#[test]
fn test_fmp_raw_frame_size_truncated_prefix() {
    assert_eq!(fmp_raw_frame_size(&[0x01, 0x00, 0x6e]), None);
    assert_eq!(fmp_raw_frame_size(&[]), None);
    assert_eq!(fmp_raw_frame_size(&[0x00]), None);
}

#[test]
fn test_fmp_raw_frame_size_zero_payload_non_established() {
    let prefix = build_prefix(PHASE_MSG1, 0x00, 0);
    assert_eq!(fmp_raw_frame_size(&prefix), None);
}

#[test]
fn test_fmp_raw_frame_size_zero_payload_established() {
    let prefix = build_prefix(PHASE_ESTABLISHED, 0x00, 0);
    assert_eq!(fmp_raw_frame_size(&prefix), None);
}

#[test]
fn test_fmp_raw_frame_size_bad_version() {
    let data = [0x50, 0x00, 0x00, 0x00];
    assert_eq!(fmp_raw_frame_size(&data), None);
}

#[test]
fn test_fmp_raw_frame_size_msg1_needs_full_data() {
    let prefix = build_prefix(PHASE_MSG1, 0x00, 110);
    assert_eq!(fmp_raw_frame_size(&prefix), None);
}

// --- extract_length_prefixed_frame ---

#[test]
fn test_extract_length_prefixed_complete() {
    let mut buf = [0u8; 16];
    let payload = b"hello";
    buf[..2].copy_from_slice(&(payload.len() as u16).to_le_bytes());
    buf[2..2 + payload.len()].copy_from_slice(payload);
    let (frame, pos) = extract_length_prefixed_frame(&buf, 0, 7).unwrap();
    assert_eq!(frame, payload);
    assert_eq!(pos, 7);
}

#[test]
fn test_extract_length_prefixed_incomplete() {
    let buf = [0x05, 0x00, 0x68, 0x65];
    assert_eq!(extract_length_prefixed_frame(&buf, 0, 4), None);
}

#[test]
fn test_extract_length_prefixed_zero_length() {
    let buf = [0x00, 0x00, 0xFF, 0xFF];
    let (frame, pos) = extract_length_prefixed_frame(&buf, 0, 4).unwrap();
    assert!(frame.is_empty());
    assert_eq!(pos, 2);
}

#[test]
fn test_extract_length_prefixed_exceeds_max() {
    let buf = [
        (MAX_FRAME as u16 + 1).to_le_bytes()[0],
        (MAX_FRAME as u16 + 1).to_le_bytes()[1],
        0x00,
    ];
    let (frame, pos) = extract_length_prefixed_frame(&buf, 0, 3).unwrap();
    assert!(frame.is_empty());
    assert_eq!(pos, 2);
}

#[test]
fn test_extract_length_prefixed_empty_buffer() {
    assert_eq!(extract_length_prefixed_frame(&[], 0, 0), None);
    assert_eq!(extract_length_prefixed_frame(&[0x05], 0, 1), None);
}

#[test]
fn test_extract_length_prefixed_multiple_frames() {
    let mut buf = [0u8; 20];
    buf[0..2].copy_from_slice(&3u16.to_le_bytes());
    buf[2..5].copy_from_slice(b"abc");
    buf[5..7].copy_from_slice(&2u16.to_le_bytes());
    buf[7..9].copy_from_slice(b"xy");
    let (frame, pos) = extract_length_prefixed_frame(&buf, 0, 9).unwrap();
    assert_eq!(frame, b"abc");
    assert_eq!(pos, 5);
    let (frame2, pos2) = extract_length_prefixed_frame(&buf, pos, 9).unwrap();
    assert_eq!(frame2, b"xy");
    assert_eq!(pos2, 9);
}

// --- extract_raw_frame ---

#[test]
fn test_extract_raw_frame_established_uses_full_buffer() {
    let prefix = build_prefix(PHASE_ESTABLISHED, 0x00, 10);
    let mut buf = [0u8; 64];
    buf[..4].copy_from_slice(&prefix);
    buf[4..].fill(0xAA);
    let (frame, pos) = extract_raw_frame(&buf, 0, 64).unwrap();
    assert_eq!(frame.len(), 64);
    assert_eq!(frame[..4], prefix);
    assert_eq!(pos, 64);
}

#[test]
fn test_extract_raw_frame_established_too_short() {
    let prefix = build_prefix(PHASE_ESTABLISHED, 0x00, 10);
    let mut buf = [0u8; 20];
    buf[..4].copy_from_slice(&prefix);
    buf[4..].fill(0xAA);
    assert_eq!(extract_raw_frame(&buf, 0, 20), None);
}

#[test]
fn test_extract_raw_frame_truncated_prefix() {
    let buf = [0x00, 0x00, 0x34];
    assert_eq!(extract_raw_frame(&buf, 0, 3), None);
}

#[test]
fn test_extract_raw_frame_empty_buffer() {
    assert_eq!(extract_raw_frame(&[], 0, 0), None);
}

#[test]
fn test_extract_raw_frame_msg2_mid_buffer() {
    let prefix = build_prefix(PHASE_MSG2, 0x00, 65);
    let mut buf = [0u8; 128];
    buf[10..14].copy_from_slice(&prefix);
    buf[14..14 + 65].fill(0xCC);
    let (frame, pos) = extract_raw_frame(&buf, 10, 79).unwrap();
    assert_eq!(frame.len(), 69);
    assert_eq!(frame[..4], prefix);
    assert_eq!(pos, 79);
}

#[test]
fn test_extract_raw_frame_msg2_needs_full_data() {
    let prefix = build_prefix(PHASE_MSG2, 0x00, 65);
    let mut buf = [0u8; 32];
    buf[..4].copy_from_slice(&prefix);
    buf[4..].fill(0xCC);
    assert_eq!(extract_raw_frame(&buf, 0, 32), None);
}

#[test]
fn test_xonly_peer_comparison_accepts_odd_parity() {
    // Same x-coordinate, different prefix byte (even vs odd y-parity)
    let mut peer_pub_even = [0u8; 33];
    peer_pub_even[0] = 0x02;
    peer_pub_even[1..33].copy_from_slice(&[0xABu8; 32]);

    let mut initiator_pub_odd = [0u8; 33];
    initiator_pub_odd[0] = 0x03; // different prefix
    initiator_pub_odd[1..33].copy_from_slice(&[0xABu8; 32]); // same x-coord

    // x-only comparison should match
    assert_eq!(
        initiator_pub_odd[1..33],
        peer_pub_even[1..33],
        "x-only comparison failed: same x-coord should match regardless of prefix"
    );
    assert!(same_x_only(&initiator_pub_odd, &peer_pub_even));

    // Full comparison would wrongly fail
    assert_ne!(
        initiator_pub_odd, peer_pub_even,
        "full comparison correctly differs when prefix differs"
    );
}
