//! FMP wire format: the 4-byte common prefix, fixed handshake sizes, and
//! the two ways a byte stream is cut into frames (2-byte little-endian
//! length prefix, or raw FMP frames delimited by their common prefix).
use vstd::prelude::*;
use vstd::bytes::{
    spec_u16_from_le_bytes, spec_u16_to_le_bytes, spec_u32_from_le_bytes, spec_u32_to_le_bytes,
    spec_u64_from_le_bytes, u16_from_le_bytes, u16_to_le_bytes, u32_from_le_bytes, u32_to_le_bytes,
    u64_from_le_bytes, lemma_auto_spec_u16_to_from_le_bytes, lemma_auto_spec_u32_to_from_le_bytes,
};

verus! {

/// Size of the FMP common prefix: `[version|phase] [flags] [payload_len: u16 LE]`.
pub const COMMON_PREFIX_SIZE: usize = 4;
/// FMP version carried in the high nibble of the first prefix byte.
pub const FMP_VERSION: u8 = 0;
/// Phase of an established (encrypted) frame.
pub const PHASE_ESTABLISHED: u8 = 0x0;
/// Phase of handshake message 1.
pub const PHASE_MSG1: u8 = 0x1;
/// Phase of handshake message 2.
pub const PHASE_MSG2: u8 = 0x2;
/// Size of a session index on the wire.
pub const IDX_SIZE: usize = 4;
/// Wire size of handshake message 1: prefix, sender index, 106-byte Noise IK message 1.
pub const MSG1_WIRE_SIZE: usize = 114;
/// Wire size of handshake message 2: prefix, two indices, 57-byte Noise IK message 2.
pub const MSG2_WIRE_SIZE: usize = 69;
/// Established header: prefix, receiver index (u32 LE), counter (u64 LE).
pub const ESTABLISHED_HEADER_SIZE: usize = 16;
/// AEAD tag size.
pub const TAG_SIZE: usize = 16;
/// Largest payload accepted behind a 2-byte length prefix.
pub const MAX_FRAME: usize = 1500;

/// The four fields of an FMP common prefix.
#[derive(Clone, Copy, Debug, PartialEq, Eq)]
pub struct CommonPrefix {
    pub version: u8,
    pub phase: u8,
    pub flags: u8,
    pub payload_len: u16,
}

/// `data` starts with a common prefix whose version is ours.
pub open spec fn prefix_valid(data: Seq<u8>) -> bool {
    data.len() >= COMMON_PREFIX_SIZE && data[0] / 16 == FMP_VERSION
}

/// The phase nibble of the first prefix byte.
pub open spec fn prefix_phase(data: Seq<u8>) -> u8 {
    (data[0] % 16) as u8
}

/// The prefix that `parse` reads from `data`, if any.
pub open spec fn spec_parse_prefix(data: Seq<u8>) -> Option<CommonPrefix> {
    if prefix_valid(data) {
        Some(
            CommonPrefix {
                version: (data[0] / 16) as u8,
                phase: prefix_phase(data),
                flags: data[1],
                payload_len: spec_u16_from_le_bytes(data.subrange(2, 4)),
            },
        )
    } else {
        None
    }
}

impl CommonPrefix {
    /// Parses the common prefix at the start of `data`; `None` when fewer
    /// than four bytes are present or the version is not ours.
    pub fn parse(data: &[u8]) -> (r: Option<CommonPrefix>)
        ensures
            r == spec_parse_prefix(data@),
    {
        if data.len() < COMMON_PREFIX_SIZE {
            return None;
        }
        let b0 = data[0];
        if b0 / 16 != FMP_VERSION {
            return None;
        }
        let len_bytes = vstd::slice::slice_subrange(data, 2, 4);
        let payload_len = u16_from_le_bytes(len_bytes);
        Some(CommonPrefix { version: b0 / 16, phase: b0 % 16, flags: data[1], payload_len })
    }
}

/// The bytes of a common prefix.
pub open spec fn spec_build_prefix(phase: u8, flags: u8, payload_len: u16) -> Seq<u8> {
    seq![(FMP_VERSION * 16 + phase % 16) as u8, flags] + spec_u16_to_le_bytes(payload_len)
}

/// Builds a common prefix for `phase` (low nibble), `flags` and `payload_len`.
pub fn build_prefix(phase: u8, flags: u8, payload_len: u16) -> (r: [u8; 4])
    ensures
        r@ == spec_build_prefix(phase, flags, payload_len),
{
    proof {
        lemma_auto_spec_u16_to_from_le_bytes();
    }
    let len_bytes = u16_to_le_bytes(payload_len);
    let r = [FMP_VERSION * 16 + phase % 16, flags, len_bytes[0], len_bytes[1]];
    assert(r@ =~= spec_build_prefix(phase, flags, payload_len));
    r
}

/// A prefix built for `phase`, `flags` and `payload_len` parses back to them.
pub proof fn prefix_round_trip(phase: u8, flags: u8, payload_len: u16)
    requires
        phase < 16,
    ensures
        spec_parse_prefix(spec_build_prefix(phase, flags, payload_len)) == Some(
            CommonPrefix { version: FMP_VERSION, phase, flags, payload_len },
        ),
{
    lemma_auto_spec_u16_to_from_le_bytes();
    let b = spec_build_prefix(phase, flags, payload_len);
    assert(b.subrange(2, 4) =~= spec_u16_to_le_bytes(payload_len));
}

/// Total wire size of a raw handshake frame at the start of `data`.
pub open spec fn spec_fmp_raw_frame_size(data: Seq<u8>) -> Option<usize> {
    if !prefix_valid(data) {
        None
    } else if prefix_phase(data) == PHASE_MSG1 {
        if data.len() < MSG1_WIRE_SIZE {
            None
        } else {
            Some(MSG1_WIRE_SIZE)
        }
    } else if prefix_phase(data) == PHASE_MSG2 {
        if data.len() < MSG2_WIRE_SIZE {
            None
        } else {
            Some(MSG2_WIRE_SIZE)
        }
    } else {
        None
    }
}

/// Determines the total wire size of a raw FMP frame from its common prefix.
///
/// Handshake messages have fixed sizes (114 and 69 bytes) and are only
/// reported once all their bytes are present. Established frames give
/// `None`: their boundary is the datagram boundary, not the prefix.
pub fn fmp_raw_frame_size(data: &[u8]) -> (r: Option<usize>)
    ensures
        r == spec_fmp_raw_frame_size(data@),
{
    let prefix = match CommonPrefix::parse(data) {
        Some(p) => p,
        None => return None,
    };
    if prefix.phase == PHASE_MSG1 {
        if data.len() < MSG1_WIRE_SIZE {
            None
        } else {
            Some(MSG1_WIRE_SIZE)
        }
    } else if prefix.phase == PHASE_MSG2 {
        if data.len() < MSG2_WIRE_SIZE {
            None
        } else {
            Some(MSG2_WIRE_SIZE)
        }
    } else {
        None
    }
}

/// The view of an extraction result: the frame's bytes and the new position.
pub open spec fn extracted_view(r: Option<(&[u8], usize)>) -> Option<(Seq<u8>, int)> {
    match r {
        Some((f, p)) => Some((f@, p as int)),
        None => None,
    }
}

/// One step of length-prefixed extraction from `buf[pos..len]`.
///
/// A zero or oversized length skips the two header bytes and yields an
/// empty frame, so a corrupt stream cannot stall the reader.
pub open spec fn spec_extract_length_prefixed(buf: Seq<u8>, pos: int, len: int) -> Option<(Seq<u8>, int)> {
    let avail = len - pos;
    if avail < 2 {
        None
    } else {
        let ml = spec_u16_from_le_bytes(buf.subrange(pos, pos + 2)) as int;
        if ml == 0 || ml > MAX_FRAME {
            Some((Seq::<u8>::empty(), pos + 2))
        } else if avail - 2 < ml {
            None
        } else {
            Some((buf.subrange(pos + 2, pos + 2 + ml), pos + 2 + ml))
        }
    }
}

/// Extracts one complete length-prefixed frame from `buf[pos..len]`:
/// the payload without its 2-byte header, and the position after it.
pub fn extract_length_prefixed_frame(buf: &[u8], pos: usize, len: usize) -> (r: Option<(&[u8], usize)>)
    requires
        pos <= len <= buf@.len(),
    ensures
        extracted_view(r) == spec_extract_length_prefixed(buf@, pos as int, len as int),
{
    let avail = len - pos;
    if avail < 2 {
        return None;
    }
    let ml = u16_from_le_bytes(vstd::slice::slice_subrange(buf, pos, pos + 2)) as usize;
    if ml == 0 || ml > MAX_FRAME {
        let empty = vstd::slice::slice_subrange(buf, pos, pos);
        assert(empty@ =~= Seq::<u8>::empty());
        return Some((empty, pos + 2));
    }
    if avail - 2 < ml {
        return None;
    }
    let s = pos + 2;
    let e = s + ml;
    Some((vstd::slice::slice_subrange(buf, s, e), e))
}

/// One step of raw FMP extraction from `buf[pos..len]`.
pub open spec fn spec_extract_raw(buf: Seq<u8>, pos: int, len: int) -> Option<(Seq<u8>, int)> {
    let avail = len - pos;
    let window = buf.subrange(pos, len);
    if avail < COMMON_PREFIX_SIZE {
        None
    } else {
        match spec_fmp_raw_frame_size(window) {
            Some(total) => Some((buf.subrange(pos, pos + total), pos + total)),
            None => {
                if prefix_valid(window) && prefix_phase(window) == PHASE_ESTABLISHED
                    && avail >= ESTABLISHED_HEADER_SIZE + TAG_SIZE {
                    Some((window, len))
                } else {
                    None
                }
            },
        }
    }
}

/// Extracts one complete raw FMP frame (prefix included) from `buf[pos..len]`.
///
/// Handshake messages are cut at their fixed sizes; an established frame
/// takes the whole available window (one datagram is one frame) once it
/// holds at least a header and a tag.
pub fn extract_raw_frame(buf: &[u8], pos: usize, len: usize) -> (r: Option<(&[u8], usize)>)
    requires
        pos <= len <= buf@.len(),
    ensures
        extracted_view(r) == spec_extract_raw(buf@, pos as int, len as int),
{
    let avail = len - pos;
    if avail < COMMON_PREFIX_SIZE {
        return None;
    }
    let window = vstd::slice::slice_subrange(buf, pos, len);
    match fmp_raw_frame_size(window) {
        Some(total) => {
            if avail < total {
                return None;
            }
            let e = pos + total;
            assert(window@.subrange(0, total as int) =~= buf@.subrange(pos as int, e as int));
            Some((vstd::slice::slice_subrange(buf, pos, e), e))
        },
        None => {
            let prefix = match CommonPrefix::parse(window) {
                Some(p) => p,
                None => return None,
            };
            if prefix.phase == PHASE_ESTABLISHED {
                if avail < ESTABLISHED_HEADER_SIZE + TAG_SIZE {
                    return None;
                }
                Some((window, len))
            } else {
                None
            }
        },
    }
}

/// Noise IK message 1 size.
pub const HANDSHAKE_MSG1_SIZE: usize = 106;
/// Noise IK message 2 size.
pub const HANDSHAKE_MSG2_SIZE: usize = 57;

/// A parsed FMP frame.
#[derive(Debug, PartialEq, Eq)]
pub enum FmpMessage<'a> {
    /// Handshake message 1: the initiator's session index and Noise payload.
    Msg1 { sender_idx: u32, noise_payload: &'a [u8] },
    /// Handshake message 2: the responder's index, the initiator's index, and the Noise payload.
    Msg2 { sender_idx: u32, receiver_idx: u32, noise_payload: &'a [u8] },
    /// An established frame: the receiver's index and the counter.
    Established { receiver_idx: u32, counter: u64 },
}

/// The view of a parsed frame.
pub enum FmpMessageView {
    Msg1 { sender_idx: u32, noise_payload: Seq<u8> },
    Msg2 { sender_idx: u32, receiver_idx: u32, noise_payload: Seq<u8> },
    Established { receiver_idx: u32, counter: u64 },
}

impl<'a> View for FmpMessage<'a> {
    type V = FmpMessageView;

    open spec fn view(&self) -> FmpMessageView {
        match self {
            FmpMessage::Msg1 { sender_idx, noise_payload } => FmpMessageView::Msg1 {
                sender_idx: *sender_idx,
                noise_payload: noise_payload@,
            },
            FmpMessage::Msg2 { sender_idx, receiver_idx, noise_payload } => FmpMessageView::Msg2 {
                sender_idx: *sender_idx,
                receiver_idx: *receiver_idx,
                noise_payload: noise_payload@,
            },
            FmpMessage::Established { receiver_idx, counter } => FmpMessageView::Established {
                receiver_idx: *receiver_idx,
                counter: *counter,
            },
        }
    }
}

/// How a frame parses: handshake messages must have their exact wire size,
/// an established frame at least its header.
pub open spec fn spec_parse_message(data: Seq<u8>) -> Option<FmpMessageView> {
    if !prefix_valid(data) {
        None
    } else if prefix_phase(data) == PHASE_MSG1 {
        if data.len() != MSG1_WIRE_SIZE {
            None
        } else {
            Some(
                FmpMessageView::Msg1 {
                    sender_idx: spec_u32_from_le_bytes(data.subrange(4, 8)),
                    noise_payload: data.subrange(8, data.len() as int),
                },
            )
        }
    } else if prefix_phase(data) == PHASE_MSG2 {
        if data.len() != MSG2_WIRE_SIZE {
            None
        } else {
            Some(
                FmpMessageView::Msg2 {
                    sender_idx: spec_u32_from_le_bytes(data.subrange(4, 8)),
                    receiver_idx: spec_u32_from_le_bytes(data.subrange(8, 12)),
                    noise_payload: data.subrange(12, data.len() as int),
                },
            )
        }
    } else if prefix_phase(data) == PHASE_ESTABLISHED {
        if data.len() < ESTABLISHED_HEADER_SIZE {
            None
        } else {
            Some(
                FmpMessageView::Established {
                    receiver_idx: spec_u32_from_le_bytes(data.subrange(4, 8)),
                    counter: spec_u64_from_le_bytes(data.subrange(8, 16)),
                },
            )
        }
    } else {
        None
    }
}

/// Parses an FMP frame into a handshake message or an established header.
pub fn parse_message(data: &[u8]) -> (r: Option<FmpMessage<'_>>)
    ensures
        match r {
            Some(m) => spec_parse_message(data@) == Some(m@),
            None => spec_parse_message(data@) is None,
        },
{
    let prefix = match CommonPrefix::parse(data) {
        Some(p) => p,
        None => return None,
    };
    if prefix.phase == PHASE_MSG1 {
        if data.len() != MSG1_WIRE_SIZE {
            return None;
        }
        let sender_idx = u32_from_le_bytes(vstd::slice::slice_subrange(data, 4, 8));
        Some(FmpMessage::Msg1 { sender_idx, noise_payload: vstd::slice::slice_subrange(data, 8, data.len()) })
    } else if prefix.phase == PHASE_MSG2 {
        if data.len() != MSG2_WIRE_SIZE {
            return None;
        }
        let sender_idx = u32_from_le_bytes(vstd::slice::slice_subrange(data, 4, 8));
        let receiver_idx = u32_from_le_bytes(vstd::slice::slice_subrange(data, 8, 12));
        Some(
            FmpMessage::Msg2 {
                sender_idx,
                receiver_idx,
                noise_payload: vstd::slice::slice_subrange(data, 12, data.len()),
            },
        )
    } else if prefix.phase == PHASE_ESTABLISHED {
        if data.len() < ESTABLISHED_HEADER_SIZE {
            return None;
        }
        let receiver_idx = u32_from_le_bytes(vstd::slice::slice_subrange(data, 4, 8));
        let counter = u64_from_le_bytes(vstd::slice::slice_subrange(data, 8, 16));
        Some(FmpMessage::Established { receiver_idx, counter })
    } else {
        None
    }
}

/// The bytes of handshake message 1.
pub open spec fn spec_msg1(sender_idx: u32, noise: Seq<u8>) -> Seq<u8> {
    spec_build_prefix(PHASE_MSG1, 0, (IDX_SIZE + noise.len()) as u16) + spec_u32_to_le_bytes(sender_idx)
        + noise
}

/// The bytes of handshake message 2.
pub open spec fn spec_msg2(sender_idx: u32, receiver_idx: u32, noise: Seq<u8>) -> Seq<u8> {
    spec_build_prefix(PHASE_MSG2, 0, (2 * IDX_SIZE + noise.len()) as u16) + spec_u32_to_le_bytes(
        sender_idx,
    ) + spec_u32_to_le_bytes(receiver_idx) + noise
}

fn append_bytes(out: &mut Vec<u8>, src: &[u8])
    ensures
        final(out)@ == old(out)@ + src@,
{
    let ghost start = out@;
    let mut i: usize = 0;
    while i < src.len()
        invariant
            i <= src@.len(),
            out@ == start + src@.subrange(0, i as int),
        decreases src@.len() - i,
    {
        out.push(src[i]);
        i = i + 1;
        assert(out@ =~= start + src@.subrange(0, i as int));
    }
    assert(src@.subrange(0, src@.len() as int) =~= src@);
}

/// Builds handshake message 1; `None` when it would exceed `out_capacity` bytes.
pub fn build_msg1(sender_idx: u32, noise: &[u8], out_capacity: usize) -> (r: Option<Vec<u8>>)
    ensures
        r is Some <==> COMMON_PREFIX_SIZE + IDX_SIZE + noise@.len() <= out_capacity,
        r matches Some(f) ==> f@ == spec_msg1(sender_idx, noise@),
{
    if noise.len() > out_capacity || out_capacity - noise.len() < COMMON_PREFIX_SIZE + IDX_SIZE {
        return None;
    }
    let mut out: Vec<u8> = Vec::new();
    let prefix = build_prefix(PHASE_MSG1, 0, (IDX_SIZE + noise.len()) as u16);
    append_bytes(&mut out, &prefix);
    append_bytes(&mut out, u32_to_le_bytes(sender_idx).as_slice());
    append_bytes(&mut out, noise);
    Some(out)
}

/// Builds handshake message 2; `None` when it would exceed `out_capacity` bytes.
pub fn build_msg2(sender_idx: u32, receiver_idx: u32, noise: &[u8], out_capacity: usize) -> (r: Option<Vec<u8>>)
    ensures
        r is Some <==> COMMON_PREFIX_SIZE + 2 * IDX_SIZE + noise@.len() <= out_capacity,
        r matches Some(f) ==> f@ == spec_msg2(sender_idx, receiver_idx, noise@),
{
    if noise.len() > out_capacity || out_capacity - noise.len() < COMMON_PREFIX_SIZE + 2 * IDX_SIZE {
        return None;
    }
    let mut out: Vec<u8> = Vec::new();
    let prefix = build_prefix(PHASE_MSG2, 0, (2 * IDX_SIZE + noise.len()) as u16);
    append_bytes(&mut out, &prefix);
    append_bytes(&mut out, u32_to_le_bytes(sender_idx).as_slice());
    append_bytes(&mut out, u32_to_le_bytes(receiver_idx).as_slice());
    append_bytes(&mut out, noise);
    Some(out)
}

/// A message 1 built with a Noise payload of the IK size has the fixed wire
/// size and parses back to its index and payload.
pub proof fn msg1_round_trip(sender_idx: u32, noise: Seq<u8>)
    requires
        noise.len() == HANDSHAKE_MSG1_SIZE,
    ensures
        spec_msg1(sender_idx, noise).len() == MSG1_WIRE_SIZE,
        spec_parse_message(spec_msg1(sender_idx, noise)) == Some(
            FmpMessageView::Msg1 { sender_idx, noise_payload: noise },
        ),
{
    lemma_auto_spec_u32_to_from_le_bytes();
    lemma_auto_spec_u16_to_from_le_bytes();
    let m = spec_msg1(sender_idx, noise);
    assert(m.subrange(4, 8) =~= spec_u32_to_le_bytes(sender_idx));
    assert(m.subrange(8, m.len() as int) =~= noise);
}

/// A message 2 built with a Noise payload of the IK size has the fixed wire
/// size and parses back to its indices and payload.
pub proof fn msg2_round_trip(sender_idx: u32, receiver_idx: u32, noise: Seq<u8>)
    requires
        noise.len() == HANDSHAKE_MSG2_SIZE,
    ensures
        spec_msg2(sender_idx, receiver_idx, noise).len() == MSG2_WIRE_SIZE,
        spec_parse_message(spec_msg2(sender_idx, receiver_idx, noise)) == Some(
            FmpMessageView::Msg2 { sender_idx, receiver_idx, noise_payload: noise },
        ),
{
    lemma_auto_spec_u32_to_from_le_bytes();
    lemma_auto_spec_u16_to_from_le_bytes();
    let m = spec_msg2(sender_idx, receiver_idx, noise);
    assert(m.subrange(4, 8) =~= spec_u32_to_le_bytes(sender_idx));
    assert(m.subrange(8, 12) =~= spec_u32_to_le_bytes(receiver_idx));
    assert(m.subrange(12, m.len() as int) =~= noise);
}

} // verus!
