//! FMP established frames: the inner header, assembling and encrypting a
//! frame, and decrypting a received one.
use vstd::prelude::*;
use vstd::bytes::*;
use crate::aead::{aead_open, aead_seal, chacha20poly1305_open, chacha20poly1305_seal, noise_nonce, spec_noise_nonce};
use crate::wire::{
    build_prefix, prefix_phase, prefix_valid, spec_build_prefix, CommonPrefix, ESTABLISHED_HEADER_SIZE,
    PHASE_ESTABLISHED, TAG_SIZE,
};

verus! {

/// Size of the inner header that precedes every decrypted link message: a
/// 4-byte sender timestamp (the message type byte follows it).
pub const INNER_HEADER_SIZE: usize = 4;
/// Capacity of the buffer a received frame is decrypted into.
pub const DEC_BUF_SIZE: usize = 2048;

/// A session index, as carried in handshake and established headers.
#[derive(Clone, Copy, Debug, PartialEq, Eq)]
pub struct SessionIndex(pub u32);

impl SessionIndex {
    pub fn new(idx: u32) -> (r: SessionIndex)
        ensures
            r.0 == idx,
    {
        SessionIndex(idx)
    }

    pub fn as_u32(&self) -> (r: u32)
        ensures
            r == self.0,
    {
        self.0
    }
}

/// The inner plaintext: sender timestamp (u32 LE) followed by the message.
pub open spec fn spec_prepend_inner_header(timestamp: u32, msg: Seq<u8>) -> Seq<u8> {
    spec_u32_to_le_bytes(timestamp) + msg
}

/// Prepends the inner header (sender timestamp) to `msg`.
pub fn prepend_inner_header(timestamp: u32, msg: &[u8]) -> (r: Vec<u8>)
    ensures
        r@ == spec_prepend_inner_header(timestamp, msg@),
{
    let mut out = u32_to_le_bytes(timestamp);
    let mut i: usize = 0;
    while i < msg.len()
        invariant
            i <= msg@.len(),
            out@ == spec_u32_to_le_bytes(timestamp) + msg@.subrange(0, i as int),
        decreases msg@.len() - i,
    {
        out.push(msg[i]);
        i = i + 1;
        assert(out@ =~= spec_u32_to_le_bytes(timestamp) + msg@.subrange(0, i as int));
    }
    assert(msg@.subrange(0, msg@.len() as int) =~= msg@);
    out
}

/// The timestamp and the rest of an inner plaintext, if it holds a header.
pub open spec fn spec_strip_inner_header(data: Seq<u8>) -> Option<(u32, Seq<u8>)> {
    if data.len() < INNER_HEADER_SIZE {
        None
    } else {
        Some((spec_u32_from_le_bytes(data.subrange(0, 4)), data.subrange(4, data.len() as int)))
    }
}

/// Splits an inner plaintext into its sender timestamp and the message.
pub fn strip_inner_header(data: &[u8]) -> (r: Option<(u32, &[u8])>)
    ensures
        match r {
            Some((ts, rest)) => spec_strip_inner_header(data@) == Some((ts, rest@)),
            None => spec_strip_inner_header(data@) is None,
        },
{
    if data.len() < INNER_HEADER_SIZE {
        return None;
    }
    let ts = u32_from_le_bytes(vstd::slice::slice_subrange(data, 0, 4));
    Some((ts, vstd::slice::slice_subrange(data, 4, data.len())))
}

/// The 16-byte header of an established frame.
pub open spec fn spec_established_header(receiver: u32, counter: u64, flags: u8, payload_len: u16) -> Seq<u8> {
    spec_build_prefix(PHASE_ESTABLISHED, flags, payload_len) + spec_u32_to_le_bytes(receiver)
        + spec_u64_to_le_bytes(counter)
}

/// The wire bytes of an established frame carrying `inner`: header (whose
/// payload length is the post-prefix size, tag included), ciphertext, tag.
/// The header is the associated data.
pub open spec fn spec_assemble_established(receiver: u32, counter: u64, flags: u8, inner: Seq<u8>, key: Seq<u8>) -> Seq<u8> {
    let total = ESTABLISHED_HEADER_SIZE + inner.len() + TAG_SIZE;
    let header = spec_established_header(receiver, counter, flags, (total - 4) as u16);
    let sealed = chacha20poly1305_seal(key, spec_noise_nonce(counter), header, inner);
    header + sealed.0 + sealed.1
}

/// Whether a frame carrying `inner` fits in `out_capacity` bytes.
pub open spec fn assemble_fits(inner_len: nat, out_capacity: nat) -> bool {
    ESTABLISHED_HEADER_SIZE + inner_len + TAG_SIZE <= out_capacity && ESTABLISHED_HEADER_SIZE
        + inner_len + TAG_SIZE - 4 <= 65535
}

/// Header checks that decryption needs: a valid established prefix, room for
/// header and tag, and a plaintext that fits the decryption buffer.
pub open spec fn established_shape_ok(data: Seq<u8>) -> bool {
    &&& prefix_valid(data)
    &&& prefix_phase(data) == PHASE_ESTABLISHED
    &&& data.len() >= ESTABLISHED_HEADER_SIZE + TAG_SIZE
    &&& data.len() - (ESTABLISHED_HEADER_SIZE + TAG_SIZE) <= DEC_BUF_SIZE
}

/// The counter field of an established header.
pub open spec fn frame_counter(data: Seq<u8>) -> u64 {
    spec_u64_from_le_bytes(data.subrange(8, 16))
}

/// The receiver index field of an established header.
pub open spec fn frame_receiver(data: Seq<u8>) -> u32 {
    spec_u32_from_le_bytes(data.subrange(4, 8))
}

/// The inner plaintext of an established frame under key `kr`, if the frame
/// is well formed and authenticates.
pub open spec fn spec_open_established(kr: Seq<u8>, data: Seq<u8>) -> Option<Seq<u8>> {
    if !established_shape_ok(data) {
        None
    } else {
        let len = data.len() as int;
        chacha20poly1305_open(
            kr,
            spec_noise_nonce(frame_counter(data)),
            data.subrange(0, 16),
            data.subrange(16, len - 16),
            data.subrange(len - 16, len),
        )
    }
}

/// The fields of a decrypted established frame.
pub struct DecryptedFrameView {
    pub counter: u64,
    pub sender_timestamp: u32,
    pub msg_type: u8,
    pub payload: Seq<u8>,
    pub frame_bytes: nat,
}

/// A decrypted established frame.
#[derive(Debug, PartialEq, Eq)]
pub struct DecryptedFrame {
    pub counter: u64,
    pub sender_timestamp: u32,
    pub msg_type: u8,
    pub payload: Vec<u8>,
    pub frame_bytes: usize,
}

impl View for DecryptedFrame {
    type V = DecryptedFrameView;

    open spec fn view(&self) -> DecryptedFrameView {
        DecryptedFrameView {
            counter: self.counter,
            sender_timestamp: self.sender_timestamp,
            msg_type: self.msg_type,
            payload: self.payload@,
            frame_bytes: self.frame_bytes as nat,
        }
    }
}

/// What `decrypt_established_frame` gives for `data` under key `kr`.
pub open spec fn spec_decrypt_established(kr: Seq<u8>, data: Seq<u8>) -> Option<DecryptedFrameView> {
    match spec_open_established(kr, data) {
        None => None,
        Some(pt) => {
            if pt.len() < INNER_HEADER_SIZE + 1 {
                None
            } else {
                Some(
                    DecryptedFrameView {
                        counter: frame_counter(data),
                        sender_timestamp: spec_u32_from_le_bytes(pt.subrange(0, 4)),
                        msg_type: pt[4],
                        payload: pt.subrange(5, pt.len() as int),
                        frame_bytes: data.len(),
                    },
                )
            }
        },
    }
}

/// Builds and encrypts an established frame for `inner` under key `key`.
/// `None` when the frame would not fit in `out_capacity` bytes or its
/// post-prefix length would not fit the 16-bit length field. A frame that is
/// built opens under the same key to `inner` again.
pub fn encrypt_and_assemble(
    receiver: SessionIndex,
    counter: u64,
    flags: u8,
    inner: &[u8],
    key: &[u8; 32],
    out_capacity: usize,
) -> (r: Option<Vec<u8>>)
    ensures
        r is Some <==> assemble_fits(inner@.len(), out_capacity as nat),
        r matches Some(f) ==> f@ == spec_assemble_established(receiver.0, counter, flags, inner@, key@),
        r matches Some(f) ==> f@.len() == ESTABLISHED_HEADER_SIZE + inner@.len() + TAG_SIZE,
        inner@.len() <= DEC_BUF_SIZE ==> (r matches Some(f) ==> spec_open_established(key@, f@)
            == Some(inner@)),
        r matches Some(f) ==> frame_counter(f@) == counter && frame_receiver(f@) == receiver.0,
{
    if inner.len() > out_capacity || out_capacity - inner.len() < ESTABLISHED_HEADER_SIZE + TAG_SIZE
        || inner.len() > 65535 - (ESTABLISHED_HEADER_SIZE + TAG_SIZE - 4) {
        return None;
    }
    let total = ESTABLISHED_HEADER_SIZE + inner.len() + TAG_SIZE;
    let payload_len = (total - 4) as u16;
    proof {
        lemma_auto_spec_u32_to_from_le_bytes();
        lemma_auto_spec_u64_to_from_le_bytes();
        lemma_auto_spec_u16_to_from_le_bytes();
    }
    let prefix = build_prefix(PHASE_ESTABLISHED, flags, payload_len);
    let idx_bytes = u32_to_le_bytes(receiver.0);
    let ctr_bytes = u64_to_le_bytes(counter);
    let mut header: Vec<u8> = Vec::new();
    header.push(prefix[0]);
    header.push(prefix[1]);
    header.push(prefix[2]);
    header.push(prefix[3]);
    let mut i: usize = 0;
    while i < 4
        invariant
            i <= 4,
            idx_bytes@.len() == 4,
            header@ == prefix@ + idx_bytes@.subrange(0, i as int),
        decreases 4 - i,
    {
        header.push(idx_bytes[i]);
        i = i + 1;
        assert(header@ =~= prefix@ + idx_bytes@.subrange(0, i as int));
    }
    let mut j: usize = 0;
    while j < 8
        invariant
            j <= 8,
            ctr_bytes@.len() == 8,
            idx_bytes@.len() == 4,
            header@ == prefix@ + idx_bytes@ + ctr_bytes@.subrange(0, j as int),
        decreases 8 - j,
    {
        header.push(ctr_bytes[j]);
        j = j + 1;
        assert(header@ =~= prefix@ + idx_bytes@ + ctr_bytes@.subrange(0, j as int));
    }
    assert(idx_bytes@.subrange(0, 4) =~= idx_bytes@);
    assert(ctr_bytes@.subrange(0, 8) =~= ctr_bytes@);
    let ghost hdr = spec_established_header(receiver.0, counter, flags, payload_len);
    assert(header@ =~= hdr);
    let nonce = noise_nonce(counter);
    let (ct, tag) = aead_seal(key, &nonce, header.as_slice(), inner);
    let mut out = header;
    let mut k: usize = 0;
    while k < ct.len()
        invariant
            k <= ct@.len(),
            out@ == hdr + ct@.subrange(0, k as int),
        decreases ct@.len() - k,
    {
        out.push(ct[k]);
        k = k + 1;
        assert(out@ =~= hdr + ct@.subrange(0, k as int));
    }
    assert(ct@.subrange(0, ct@.len() as int) =~= ct@);
    let mut m: usize = 0;
    while m < 16
        invariant
            m <= 16,
            out@ == hdr + ct@ + tag@.subrange(0, m as int),
        decreases 16 - m,
    {
        out.push(tag[m]);
        m = m + 1;
        assert(out@ =~= hdr + ct@ + tag@.subrange(0, m as int));
    }
    assert(tag@.subrange(0, 16) =~= tag@);
    proof {
        let f = out@;
        let len = f.len() as int;
        assert(f.subrange(0, 16) =~= hdr);
        assert(f.subrange(16, len - 16) =~= ct@);
        assert(f.subrange(len - 16, len) =~= tag@);
        assert(f.subrange(8, 16) =~= spec_u64_to_le_bytes(counter));
        assert(f.subrange(4, 8) =~= spec_u32_to_le_bytes(receiver.0));
        assert(f[0] == prefix@[0]);
        assert(prefix@[0] == 0);
        assert(prefix_valid(f));
        assert(prefix_phase(f) == PHASE_ESTABLISHED);
    }
    Some(out)
}

/// Decrypts a single FMP established frame under the receive key `kr`.
///
/// `None` for anything that is not an authentic established frame: a bad
/// prefix, a handshake phase, a frame too short for header and tag, a
/// failed AEAD check, or a plaintext without inner header and message type.
pub fn decrypt_established_frame(kr: &[u8; 32], data: &[u8]) -> (r: Option<DecryptedFrame>)
    ensures
        match r {
            Some(f) => spec_decrypt_established(kr@, data@) == Some(f@),
            None => spec_decrypt_established(kr@, data@) is None,
        },
{
    let prefix = match CommonPrefix::parse(data) {
        Some(p) => p,
        None => return None,
    };
    if prefix.phase != PHASE_ESTABLISHED {
        return None;
    }
    if data.len() < ESTABLISHED_HEADER_SIZE + TAG_SIZE {
        return None;
    }
    if data.len() - (ESTABLISHED_HEADER_SIZE + TAG_SIZE) > DEC_BUF_SIZE {
        return None;
    }
    let len = data.len();
    let counter = u64_from_le_bytes(vstd::slice::slice_subrange(data, 8, 16));
    let nonce = noise_nonce(counter);
    let aad = vstd::slice::slice_subrange(data, 0, 16);
    let ct = vstd::slice::slice_subrange(data, 16, len - 16);
    let tag_slice = vstd::slice::slice_subrange(data, len - 16, len);
    let tag: [u8; 16] = [
        tag_slice[0], tag_slice[1], tag_slice[2], tag_slice[3], tag_slice[4], tag_slice[5],
        tag_slice[6], tag_slice[7], tag_slice[8], tag_slice[9], tag_slice[10], tag_slice[11],
        tag_slice[12], tag_slice[13], tag_slice[14], tag_slice[15],
    ];
    assert(tag@ =~= tag_slice@);
    let pt = match aead_open(kr, &nonce, aad, ct, &tag) {
        Some(p) => p,
        None => return None,
    };
    let (sender_timestamp, rest) = match strip_inner_header(pt.as_slice()) {
        Some(v) => v,
        None => return None,
    };
    if rest.len() < 1 {
        return None;
    }
    let msg_type = rest[0];
    let payload = vstd::slice::slice_to_vec(vstd::slice::slice_subrange(rest, 1, rest.len()));
    assert(payload@ =~= pt@.subrange(5, pt@.len() as int));
    Some(DecryptedFrame { counter, sender_timestamp, msg_type, payload, frame_bytes: data.len() })
}

/// A frame built from a timestamp, a message type and a payload decrypts,
/// under the key it was built with, to exactly those fields.
pub proof fn established_frame_round_trip(key: Seq<u8>, frame: Seq<u8>, ts: u32, msg_type: u8, payload: Seq<u8>)
    requires
        spec_open_established(key, frame) == Some(
            spec_prepend_inner_header(ts, seq![msg_type] + payload),
        ),
    ensures
        spec_decrypt_established(key, frame) == Some(
            DecryptedFrameView {
                counter: frame_counter(frame),
                sender_timestamp: ts,
                msg_type,
                payload,
                frame_bytes: frame.len(),
            },
        ),
{
    lemma_auto_spec_u32_to_from_le_bytes();
    let pt = spec_prepend_inner_header(ts, seq![msg_type] + payload);
    assert(pt.subrange(0, 4) =~= spec_u32_to_le_bytes(ts));
    assert(pt.subrange(5, pt.len() as int) =~= payload);
}

/// The associated data of an established frame is its whole 16-byte header.
/// A frame assembled for `receiver`, `counter` and `flags` starts with the
/// header that carries them, and what follows the header is exactly what
/// ChaCha20-Poly1305 yields under the Noise nonce of `counter` with those
/// 16 header bytes as associated data. Opening a frame passes its first 16
/// bytes as associated data and its last 16 bytes as the tag, so every
/// header field, receiver index included, is authenticated.
pub proof fn header_is_associated_data(receiver: u32, counter: u64, flags: u8, inner: Seq<u8>, key: Seq<u8>, data: Seq<u8>)
    ensures
        ({
            let f = spec_assemble_established(receiver, counter, flags, inner, key);
            let h = f.subrange(0, 16);
            let sealed = chacha20poly1305_seal(key, spec_noise_nonce(counter), h, inner);
            &&& f == h + sealed.0 + sealed.1
            &&& frame_receiver(f) == receiver
            &&& frame_counter(f) == counter
        }),
        established_shape_ok(data) ==> spec_open_established(key, data) == chacha20poly1305_open(
            key,
            spec_noise_nonce(frame_counter(data)),
            data.subrange(0, ESTABLISHED_HEADER_SIZE as int),
            data.subrange(ESTABLISHED_HEADER_SIZE as int, data.len() - TAG_SIZE),
            data.subrange(data.len() - TAG_SIZE, data.len() as int),
        ),
{
    lemma_auto_spec_u16_to_from_le_bytes();
    lemma_auto_spec_u32_to_from_le_bytes();
    lemma_auto_spec_u64_to_from_le_bytes();
    let total = ESTABLISHED_HEADER_SIZE + inner.len() + TAG_SIZE;
    let header = spec_established_header(receiver, counter, flags, (total - 4) as u16);
    let prefix = spec_build_prefix(PHASE_ESTABLISHED, flags, (total - 4) as u16);
    assert(prefix.len() == 4);
    assert(header.len() == 16);
    let f = spec_assemble_established(receiver, counter, flags, inner, key);
    let by_header = chacha20poly1305_seal(key, spec_noise_nonce(counter), header, inner);
    assert(f == header + by_header.0 + by_header.1);
    assert(f.subrange(0, 16) =~= header);
    assert(header.subrange(4, 8) =~= spec_u32_to_le_bytes(receiver));
    assert(header.subrange(8, 16) =~= spec_u64_to_le_bytes(counter));
    assert(f.subrange(4, 8) =~= header.subrange(4, 8));
    assert(f.subrange(8, 16) =~= header.subrange(8, 16));
}

} // verus!
