//! The node's receive buffer: bytes read from the transport accumulate
//! here and complete frames are cut out of them.
use vstd::prelude::*;
use crate::bytes_out::{spec_write_at, write_at};
use vstd::bytes::{spec_u16_to_le_bytes, lemma_auto_spec_u16_to_from_le_bytes};
use crate::wire::{MAX_FRAME, extract_length_prefixed_frame, extract_raw_frame, spec_extract_length_prefixed, spec_extract_raw};

verus! {

/// Capacity of the receive buffer.
pub const RBUF_SIZE: usize = 2048;

/// The buffered bytes (up to the fill mark) and the read position.
pub struct RecvBufferView {
    pub data: Seq<u8>,
    pub rpos: nat,
}

/// The buffered but unread bytes.
pub open spec fn pending(v: RecvBufferView) -> Seq<u8> {
    v.data.subrange(v.rpos as int, v.data.len() as int)
}

pub open spec fn empty_view() -> RecvBufferView {
    RecvBufferView { data: Seq::<u8>::empty(), rpos: 0 }
}

pub open spec fn view_wf(v: RecvBufferView) -> bool {
    v.rpos <= v.data.len() <= RBUF_SIZE
}

/// The buffer after received bytes arrive: appended when they fit, and
/// otherwise everything buffered is dropped along with them.
pub open spec fn spec_append(v: RecvBufferView, chunk: Seq<u8>) -> RecvBufferView {
    if v.data.len() + chunk.len() > RBUF_SIZE {
        empty_view()
    } else {
        RecvBufferView { data: v.data + chunk, rpos: v.rpos }
    }
}

/// The unread bytes moved to the front.
pub open spec fn spec_compact(v: RecvBufferView) -> RecvBufferView {
    RecvBufferView { data: pending(v), rpos: 0 }
}

/// The buffer once the read position has moved to `p`; fully read buffers start over.
pub open spec fn spec_advance(v: RecvBufferView, p: int) -> RecvBufferView {
    if p >= v.data.len() {
        empty_view()
    } else {
        RecvBufferView { data: v.data, rpos: p as nat }
    }
}

/// One extraction step: the frame cut out (empty for a skipped bad length
/// prefix), and the buffer afterwards; `None` when no complete frame is buffered.
pub open spec fn spec_next_frame(v: RecvBufferView, raw: bool) -> Option<(Seq<u8>, RecvBufferView)> {
    let r = if raw {
        spec_extract_raw(v.data, v.rpos as int, v.data.len() as int)
    } else {
        spec_extract_length_prefixed(v.data, v.rpos as int, v.data.len() as int)
    };
    match r {
        None => None,
        Some((f, p)) => Some((f, spec_advance(v, p))),
    }
}

/// The first non-empty frame, skipping bad length prefixes, and the buffer afterwards.
pub open spec fn spec_take_frame(v: RecvBufferView, raw: bool) -> Option<(Seq<u8>, RecvBufferView)>
    decreases v.data.len() - v.rpos,
{
    if !view_wf(v) {
        None
    } else {
        match spec_next_frame(v, raw) {
            None => None,
            Some((f, v2)) => {
                if f.len() > 0 {
                    Some((f, v2))
                } else if v2.data.len() - v2.rpos < v.data.len() - v.rpos {
                    spec_take_frame(v2, raw)
                } else {
                    None
                }
            },
        }
    }
}

pub struct RecvBuffer {
    buf: Vec<u8>,
    rpos: usize,
    rlen: usize,
}

impl View for RecvBuffer {
    type V = RecvBufferView;

    closed spec fn view(&self) -> RecvBufferView {
        RecvBufferView { data: self.buf@.subrange(0, self.rlen as int), rpos: self.rpos as nat }
    }
}

impl RecvBuffer {
    pub closed spec fn wf(&self) -> bool {
        &&& self.buf@.len() == RBUF_SIZE
        &&& self.rpos <= self.rlen <= RBUF_SIZE
    }

    pub fn new() -> (r: RecvBuffer)
        ensures
            r.wf(),
            r@ == empty_view(),
    {
        let buf = vec![0u8; RBUF_SIZE];
        let r = RecvBuffer { buf, rpos: 0, rlen: 0 };
        assert(r@.data =~= Seq::<u8>::empty());
        r
    }

    pub proof fn lemma_wf(&self)
        requires
            self.wf(),
        ensures
            view_wf(self@),
    {
    }

    /// Drops everything buffered.
    pub fn reset(&mut self)
        requires
            old(self).wf(),
        ensures
            final(self).wf(),
            final(self)@ == empty_view(),
    {
        self.rpos = 0;
        self.rlen = 0;
        assert(self.buf@.subrange(0, 0) =~= Seq::<u8>::empty());
    }

    /// Number of unread bytes.
    pub fn pending_len(&self) -> (r: usize)
        requires
            self.wf(),
        ensures
            r == pending(self@).len(),
    {
        self.rlen - self.rpos
    }

    /// Appends received bytes; `false` when they would overflow the buffer,
    /// in which case everything buffered is dropped.
    pub fn append(&mut self, chunk: &[u8]) -> (r: bool)
        requires
            old(self).wf(),
        ensures
            final(self).wf(),
            r == (old(self)@.data.len() + chunk@.len() <= RBUF_SIZE),
            final(self)@ == spec_append(old(self)@, chunk@),
    {
        if chunk.len() > RBUF_SIZE - self.rlen {
            self.reset();
            return false;
        }
        let ghost before = self@;
        write_at(self.buf.as_mut_slice(), self.rlen, chunk);
        self.rlen = self.rlen + chunk.len();
        assert(self@.data =~= before.data + chunk@);
        true
    }

    /// Moves the unread bytes to the front of the buffer.
    pub fn compact(&mut self)
        requires
            old(self).wf(),
        ensures
            final(self).wf(),
            final(self)@ == spec_compact(old(self)@),
    {
        let ghost before = self@;
        let n = self.rlen - self.rpos;
        let mut i: usize = 0;
        while i < n
            invariant
                self.buf@.len() == RBUF_SIZE,
                self.rpos <= self.rlen <= RBUF_SIZE,
                n == self.rlen - self.rpos,
                i <= n,
                before.data == old(self).buf@.subrange(0, self.rlen as int),
                before.rpos == self.rpos,
                forall|k: int| 0 <= k < i ==> self.buf@[k] == before.data[self.rpos + k],
                forall|k: int| i + self.rpos <= k < self.rlen ==> self.buf@[k] == before.data[k],
            decreases n - i,
        {
            let b = self.buf[self.rpos + i];
            self.buf.set(i, b);
            i = i + 1;
        }
        self.rlen = n;
        self.rpos = 0;
        assert(self@.data =~= pending(before));
    }

    /// Cuts the next frame out of the buffer (raw FMP or length-prefixed);
    /// an empty frame stands for a skipped bad length prefix.
    pub fn next_frame(&mut self, raw: bool) -> (r: Option<Vec<u8>>)
        requires
            old(self).wf(),
        ensures
            final(self).wf(),
            match r {
                Some(f) => spec_next_frame(old(self)@, raw) == Some((f@, final(self)@)),
                None => spec_next_frame(old(self)@, raw) is None && final(self)@ == old(self)@,
            },
    {
        let ghost before = self@;
        let extracted = if raw {
            extract_raw_frame(self.buf.as_slice(), self.rpos, self.rlen)
        } else {
            extract_length_prefixed_frame(self.buf.as_slice(), self.rpos, self.rlen)
        };
        proof {
            let full = self.buf@;
            let d = full.subrange(0, self.rlen as int);
            // extraction only reads the filled part of the buffer
            assert forall|a: int, b: int| 0 <= a <= b <= self.rlen implies #[trigger] full.subrange(a, b)
                == d.subrange(a, b) by {
                assert(full.subrange(a, b) =~= d.subrange(a, b));
            }
            assert(full.subrange(self.rpos as int, self.rlen as int) =~= d.subrange(
                self.rpos as int,
                self.rlen as int,
            ));
        }
        let (frame, new_pos) = match extracted {
            Some((f, p)) => (vstd::slice::slice_to_vec(f), p),
            None => return None,
        };
        self.rpos = new_pos;
        if self.rpos >= self.rlen {
            self.rpos = 0;
            self.rlen = 0;
            assert(self.buf@.subrange(0, 0) =~= Seq::<u8>::empty());
        }
        Some(frame)
    }

    /// Cuts the next non-empty frame out of the buffer and copies it into
    /// `out` (truncated to `out.len()`); the length copied, or `None` when no
    /// complete frame is buffered.
    pub fn take_frame(&mut self, raw: bool, out: &mut [u8]) -> (r: Option<usize>)
        requires
            old(self).wf(),
        ensures
            final(self).wf(),
            match spec_take_frame(old(self)@, raw) {
                Some((f, v)) => {
                    let l = if f.len() < old(out)@.len() { f.len() } else { old(out)@.len() };
                    &&& r == Some(l as usize)
                    &&& final(self)@ == v
                    &&& final(out)@ == spec_write_at(old(out)@, 0, f.subrange(0, l as int))
                },
                None => r is None && final(out)@ == old(out)@,
            },
        decreases old(self)@.data.len() - old(self)@.rpos,
    {
        let ghost before = self@;
        proof {
            self.lemma_wf();
        }
        let before_pending = self.rlen - self.rpos;
        match self.next_frame(raw) {
            None => None,
            Some(frame) => {
                if frame.len() > 0 {
                    let l = if frame.len() < out.len() {
                        frame.len()
                    } else {
                        out.len()
                    };
                    write_at(out, 0, vstd::slice::slice_subrange(frame.as_slice(), 0, l));
                    Some(l)
                } else if self.rlen - self.rpos < before_pending {
                    self.take_frame(raw, out)
                } else {
                    None
                }
            },
        }
    }
}

/// A payload written behind its 2-byte little-endian length comes out of
/// the buffer unchanged, and what followed it stays buffered.
pub proof fn length_prefixed_round_trip(v: RecvBufferView, payload: Seq<u8>, rest: Seq<u8>)
    requires
        view_wf(v),
        1 <= payload.len() <= MAX_FRAME,
        pending(v) == spec_u16_to_le_bytes(payload.len() as u16) + payload + rest,
    ensures
        spec_next_frame(v, false) matches Some((f, v2)) && f == payload && pending(v2) == rest,
        spec_take_frame(v, false) matches Some((f, v2)) && f == payload && pending(v2) == rest,
{
    lemma_auto_spec_u16_to_from_le_bytes();
    let d = v.data;
    let r = v.rpos as int;
    let hdr = spec_u16_to_le_bytes(payload.len() as u16);
    assert(hdr.len() == 2);
    assert(pending(v).len() == 2 + payload.len() + rest.len());
    assert(d.subrange(r, r + 2) =~= pending(v).subrange(0, 2));
    assert(pending(v).subrange(0, 2) =~= hdr);
    let ml = payload.len() as int;
    assert(d.subrange(r + 2, r + 2 + ml) =~= pending(v).subrange(2, 2 + ml));
    assert(pending(v).subrange(2, 2 + ml) =~= payload);
    let p = r + 2 + ml;
    assert(pending(v).subrange(2 + ml, pending(v).len() as int) =~= rest);
    assert(d.subrange(p, d.len() as int) =~= pending(v).subrange(2 + ml, pending(v).len() as int));
    if p >= d.len() {
        assert(rest.len() == 0);
        assert(pending(empty_view()) =~= rest);
    }
}

} // verus!
