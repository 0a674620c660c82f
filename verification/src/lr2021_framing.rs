//! LR2021 framing: fragments a byte stream into FLRC packets of at most
//! `MAX_PACKET` bytes and reassembles received packets into a byte stream.
//! No header is added at this layer; the stream is already self-delimiting.
use vstd::prelude::*;
use crate::bytes_out::spec_write_at;
use crate::packet_buf::{
    rx_as_slice, rx_capacity, rx_clear, rx_contents, rx_len, rx_new, rx_push, tx_as_slice, tx_clear,
    tx_contents, tx_is_empty, tx_len, tx_new, tx_push, RX_CAPACITY, TX_CAPACITY,
};

verus! {

/// Maximum FLRC payload per packet.
pub const MAX_PACKET: usize = 255;

/// Bytes taken by a push into a transmit buffer holding `pending` bytes.
pub open spec fn spec_tx_take(pending: nat, data_len: nat) -> nat {
    let space = (MAX_PACKET - pending) as nat;
    if data_len < space {
        data_len
    } else {
        space
    }
}

/// Transmit buffer after a push of `data`.
pub open spec fn spec_tx_push(pending: Seq<u8>, data: Seq<u8>) -> Seq<u8> {
    pending + data.subrange(0, spec_tx_take(pending.len(), data.len()) as int)
}

/// Transmit side: accumulates bytes and hands them out as packets.
#[derive(Debug)]
pub struct TxFramer {
    buf: heapless::Vec<u8, TX_CAPACITY>,
}

impl View for TxFramer {
    type V = Seq<u8>;

    closed spec fn view(&self) -> Seq<u8> {
        tx_contents(self.buf)
    }
}

impl TxFramer {
    /// The buffer never holds more than one packet.
    pub closed spec fn wf(&self) -> bool {
        tx_contents(self.buf).len() <= MAX_PACKET
    }

    pub fn new() -> (r: TxFramer)
        ensures
            r.wf(),
            r@ == Seq::<u8>::empty(),
    {
        TxFramer { buf: tx_new() }
    }

    /// Pushes bytes into the framer and returns how many were taken: all of
    /// `data` when it fits, otherwise exactly as many as fill the packet.
    pub fn push(&mut self, data: &[u8]) -> (r: usize)
        requires
            old(self).wf(),
        ensures
            final(self).wf(),
            r == spec_tx_take(old(self)@.len(), data@.len()),
            final(self)@ == spec_tx_push(old(self)@, data@),
    {
        let space = MAX_PACKET - tx_len(&self.buf);
        let take = if data.len() < space {
            data.len()
        } else {
            space
        };
        let ghost start = self@;
        let mut i: usize = 0;
        while i < take
            invariant
                i <= take,
                take <= data@.len(),
                start.len() + take <= MAX_PACKET,
                tx_contents(self.buf) == start + data@.subrange(0, i as int),
            decreases take - i,
        {
            let _ = tx_push(&mut self.buf, data[i]);
            i = i + 1;
            assert(tx_contents(self.buf) =~= start + data@.subrange(0, i as int));
        }
        take
    }

    /// The buffer holds a full packet.
    pub fn is_full(&self) -> (r: bool)
        ensures
            r == (self@.len() >= MAX_PACKET),
    {
        tx_len(&self.buf) >= MAX_PACKET
    }

    /// The buffered bytes as a packet (possibly short), or `None` when empty.
    /// The buffer is kept; `clear` it after transmitting.
    pub fn flush_packet(&self) -> (r: Option<&[u8]>)
        ensures
            match r {
                Some(p) => self@.len() > 0 && p@ == self@,
                None => self@.len() == 0,
            },
    {
        if tx_is_empty(&self.buf) {
            return None;
        }
        Some(tx_as_slice(&self.buf))
    }

    /// Copies the buffered bytes into `out` (as many as fit) and clears the
    /// buffer; `None` when nothing was buffered.
    pub fn take_packet(&mut self, out: &mut [u8]) -> (r: Option<usize>)
        requires
            old(self).wf(),
        ensures
            final(self).wf(),
            old(self)@.len() == 0 ==> r is None && final(self)@ == old(self)@ && final(out)@ == old(out)@,
            old(self)@.len() > 0 ==> {
                let n = if old(self)@.len() < old(out)@.len() { old(self)@.len() } else { old(out)@.len() };
                &&& r == Some(n as usize)
                &&& final(out)@ == spec_write_at(old(out)@, 0, old(self)@.subrange(0, n as int))
                &&& final(self)@ == Seq::<u8>::empty()
            },
    {
        if tx_is_empty(&self.buf) {
            return None;
        }
        let len = tx_len(&self.buf);
        let n = if len < out.len() {
            len
        } else {
            out.len()
        };
        let src = tx_as_slice(&self.buf);
        let part = vstd::slice::slice_subrange(src, 0, n);
        crate::bytes_out::write_at(out, 0, part);
        tx_clear(&mut self.buf);
        Some(n)
    }

    /// Clears the transmit buffer after a packet has been transmitted.
    pub fn clear(&mut self)
        ensures
            final(self).wf(),
            final(self)@ == Seq::<u8>::empty(),
    {
        tx_clear(&mut self.buf);
    }

    /// Number of bytes currently buffered.
    pub fn pending(&self) -> (r: usize)
        ensures
            r == self@.len(),
    {
        tx_len(&self.buf)
    }

    /// Whether bytes wait to be flushed.
    pub fn has_pending(&self) -> (r: bool)
        ensures
            r == (self@.len() > 0),
    {
        !tx_is_empty(&self.buf)
    }
}

impl Default for TxFramer {
    fn default() -> (r: TxFramer)
        ensures
            r.wf(),
            r@ == Seq::<u8>::empty(),
    {
        TxFramer::new()
    }
}

/// Receive buffer after pushing a packet: appended when it fits, else unchanged.
pub open spec fn spec_rx_push(pending: Seq<u8>, data: Seq<u8>) -> Seq<u8> {
    if pending.len() + data.len() <= RX_CAPACITY {
        pending + data
    } else {
        pending
    }
}

/// Bytes a drain into a buffer of `buf_len` bytes copies out.
pub open spec fn spec_rx_drain_len(pending: nat, buf_len: nat) -> nat {
    if buf_len < pending {
        buf_len
    } else {
        pending
    }
}

/// Receive side: buffers packet bytes and drains them on demand.
#[derive(Debug)]
pub struct RxFramer {
    buf: heapless::Vec<u8, RX_CAPACITY>,
    read_pos: usize,
}

impl View for RxFramer {
    type V = Seq<u8>;

    /// The bytes not yet drained.
    closed spec fn view(&self) -> Seq<u8> {
        rx_contents(self.buf).subrange(self.read_pos as int, rx_contents(self.buf).len() as int)
    }
}

impl RxFramer {
    /// The read position lies within the buffer, which never exceeds its capacity.
    pub closed spec fn wf(&self) -> bool {
        &&& self.read_pos <= rx_contents(self.buf).len()
        &&& rx_contents(self.buf).len() <= RX_CAPACITY
    }

    pub fn new() -> (r: RxFramer)
        ensures
            r.wf(),
            r@ == Seq::<u8>::empty(),
    {
        RxFramer { buf: rx_new(), read_pos: 0 }
    }

    /// Moves the undrained bytes to the front of the buffer.
    fn compact(&mut self)
        requires
            old(self).wf(),
        ensures
            final(self).wf(),
            final(self)@ == old(self)@,
            final(self).read_pos == 0,
    {
        let len = rx_len(&self.buf);
        let mut fresh = rx_new();
        let ghost rest = self@;
        let mut i = self.read_pos;
        while i < len
            invariant
                self.wf(),
                len == rx_contents(self.buf).len(),
                self.read_pos <= i <= len,
                rest == rx_contents(self.buf).subrange(self.read_pos as int, len as int),
                rx_contents(fresh) == rx_contents(self.buf).subrange(self.read_pos as int, i as int),
            decreases len - i,
        {
            let src = rx_as_slice(&self.buf);
            let _ = rx_push(&mut fresh, src[i]);
            i = i + 1;
            assert(rx_contents(fresh) =~= rx_contents(self.buf).subrange(self.read_pos as int, i as int));
        }
        self.buf = fresh;
        self.read_pos = 0;
        assert(rx_contents(self.buf).subrange(0, rx_contents(self.buf).len() as int) =~= rx_contents(self.buf));
    }

    /// Pushes a received packet's bytes; `false` (packet dropped) when they
    /// would overflow the buffer.
    pub fn push_packet(&mut self, data: &[u8]) -> (r: bool)
        requires
            old(self).wf(),
        ensures
            final(self).wf(),
            r == (old(self)@.len() + data@.len() <= RX_CAPACITY),
            final(self)@ == spec_rx_push(old(self)@, data@),
    {
        if self.read_pos > 0 {
            self.compact();
        }
        assert(rx_contents(self.buf).subrange(0, rx_contents(self.buf).len() as int) =~= rx_contents(self.buf));
        let ghost start = self@;
        let len = rx_len(&self.buf);
        let cap = rx_capacity(&self.buf);
        if data.len() > cap || len > cap - data.len() {
            return false;
        }
        let mut i: usize = 0;
        while i < data.len()
            invariant
                i <= data@.len(),
                self.read_pos == 0,
                start.len() + data@.len() <= RX_CAPACITY,
                rx_contents(self.buf) == start + data@.subrange(0, i as int),
            decreases data@.len() - i,
        {
            if rx_push(&mut self.buf, data[i]).is_err() {
                return false;
            }
            i = i + 1;
            assert(rx_contents(self.buf) =~= start + data@.subrange(0, i as int));
        }
        assert(data@.subrange(0, data@.len() as int) =~= data@);
        assert(rx_contents(self.buf).subrange(0, rx_contents(self.buf).len() as int) =~= rx_contents(self.buf));
        true
    }

    /// Drains up to `buf.len()` bytes into `buf` and returns how many were
    /// copied; 0 when nothing is buffered.
    pub fn drain(&mut self, buf: &mut [u8]) -> (r: usize)
        requires
            old(self).wf(),
        ensures
            final(self).wf(),
            r == spec_rx_drain_len(old(self)@.len(), old(buf)@.len()),
            final(buf)@ == spec_write_at(old(buf)@, 0, old(self)@.subrange(0, r as int)),
            final(self)@ == old(self)@.subrange(r as int, old(self)@.len() as int),
    {
        let len = rx_len(&self.buf);
        let available = len - self.read_pos;
        if available == 0 {
            assert(buf@ =~= spec_write_at(buf@, 0, self@.subrange(0, 0)));
            assert(self@ =~= self@.subrange(0, self@.len() as int));
            return 0;
        }
        let n = if buf.len() < available {
            buf.len()
        } else {
            available
        };
        let src = rx_as_slice(&self.buf);
        let part = vstd::slice::slice_subrange(src, self.read_pos, self.read_pos + n);
        let ghost before = self@;
        assert(part@ =~= before.subrange(0, n as int));
        crate::bytes_out::write_at(buf, 0, part);
        self.read_pos = self.read_pos + n;
        if self.read_pos >= len {
            rx_clear(&mut self.buf);
            self.read_pos = 0;
            assert(self@ =~= before.subrange(n as int, before.len() as int));
        } else {
            assert(self@ =~= before.subrange(n as int, before.len() as int));
        }
        n
    }

    /// Number of bytes available to drain.
    pub fn available(&self) -> (r: usize)
        requires
            self.wf(),
        ensures
            r == self@.len(),
    {
        rx_len(&self.buf) - self.read_pos
    }
}

impl Default for RxFramer {
    fn default() -> (r: RxFramer)
        ensures
            r.wf(),
            r@ == Seq::<u8>::empty(),
    {
        RxFramer::new()
    }
}

/// Bytes pushed into an empty transmit framer, taken as one packet into a
/// buffer large enough for it and pushed into a receive framer, drain out of
/// it unchanged and in order behind whatever it already held.
pub proof fn tx_rx_round_trip(data: Seq<u8>, rx_pending: Seq<u8>, out: Seq<u8>, drain_len: nat)
    requires
        data.len() <= MAX_PACKET,
        out.len() >= data.len(),
        rx_pending.len() + data.len() <= RX_CAPACITY,
        drain_len >= rx_pending.len() + data.len(),
    ensures
        ({
            let pending = spec_tx_push(Seq::<u8>::empty(), data);
            let packet = spec_write_at(out, 0, pending).subrange(0, pending.len() as int);
            let rx = spec_rx_push(rx_pending, packet);
            &&& pending == data
            &&& packet == data
            &&& spec_rx_drain_len(rx.len(), drain_len) == rx_pending.len() + data.len()
            &&& rx.subrange(rx_pending.len() as int, rx.len() as int) == data
        }),
{
    let pending = spec_tx_push(Seq::<u8>::empty(), data);
    assert(pending =~= data);
    let packet = spec_write_at(out, 0, pending).subrange(0, pending.len() as int);
    assert(packet =~= data);
    let rx = spec_rx_push(rx_pending, packet);
    assert(rx.subrange(rx_pending.len() as int, rx.len() as int) =~= data);
}

/// The receive buffer after `rest` is sent packet by packet: each round
/// pushes the unsent rest into the emptied transmit framer, takes its packet
/// into `out` and pushes the packet into the receive framer holding `rx`.
pub open spec fn spec_pump(rest: Seq<u8>, rx: Seq<u8>, out: Seq<u8>) -> Seq<u8>
    decreases rest.len(),
{
    if rest.len() == 0 || out.len() < MAX_PACKET {
        rx
    } else {
        let pending = spec_tx_push(Seq::<u8>::empty(), rest);
        let packet = spec_write_at(out, 0, pending).subrange(0, pending.len() as int);
        spec_pump(rest.subrange(pending.len() as int, rest.len() as int), spec_rx_push(rx, packet), out)
    }
}

/// Pushing `a` and then `b` into a transmit framer holding `pending`, when
/// `a` fits, buffers what pushing `a` followed by `b` at once would.
pub proof fn tx_push_split(pending: Seq<u8>, a: Seq<u8>, b: Seq<u8>)
    requires
        pending.len() + a.len() <= MAX_PACKET,
    ensures
        spec_tx_push(spec_tx_push(pending, a), b) == spec_tx_push(pending, a + b),
        spec_tx_take(pending.len(), a.len()) + spec_tx_take(pending.len() + a.len(), b.len())
            == spec_tx_take(pending.len(), (a + b).len()),
{
    assert(spec_tx_push(pending, a) =~= pending + a);
    let t = spec_tx_take(pending.len() + a.len(), b.len());
    assert((a + b).subrange(0, (a.len() + t) as int) =~= a + b.subrange(0, t as int));
    assert(spec_tx_push(spec_tx_push(pending, a), b) =~= spec_tx_push(pending, a + b));
}

/// A byte stream sent through the framers packet by packet, each packet at
/// most `MAX_PACKET` bytes, arrives behind what the receiver already held,
/// unchanged and in order, as long as it all fits in the receive buffer;
/// a drain into a buffer large enough then hands all of it out.
pub proof fn stream_round_trip(stream: Seq<u8>, rx: Seq<u8>, out: Seq<u8>, drain_len: nat)
    requires
        out.len() >= MAX_PACKET,
        rx.len() + stream.len() <= RX_CAPACITY,
        drain_len >= rx.len() + stream.len(),
    ensures
        spec_pump(stream, rx, out) == rx + stream,
        spec_rx_drain_len(spec_pump(stream, rx, out).len(), drain_len) == rx.len() + stream.len(),
    decreases stream.len(),
{
    if stream.len() == 0 {
        assert(rx + stream =~= rx);
    } else {
        let pending = spec_tx_push(Seq::<u8>::empty(), stream);
        let n = pending.len() as int;
        assert(pending =~= stream.subrange(0, n));
        let packet = spec_write_at(out, 0, pending).subrange(0, n);
        assert(packet =~= pending);
        let rest = stream.subrange(n, stream.len() as int);
        let rx2 = spec_rx_push(rx, packet);
        assert(rx2 =~= rx + stream.subrange(0, n));
        stream_round_trip(rest, rx2, out, drain_len);
        assert(rx2 + rest =~= rx + stream);
    }
}

} // verus!
