//! The fixed-capacity byte buffers of the LR2021 framer, held in
//! `heapless::Vec`, and the calls the framer makes on them.
use vstd::prelude::*;

verus! {

/// Capacity of the transmit buffer: one FLRC packet.
pub const TX_CAPACITY: usize = 255;
/// Capacity of the receive buffer: two FLRC packets.
pub const RX_CAPACITY: usize = 510;

#[verifier::external_type_specification]
#[verifier::external_body]
#[verifier::reject_recursive_types(T)]
pub struct ExHeaplessVec<T, const N: usize>(heapless::Vec<T, N>);

/// The bytes a transmit buffer holds, in order.
pub uninterp spec fn tx_contents(v: heapless::Vec<u8, TX_CAPACITY>) -> Seq<u8>;

/// The bytes a receive buffer holds, in order.
pub uninterp spec fn rx_contents(v: heapless::Vec<u8, RX_CAPACITY>) -> Seq<u8>;

/// Calls `heapless::Vec::new`: an empty buffer.
#[verifier::external_body]
pub(crate) fn tx_new() -> (r: heapless::Vec<u8, TX_CAPACITY>)
    ensures
        tx_contents(r) == Seq::<u8>::empty(),
{
    heapless::Vec::new()
}

/// Calls `heapless::Vec::push`: appends `b` when the buffer holds fewer than
/// its capacity, and otherwise leaves it as it was and hands `b` back.
#[verifier::external_body]
pub(crate) fn tx_push(v: &mut heapless::Vec<u8, TX_CAPACITY>, b: u8) -> (r: Result<(), u8>)
    ensures
        r is Ok <==> tx_contents(*old(v)).len() < TX_CAPACITY,
        r matches Err(x) ==> x == b,
        tx_contents(*final(v)) == (if tx_contents(*old(v)).len() < TX_CAPACITY { tx_contents(*old(v)).push(b) } else { tx_contents(*old(v)) }),
{
    v.push(b)
}

/// Calls `len` on the buffer (through its slice): the number of bytes held.
#[verifier::external_body]
pub(crate) fn tx_len(v: &heapless::Vec<u8, TX_CAPACITY>) -> (r: usize)
    ensures
        r == tx_contents(*v).len(),
{
    v.len()
}

/// Calls `heapless::Vec::is_empty`.
#[verifier::external_body]
pub(crate) fn tx_is_empty(v: &heapless::Vec<u8, TX_CAPACITY>) -> (r: bool)
    ensures
        r == (tx_contents(*v).len() == 0),
{
    v.is_empty()
}

/// Calls `heapless::Vec::as_slice`: the bytes held.
#[verifier::external_body]
pub(crate) fn tx_as_slice(v: &heapless::Vec<u8, TX_CAPACITY>) -> (r: &[u8])
    ensures
        r@ == tx_contents(*v),
{
    v.as_slice()
}

/// Calls `heapless::Vec::clear`: the buffer becomes empty.
#[verifier::external_body]
pub(crate) fn tx_clear(v: &mut heapless::Vec<u8, TX_CAPACITY>)
    ensures
        tx_contents(*final(v)) == Seq::<u8>::empty(),
{
    v.clear()
}

/// Calls `heapless::Vec::new`: an empty buffer.
#[verifier::external_body]
pub(crate) fn rx_new() -> (r: heapless::Vec<u8, RX_CAPACITY>)
    ensures
        rx_contents(r) == Seq::<u8>::empty(),
{
    heapless::Vec::new()
}

/// Calls `heapless::Vec::push`: appends `b` when the buffer holds fewer than
/// its capacity, and otherwise leaves it as it was and hands `b` back.
#[verifier::external_body]
pub(crate) fn rx_push(v: &mut heapless::Vec<u8, RX_CAPACITY>, b: u8) -> (r: Result<(), u8>)
    ensures
        r is Ok <==> rx_contents(*old(v)).len() < RX_CAPACITY,
        r matches Err(x) ==> x == b,
        rx_contents(*final(v)) == (if rx_contents(*old(v)).len() < RX_CAPACITY { rx_contents(*old(v)).push(b) } else { rx_contents(*old(v)) }),
{
    v.push(b)
}

/// Calls `len` on the buffer (through its slice): the number of bytes held.
#[verifier::external_body]
pub(crate) fn rx_len(v: &heapless::Vec<u8, RX_CAPACITY>) -> (r: usize)
    ensures
        r == rx_contents(*v).len(),
{
    v.len()
}

/// Calls `heapless::Vec::capacity`: the fixed capacity.
#[verifier::external_body]
pub(crate) fn rx_capacity(v: &heapless::Vec<u8, RX_CAPACITY>) -> (r: usize)
    ensures
        r == RX_CAPACITY,
{
    v.capacity()
}

/// Calls `heapless::Vec::as_slice`: the bytes held.
#[verifier::external_body]
pub(crate) fn rx_as_slice(v: &heapless::Vec<u8, RX_CAPACITY>) -> (r: &[u8])
    ensures
        r@ == rx_contents(*v),
{
    v.as_slice()
}

/// Calls `heapless::Vec::clear`: the buffer becomes empty.
#[verifier::external_body]
pub(crate) fn rx_clear(v: &mut heapless::Vec<u8, RX_CAPACITY>)
    ensures
        rx_contents(*final(v)) == Seq::<u8>::empty(),
{
    v.clear()
}

} // verus!
