//! ESP-NOW link limits: the radio carries at most 250 bytes per frame.
use vstd::prelude::*;
use crate::bytes_out::{spec_write_at, write_at};

verus! {

/// Largest ESP-NOW payload.
pub const ESP_NOW_MAX_PAYLOAD: usize = 250;

/// ESP-NOW transport error.
#[derive(Debug)]
pub struct EspNowError;

/// Whether a frame of `len` bytes exceeds one ESP-NOW payload.
pub fn esp_now_oversized(len: usize) -> (r: bool)
    ensures
        r == (len > ESP_NOW_MAX_PAYLOAD),
{
    len > ESP_NOW_MAX_PAYLOAD
}

/// Copies a received ESP-NOW payload into `buf`, as much as fits, and
/// returns the number of bytes copied.
pub fn esp_now_copy_received(received: &[u8; 250], buf: &mut [u8]) -> (n: usize)
    ensures
        n == (if old(buf)@.len() < ESP_NOW_MAX_PAYLOAD { old(buf)@.len() } else { ESP_NOW_MAX_PAYLOAD as nat }),
        final(buf)@ == spec_write_at(old(buf)@, 0, received@.subrange(0, n as int)),
{
    let len = if buf.len() < ESP_NOW_MAX_PAYLOAD {
        buf.len()
    } else {
        ESP_NOW_MAX_PAYLOAD
    };
    let src: &[u8] = received;
    write_at(buf, 0, vstd::slice::slice_subrange(src, 0, len));
    len
}

} // verus!
