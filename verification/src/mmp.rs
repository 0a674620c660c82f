//! Per-peer link measurement state: the sender-report interval and the
//! receive counters that reports are built from.
use vstd::prelude::*;
use vstd::bytes::*;
use crate::bytes_out::{spec_write_at, write_at};
use crate::link::{rr_body, sat_add_u64, RECEIVER_REPORT_BODY_SIZE, SENDER_REPORT_BODY_SIZE};

verus! {

/// The sender side: where the current report interval started.
#[derive(Clone, Copy, Debug)]
pub struct SenderState {
    pub interval_start_counter: u64,
    pub interval_start_timestamp: u32,
}

/// The receiver side: highest counter seen and cumulative totals.
#[derive(Clone, Copy, Debug)]
pub struct ReceiverState {
    pub highest_counter: u64,
    pub cumulative_packets_recv: u64,
    pub cumulative_bytes_recv: u64,
}

pub struct MmpPeerState {
    pub sender: SenderState,
    pub receiver: ReceiverState,
}

/// A sender report body: reserved bytes, the interval's start and end
/// counters and timestamps, and zeroed cumulative fields.
pub open spec fn spec_sender_report_body(start_ctr: u64, end_ctr: u64, start_ts: u32, end_ts: u32) -> Seq<u8> {
    seq![0u8, 0u8, 0u8] + spec_u64_to_le_bytes(start_ctr) + spec_u64_to_le_bytes(end_ctr) + spec_u32_to_le_bytes(
        start_ts,
    ) + spec_u32_to_le_bytes(end_ts) + Seq::new(20, |i: int| 0u8)
}

impl SenderState {
    pub fn new() -> (r: SenderState)
        ensures
            r.interval_start_counter == 0,
            r.interval_start_timestamp == 0,
    {
        SenderState { interval_start_counter: 0, interval_start_timestamp: 0 }
    }

    /// Writes the report for the interval ending at `end_ctr` / `end_ts` into `resp`.
    pub fn write_report(&self, end_ctr: u64, end_ts: u32, resp: &mut [u8])
        requires
            old(resp)@.len() >= SENDER_REPORT_BODY_SIZE,
        ensures
            final(resp)@ == spec_write_at(
                old(resp)@,
                0,
                spec_sender_report_body(self.interval_start_counter, end_ctr, self.interval_start_timestamp, end_ts),
            ),
    {
        proof {
            lemma_auto_spec_u64_to_from_le_bytes();
            lemma_auto_spec_u32_to_from_le_bytes();
        }
        let ghost orig = resp@;
        let zeros = [0u8; 20];
        write_at(resp, 0, &[0u8, 0u8, 0u8]);
        write_at(resp, 3, u64_to_le_bytes(self.interval_start_counter).as_slice());
        write_at(resp, 11, u64_to_le_bytes(end_ctr).as_slice());
        write_at(resp, 19, u32_to_le_bytes(self.interval_start_timestamp).as_slice());
        write_at(resp, 23, u32_to_le_bytes(end_ts).as_slice());
        write_at(resp, 27, &zeros);
        let ghost body = spec_sender_report_body(
            self.interval_start_counter,
            end_ctr,
            self.interval_start_timestamp,
            end_ts,
        );
        assert(zeros@ =~= Seq::new(20, |i: int| 0u8));
        assert(resp@ =~= spec_write_at(orig, 0, body));
    }

    /// Starts the next report interval.
    pub fn start_interval(&mut self, counter: u64, timestamp: u32)
        ensures
            final(self).interval_start_counter == counter,
            final(self).interval_start_timestamp == timestamp,
    {
        self.interval_start_counter = counter;
        self.interval_start_timestamp = timestamp;
    }
}

impl ReceiverState {
    pub fn new() -> (r: ReceiverState)
        ensures
            r.highest_counter == 0,
            r.cumulative_packets_recv == 0,
            r.cumulative_bytes_recv == 0,
    {
        ReceiverState { highest_counter: 0, cumulative_packets_recv: 0, cumulative_bytes_recv: 0 }
    }

    /// Records a received frame with `counter` of `frame_bytes` bytes.
    pub fn record_recv(&mut self, counter: u64, frame_bytes: usize)
        ensures
            final(self).highest_counter == if counter > old(self).highest_counter {
                counter
            } else {
                old(self).highest_counter
            },
            final(self).cumulative_packets_recv == sat_add_u64(old(self).cumulative_packets_recv, 1),
            final(self).cumulative_bytes_recv == sat_add_u64(
                old(self).cumulative_bytes_recv,
                frame_bytes as int,
            ),
    {
        if counter > self.highest_counter {
            self.highest_counter = counter;
        }
        self.cumulative_packets_recv = self.cumulative_packets_recv.saturating_add(1);
        self.cumulative_bytes_recv = self.cumulative_bytes_recv.saturating_add(frame_bytes as u64);
    }
}

impl MmpPeerState {
    pub fn new() -> (r: MmpPeerState)
        ensures
            r.sender.interval_start_counter == 0,
            r.sender.interval_start_timestamp == 0,
            r.receiver.highest_counter == 0,
            r.receiver.cumulative_packets_recv == 0,
            r.receiver.cumulative_bytes_recv == 0,
    {
        MmpPeerState { sender: SenderState::new(), receiver: ReceiverState::new() }
    }
}

impl Default for MmpPeerState {
    fn default() -> (r: MmpPeerState)
        ensures
            r.sender.interval_start_counter == 0,
            r.sender.interval_start_timestamp == 0,
            r.receiver.highest_counter == 0,
            r.receiver.cumulative_packets_recv == 0,
            r.receiver.cumulative_bytes_recv == 0,
    {
        MmpPeerState::new()
    }
}

/// The receiver report that answers a sender report echoes the report's
/// interval end counter as highest counter and its end timestamp.
pub proof fn report_echo(start_ctr: u64, end_ctr: u64, start_ts: u32, end_ts: u32)
    ensures
        ({
            let rr = rr_body(spec_sender_report_body(start_ctr, end_ctr, start_ts, end_ts));
            &&& rr.len() == RECEIVER_REPORT_BODY_SIZE
            &&& rr.subrange(3, 11) == spec_u64_to_le_bytes(end_ctr)
            &&& rr.subrange(27, 31) == spec_u32_to_le_bytes(end_ts)
            &&& spec_sender_report_body(start_ctr, end_ctr, start_ts, end_ts).len() == SENDER_REPORT_BODY_SIZE
        }),
{
    lemma_auto_spec_u64_to_from_le_bytes();
    lemma_auto_spec_u32_to_from_le_bytes();
    let sr = spec_sender_report_body(start_ctr, end_ctr, start_ts, end_ts);
    let rr = rr_body(sr);
    assert(sr.subrange(11, 19) =~= spec_u64_to_le_bytes(end_ctr));
    assert(sr.subrange(23, 27) =~= spec_u32_to_le_bytes(end_ts));
    assert(rr.subrange(3, 11) =~= sr.subrange(11, 19));
    assert(rr.subrange(27, 31) =~= sr.subrange(23, 27));
}

} // verus!
