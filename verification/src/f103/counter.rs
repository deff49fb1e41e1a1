//! A USB test class that sends a count that goes up by one on every poll.
use vstd::prelude::*;
use vstd::bytes::{u64_to_le_bytes, spec_u64_to_le_bytes, spec_u64_from_le_bytes, lemma_auto_spec_u64_to_from_le_bytes};

verus! {

/// Polling interval of the interrupt endpoint, in frames.
pub const INTERVAL: u8 = 1;

/// Largest packet, in bytes, of the interrupt endpoint.
pub const MAX_PACKET_SIZE: u16 = 64;

/// The count sent so far.
pub struct Counter {
    idx: i64,
}

impl View for Counter {
    type V = i64;

    closed spec fn view(&self) -> i64 {
        self.idx
    }
}

impl Counter {
    /// A counter at zero.
    pub fn new() -> (c: Counter)
        ensures
            c@ == 0,
    {
        Counter { idx: 0 }
    }

    /// The current count.
    pub fn idx(&self) -> (i: i64)
        ensures
            i == self@,
    {
        self.idx
    }

    /// Counts one more and gives the packet to send: the new count as eight
    /// little-endian bytes (two's complement).
    pub fn poll(&mut self) -> (packet: Vec<u8>)
        requires
            old(self)@ < i64::MAX,
        ensures
            final(self)@ == old(self)@ + 1,
            packet@ == spec_u64_to_le_bytes(final(self)@ as u64),
            packet@.len() == 8,
            spec_u64_from_le_bytes(packet@) == final(self)@ as u64,
    {
        self.idx = self.idx + 1;
        let packet = u64_to_le_bytes(self.idx as u64);
        proof {
            lemma_auto_spec_u64_to_from_le_bytes();
        }
        packet
    }
}

} // verus!
