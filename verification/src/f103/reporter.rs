//! The reporter of the prototype board: every poll sends the whole current frame.
use vstd::prelude::*;
use crate::payload::Payload;

verus! {

/// Polling interval of the interrupt endpoint, in frames.
pub const INTERVAL: u8 = 1;

/// Holds the data that every poll sends in full.
pub struct Reporter<D: Payload> {
    pub data: D,
}

impl<D: Payload> Reporter<D> {
    /// A reporter of `data`.
    pub fn new(data: D) -> (r: Reporter<D>)
        ensures
            r.data == data,
    {
        Reporter { data }
    }

    /// The packet to write on a poll: all the bytes of the data.
    pub fn poll(&self) -> (packet: Vec<u8>)
        ensures
            packet@ == self.data.bytes(),
    {
        let n = self.data.byte_len();
        let packet = self.data.byte_range(0, n);
        assert(self.data.bytes().subrange(0, n as int) =~= self.data.bytes());
        packet
    }
}

} // verus!
