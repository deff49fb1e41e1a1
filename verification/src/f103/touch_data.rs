//! The frame of the blue-pill prototype board.
use vstd::prelude::*;
use crate::payload::{Payload, le_bytes, le_byte_range, lemma_le_bytes_decode};

verus! {

/// Number of drive lines (columns).
pub const N: usize = 12;

/// Number of sense lines (rows).
pub const M: usize = 2;

/// Number of readings in a frame.
pub const TOUCH_DATA_LEN: usize = N * M;

/// Size in bytes of a frame on the wire, which is also the packet size of the
/// board's reporter.
pub const MAX_PACKET_SIZE: u16 = 48;

/// A frame: one reading per cell of the matrix.
pub struct TouchData {
    pub inner: [u16; TOUCH_DATA_LEN],
}

impl View for TouchData {
    type V = Seq<u16>;

    open spec fn view(&self) -> Seq<u16> {
        self.inner@
    }
}

impl TouchData {
    /// The frame with every reading at one.
    pub fn new() -> (t: TouchData)
        ensures
            t@ == Seq::new(TOUCH_DATA_LEN as nat, |i: int| 1u16),
    {
        let t = TouchData { inner: [1u16; TOUCH_DATA_LEN] };
        assert(t@ =~= Seq::new(TOUCH_DATA_LEN as nat, |i: int| 1u16));
        t
    }
}

impl Payload for TouchData {
    open spec fn bytes(&self) -> Seq<u8> {
        le_bytes(self@)
    }

    fn byte_len(&self) -> (n: usize) {
        2 * TOUCH_DATA_LEN
    }

    fn byte_range(&self, start: usize, end: usize) -> (out: Vec<u8>) {
        le_byte_range(self.inner.as_slice(), start, end)
    }
}

/// A frame fills exactly one packet of the board's reporter.
pub proof fn lemma_frame_fills_packet(t: TouchData)
    ensures
        t.bytes().len() == MAX_PACKET_SIZE,
{
}

/// A frame goes on the wire as its readings in order, each as two bytes, low byte
/// first: reading `i` is `bytes[2i] + 256 * bytes[2i + 1]`.
pub proof fn lemma_frame_bytes_in_order(t: TouchData, i: int)
    requires
        0 <= i < TOUCH_DATA_LEN,
    ensures
        t.bytes().len() == 2 * TOUCH_DATA_LEN,
        t.bytes()[2 * i] + 256 * t.bytes()[2 * i + 1] == t.inner[i],
{
    lemma_le_bytes_decode(t@, i);
}

} // verus!
