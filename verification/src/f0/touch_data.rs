//! One frame of touch readings from the touch matrix.
use vstd::prelude::*;
use crate::payload::{Payload, le_bytes, le_byte_range, lemma_le_bytes_decode};

verus! {

/// Number of drive lines (columns) of the matrix.
pub const N: usize = 15;

/// Number of sense lines (rows) of the matrix.
pub const M: usize = 10;

/// Length of a frame: one leading slot for the PWM period, then one reading per
/// cell of the matrix.
pub const TOUCH_DATA_LEN: usize = 1 + M * N;

/// PWM period, in timer ticks, that the drive lines start with.
pub const INITIAL_PERIOD: u16 = 4;

/// A frame of the touchpad: slot `1 + N * row + col` holds the reading of cell
/// (`row`, `col`), and slot 0 the PWM period at which the scan filled the frame.
/// Adding a frame into another (`add`) sums the readings and adds one to slot 0, so
/// in a summed frame slot 0 holds the period of the first frame plus the number of
/// frames added into it.
#[derive(Clone, Copy)]
pub struct TouchData {
    pub inner: [u16; TOUCH_DATA_LEN],
}

/// The frame of all zeros.
pub open spec fn zero_frame() -> Seq<u16> {
    Seq::new(TOUCH_DATA_LEN as nat, |i: int| 0u16)
}

/// Whether `b` can be added into `a` without a slot overflowing a `u16`.
pub open spec fn can_add_frames(a: Seq<u16>, b: Seq<u16>) -> bool {
    &&& a[0] < u16::MAX
    &&& forall|i: int| 1 <= i < TOUCH_DATA_LEN ==> a[i] + b[i] <= u16::MAX
}

/// `b` added into `a`: slot 0 of `a` goes up by one, every other slot is the sum of both.
pub open spec fn add_frames(a: Seq<u16>, b: Seq<u16>) -> Seq<u16> {
    Seq::new(
        TOUCH_DATA_LEN as nat,
        |i: int|
            if i == 0 {
                (a[0] + 1) as u16
            } else {
                (a[i] + b[i]) as u16
            },
    )
}

/// An empty frame has one slot for the period and one per cell, all zero.
pub proof fn lemma_zero_frame()
    ensures
        zero_frame().len() == 151,
        forall|i: int| 0 <= i < 151 ==> #[trigger] zero_frame()[i] == 0,
{
}

/// Adding frames sums them slot by slot: every reading slot holds the plain sum of
/// the two readings, and slot 0 holds one more than the first frame's.
pub proof fn lemma_add_is_slotwise_sum(a: Seq<u16>, b: Seq<u16>)
    requires
        a.len() == TOUCH_DATA_LEN,
        b.len() == TOUCH_DATA_LEN,
        can_add_frames(a, b),
    ensures
        add_frames(a, b).len() == TOUCH_DATA_LEN,
        add_frames(a, b)[0] == a[0] + 1,
        forall|i: int| 1 <= i < TOUCH_DATA_LEN ==> #[trigger] add_frames(a, b)[i] == a[i] + b[i],
{
}

/// Two frames can be added exactly when slot 0 of the first can still count one
/// more and no reading slot's sum goes past `u16::MAX`.
pub proof fn lemma_can_add_when_sums_fit(a: Seq<u16>, b: Seq<u16>)
    ensures
        can_add_frames(a, b) <==> (a[0] + 1 <= 0xffff && forall|i: int|
            1 <= i < TOUCH_DATA_LEN ==> #[trigger] a[i] + b[i] <= 0xffff),
{
}

impl View for TouchData {
    type V = Seq<u16>;

    open spec fn view(&self) -> Seq<u16> {
        self.inner@
    }
}

impl TouchData {
    /// The frame of all zeros.
    pub fn new() -> (t: TouchData)
        ensures
            t@ == zero_frame(),
    {
        let t = TouchData { inner: [0u16; TOUCH_DATA_LEN] };
        assert(t@ =~= zero_frame());
        t
    }

    /// Sets every slot to zero.
    pub fn clear(&mut self)
        ensures
            final(self)@ == zero_frame(),
    {
        let mut idx: usize = 0;
        while idx < TOUCH_DATA_LEN
            invariant
                idx <= TOUCH_DATA_LEN,
                self@.len() == TOUCH_DATA_LEN,
                forall|i: int| 0 <= i < idx ==> self@[i] == 0,
            decreases TOUCH_DATA_LEN - idx,
        {
            self.inner[idx] = 0;
            idx = idx + 1;
        }
        assert(self@ =~= zero_frame());
    }

    /// Hands out the frame as it stands and leaves all zeros in its place.
    pub fn take(&mut self) -> (taken: TouchData)
        ensures
            taken@ == old(self)@,
            final(self)@ == zero_frame(),
    {
        let copy = *self;
        self.clear();
        copy
    }

    /// Whether `other` can be added into this frame without overflow.
    pub fn can_add(&self, other: &TouchData) -> (ok: bool)
        ensures
            ok == can_add_frames(self@, other@),
    {
        if self.inner[0] == u16::MAX {
            return false;
        }
        let mut idx: usize = 1;
        while idx < TOUCH_DATA_LEN
            invariant
                1 <= idx <= TOUCH_DATA_LEN,
                self@.len() == TOUCH_DATA_LEN,
                other@.len() == TOUCH_DATA_LEN,
                self@[0] < u16::MAX,
                forall|i: int| 1 <= i < idx ==> self@[i] + other@[i] <= u16::MAX,
            decreases TOUCH_DATA_LEN - idx,
        {
            if self.inner[idx] > u16::MAX - other.inner[idx] {
                return false;
            }
            idx = idx + 1;
        }
        true
    }

    /// Adds `other` into this frame: slot 0 goes up by one (one more frame summed),
    /// every other slot gets the reading of `other` added.
    pub fn add(&mut self, other: &TouchData)
        requires
            can_add_frames(old(self)@, other@),
        ensures
            final(self)@ == add_frames(old(self)@, other@),
            final(self)@[0] == old(self)@[0] + 1,
            forall|i: int|
                1 <= i < TOUCH_DATA_LEN ==> #[trigger] final(self)@[i] == old(self)@[i] + other@[i],
    {
        let ghost before = self@;
        self.inner[0] = self.inner[0] + 1;
        let mut idx: usize = 1;
        while idx < TOUCH_DATA_LEN
            invariant
                1 <= idx <= TOUCH_DATA_LEN,
                before.len() == TOUCH_DATA_LEN,
                self@.len() == TOUCH_DATA_LEN,
                other@.len() == TOUCH_DATA_LEN,
                can_add_frames(before, other@),
                self@[0] == before[0] + 1,
                forall|i: int| 1 <= i < idx ==> self@[i] == before[i] + other@[i],
                forall|i: int| idx <= i < TOUCH_DATA_LEN ==> self@[i] == before[i],
            decreases TOUCH_DATA_LEN - idx,
        {
            self.inner[idx] = self.inner[idx] + other.inner[idx];
            idx = idx + 1;
        }
        assert(self@ =~= add_frames(before, other@));
    }

    /// The frame as bytes, each slot little-endian.
    pub fn as_bytes(&self) -> (out: Vec<u8>)
        ensures
            out@ == le_bytes(self@),
    {
        let out = le_byte_range(self.inner.as_slice(), 0, 2 * TOUCH_DATA_LEN);
        assert(le_bytes(self@).subrange(0, 2 * TOUCH_DATA_LEN) =~= le_bytes(self@));
        out
    }
}

impl Payload for TouchData {
    open spec fn bytes(&self) -> Seq<u8> {
        le_bytes(self@)
    }

    fn byte_len(&self) -> (n: usize) {
        2 * TOUCH_DATA_LEN
    }

    fn byte_range(&self, start: usize, end: usize) -> (out: Vec<u8>) {
        le_byte_range(self.inner.as_slice(), start, end)
    }
}

/// A frame goes on the wire as its readings in order, each as two bytes, low byte
/// first: reading `i` is `bytes[2i] + 256 * bytes[2i + 1]`.
pub proof fn lemma_frame_bytes_in_order(t: TouchData, i: int)
    requires
        0 <= i < TOUCH_DATA_LEN,
    ensures
        t.bytes().len() == 2 * TOUCH_DATA_LEN,
        t.bytes()[2 * i] + 256 * t.bytes()[2 * i + 1] == t.inner[i],
{
    lemma_le_bytes_decode(t@, i);
}

} // verus!
